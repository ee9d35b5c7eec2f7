use vstd::prelude::*;
use vstd::utf8::encode_utf8;

verus! {

/// The address of the subdomain service, up to the value of the key.
pub const API_ENDPOINT: &'static str = "https://worker.vktools.com/api/subdomainfinder.php?key=";

/// What separates the key from the domain in a request.
pub const DOMAIN_PARAM: &'static str = "&domain=";

/// The address asked for the subdomains of `domain`, with `key` as the
/// credential: the endpoint, the key, then the domain parameter.
pub open spec fn url_of(key: Seq<char>, domain: Seq<u8>) -> Seq<u8> {
    encode_utf8(API_ENDPOINT@) + encode_utf8(key) + encode_utf8(DOMAIN_PARAM@) + domain
}

/// Appends the bytes of `src` to `dst`.
pub fn push_bytes(dst: &mut Vec<u8>, src: &[u8])
    ensures
        final(dst)@ == old(dst)@ + src@,
{
    let mut i: usize = 0;
    while i < src.len()
        invariant
            i <= src@.len(),
            dst@ == old(dst)@ + src@.take(i as int),
        decreases src@.len() - i,
    {
        dst.push(src[i]);
        i = i + 1;
        assert(src@.take(i as int) =~= src@.take(i - 1).push(src@[i - 1]));
    }
    assert(src@.take(i as int) =~= src@);
}

/// Builds the address of the request for the subdomains of `domain`.
pub fn request_url(apikey: &str, domain: &[u8]) -> (r: Vec<u8>)
    ensures
        r@ == url_of(apikey@, domain@),
{
    let mut url: Vec<u8> = Vec::new();
    push_bytes(&mut url, API_ENDPOINT.as_bytes());
    push_bytes(&mut url, apikey.as_bytes());
    push_bytes(&mut url, DOMAIN_PARAM.as_bytes());
    push_bytes(&mut url, domain);
    assert(url@ =~= url_of(apikey@, domain@));
    url
}

} // verus!
