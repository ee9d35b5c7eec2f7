use vstd::prelude::*;
use vstd::utf8::encode_utf8;

use crate::jobs::NEWLINE;
use crate::request::push_bytes;

verus! {

/// The bytes that one append writes: each line followed by a line feed,
/// in the given order.
pub open spec fn record_of(lines: Seq<Seq<u8>>) -> Seq<u8>
    decreases lines.len(),
{
    if lines.len() == 0 {
        Seq::empty()
    } else {
        record_of(lines.drop_last()) + lines.last() + seq![NEWLINE]
    }
}

/// The UTF-8 bytes of each string.
pub open spec fn bytes_of_strings(lines: Seq<String>) -> Seq<Seq<u8>> {
    lines.map_values(|s: String| encode_utf8(s@))
}

/// The contents of the sink after the given appends, in the order in which
/// each took the sink, starting from `start`.
pub open spec fn after_appends(start: Seq<u8>, calls: Seq<Seq<Seq<u8>>>) -> Seq<u8>
    decreases calls.len(),
{
    if calls.len() == 0 {
        start
    } else {
        after_appends(start, calls.drop_last()) + record_of(calls.last())
    }
}

/// Builds the record of one append: each line of `lines`, then a line feed.
/// The sink writes a record in one piece while it holds the sink.
pub fn render_record(lines: &Vec<String>) -> (r: Vec<u8>)
    ensures
        r@ == record_of(bytes_of_strings(lines@)),
{
    let mut out: Vec<u8> = Vec::new();
    let mut i: usize = 0;
    while i < lines.len()
        invariant
            i <= lines@.len(),
            out@ == record_of(bytes_of_strings(lines@.take(i as int))),
        decreases lines@.len() - i,
    {
        push_bytes(&mut out, lines[i].as_str().as_bytes());
        out.push(NEWLINE);
        proof {
            let t = bytes_of_strings(lines@.take(i + 1));
            assert(t.drop_last() =~= bytes_of_strings(lines@.take(i as int)));
        }
        i = i + 1;
    }
    assert(lines@.take(i as int) =~= lines@);
    out
}

/// Appends never interleave: whatever order the appends take the sink in,
/// the record of each one stands whole and contiguous in the result, right
/// after everything that was written before it.
pub proof fn lemma_appends_stay_whole(start: Seq<u8>, calls: Seq<Seq<Seq<u8>>>, j: int)
    requires
        0 <= j < calls.len(),
    ensures
        ({
            let off = after_appends(start, calls.take(j)).len() as int;
            &&& after_appends(start, calls.take(j)).len() + record_of(calls[j]).len()
                <= after_appends(start, calls).len()
            &&& after_appends(start, calls).subrange(0, off) == after_appends(start, calls.take(j))
            &&& after_appends(start, calls).subrange(off, off + record_of(calls[j]).len())
                == record_of(calls[j])
        }),
    decreases calls.len(),
{
    let last = calls.len() - 1;
    assert(calls.take(last) =~= calls.drop_last());
    let whole = after_appends(start, calls);
    let before = after_appends(start, calls.drop_last());
    if j < last {
        lemma_appends_stay_whole(start, calls.drop_last(), j);
        assert(calls.drop_last().take(j) =~= calls.take(j));
        assert(calls.drop_last()[j] == calls[j]);
        let off = after_appends(start, calls.take(j)).len() as int;
        let n = record_of(calls[j]).len() as int;
        assert(whole.subrange(0, off) =~= before.subrange(0, off));
        assert(whole.subrange(off, off + n) =~= before.subrange(off, off + n));
    } else {
        assert(whole.subrange(0, before.len() as int) =~= before);
        assert(whole.subrange(before.len() as int, whole.len() as int) =~= record_of(calls[j]));
    }
}

} // verus!
