use vstd::prelude::*;

use crate::sink::{bytes_of_strings, record_of, render_record};
use crate::status::{is_success_code, is_success_status};

verus! {

/// Why the scan of one domain failed. Such a failure ends that job only.
#[derive(Clone, Debug, PartialEq, Eq)]
pub enum ScanError {
    /// The request could not be sent or its answer not received.
    Network(String),
    /// The service answered with a status outside the success class.
    ApiStatus(u16),
    /// The answer was not the expected JSON envelope.
    Decode(String),
    /// The service answered, and said that the scan did not succeed.
    ApiLogic,
    /// The subdomains could not be written to the output.
    Io(String),
}

/// The envelope of the service's answer.
pub struct ApiResponse {
    pub success: bool,
    pub count: i32,
    pub requests_left: i32,
    pub expires: String,
    pub data: Vec<String>,
}

/// Checks the status of the service's answer: only a success status lets
/// the scan go on.
pub fn check_status(code: u16) -> (r: Result<(), ScanError>)
    ensures
        r is Ok <==> is_success_code(code),
        !is_success_code(code) ==> r == Err::<(), ScanError>(ScanError::ApiStatus(code)),
{
    if is_success_status(code) {
        Ok(())
    } else {
        Err(ScanError::ApiStatus(code))
    }
}

/// Decides what a decoded answer leads to: where the service reports
/// success, the record of its subdomains to append to the output; where it
/// reports failure, an error and nothing to write.
pub fn accept_response(resp: &ApiResponse) -> (r: Result<Vec<u8>, ScanError>)
    ensures
        r is Ok <==> resp.success,
        resp.success ==> r->Ok_0@ == record_of(bytes_of_strings(resp.data@)),
        !resp.success ==> r == Err::<Vec<u8>, ScanError>(ScanError::ApiLogic),
{
    if resp.success {
        Ok(render_record(&resp.data))
    } else {
        Err(ScanError::ApiLogic)
    }
}

} // verus!
