//! What a call can fail with once a response has come back.
use vstd::prelude::*;

verus! {

/// Failures of a call that reached the server. Every one is a value for the
/// caller; none aborts the process.
#[derive(Debug)]
pub enum ClientError {
    /// The HTTP status was not in the 2xx range; the body is kept verbatim.
    HttpStatus { status: u16, body: String },
    /// The body is not JSON, or has no boolean member `ok`.
    MalformedEnvelope,
    /// `ok` was true but the member `field` is missing or of the wrong shape.
    MalformedSuccessPayload { field: String },
    /// `ok` was false but the rejection has no string member `error`.
    MalformedErrorPayload,
    /// A reaction target whose `type` is none of `message`, `file`,
    /// `file_comment`.
    UnknownItemType { item_type: String },
}

} // verus!
