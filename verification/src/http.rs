//! The answer of an outbound HTTP call, as the host hands it back.
use vstd::prelude::*;

verus! {

/// Status code and body of an HTTP response.
#[derive(Debug, Clone)]
pub struct HttpReply {
    pub code: u16,
    pub payload: Vec<u8>,
}

} // verus!
