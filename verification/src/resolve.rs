use vstd::prelude::*;
use crate::response_message::{spec_parse_response, ResponseMessage};

verus! {

/// The address a response buffer resolves to: the first four data bytes of
/// the last answer record; nothing when the buffer does not decode, declares
/// no answers, or its last record carries fewer than four data bytes.
pub open spec fn spec_response_address(b: Seq<u8>) -> Option<Seq<u8>> {
    match spec_parse_response(b) {
        None => None,
        Some(m) => if m.answers.len() > 0 && m.answers.last().rdata.len() >= 4 {
            Some(m.answers.last().rdata.take(4))
        } else {
            None
        },
    }
}

/// The pure half of a lookup: what a received response datagram resolves to.
/// Malformed data is an ordinary "no answer", never an error; with several
/// answers the last one listed wins.
pub fn resolve_response(response_bytes: &[u8]) -> (r: Option<[u8; 4]>)
    ensures
        match r {
            None => spec_response_address(response_bytes@) is None,
            Some(a) => spec_response_address(response_bytes@) == Some(a@),
        },
{
    match ResponseMessage::parse_response(response_bytes) {
        Err(_) => None,
        Ok(resp) => resp.last_address(),
    }
}

} // verus!
