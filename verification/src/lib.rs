pub mod actor;
pub mod byte_shift;
pub mod delivery;
pub mod destination;
pub mod encode;
pub mod header;
pub mod query_types;
pub mod question;
pub mod relay;
pub mod request_message;
pub mod resolve;
pub mod resource_record;
pub mod response_message;
pub mod result_cache;
pub mod session;
pub mod tunnel_header;
pub mod utils;
pub mod wire;

pub use response_message::ResponseMessage;

use vstd::prelude::*;

verus! {

/// Encodes a lookup request for `domain` as wire bytes: the fixed request
/// header followed by a single question for the domain.
pub fn encode_request(domain: &str) -> (r: Vec<u8>)
    ensures
        r@ == request_message::spec_request_bytes(domain@),
{
    let request_msg = request_message::RequestMessage::new(domain);
    let mut request_bytes: Vec<u8> = Vec::new();
    request_msg.to_bytes(&mut request_bytes);
    proof {
        assert(request_bytes@ =~= request_message::spec_request_bytes(domain@));
    }
    request_bytes
}

/// Decodes a response buffer strictly left to right: header, the echoed
/// question when the header counts one, then the declared answer records.
pub fn decode_response(response_bytes: &[u8]) -> (r: Result<
    response_message::ResponseMessage,
    wire::ParseError,
>)
    ensures
        match r {
            Ok(m) => response_message::spec_parse_response(response_bytes@) == Some(m@),
            Err(e) => {
                &&& response_message::spec_parse_response(response_bytes@) is None
                &&& e == wire::ParseError::Truncated
            },
        },
{
    response_message::ResponseMessage::parse_response(response_bytes)
}

} // verus!
