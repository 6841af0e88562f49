use vstd::prelude::*;
use crate::destination::Destination;
use crate::utils::{copy_range, lossy_chars_of, lossy_string};
use crate::wire::{get_u16_be, push_u16_be, spec_u16_be, spec_u16_bytes, ParseError};

verus! {

/// The one header message each session sends first over the tunnel: the
/// big-endian port, a reserved zero word, the big-endian domain length, then
/// the domain bytes.
pub open spec fn spec_tunnel_header_bytes(domain: Seq<u8>, port: u16) -> Seq<u8> {
    spec_u16_bytes(port) + spec_u16_bytes(0) + spec_u16_bytes(domain.len() as u16) + domain
}

/// Encodes the session's header message for a destination.
pub fn encode_request_header(remote_dst: &Destination) -> (buf: Vec<u8>)
    requires
        remote_dst@.0.len() <= 65535,
    ensures
        buf@ == spec_tunnel_header_bytes(remote_dst@.0, remote_dst@.1),
{
    let mut buf: Vec<u8> = Vec::new();
    push_u16_be(&mut buf, remote_dst.port());
    push_u16_be(&mut buf, 0);
    let address = remote_dst.address();
    let n = address.len();
    push_u16_be(&mut buf, n as u16);
    let ghost mid = buf@;
    let mut k: usize = 0;
    while k < n
        invariant
            n == address@.len(),
            k <= n,
            buf@ == mid + address@.subrange(0, k as int),
        decreases n - k,
    {
        buf.push(address[k]);
        assert(buf@ =~= mid + address@.subrange(0, k as int + 1));
        k = k + 1;
    }
    proof {
        assert(buf@ =~= spec_tunnel_header_bytes(remote_dst@.0, remote_dst@.1));
    }
    buf
}

/// What a header message decodes to: the domain as text and the port;
/// nothing when the six fixed bytes or the declared domain bytes are
/// missing.
pub open spec fn spec_parse_tunnel_header(b: Seq<u8>) -> Option<(Seq<char>, u16)> {
    if b.len() < 6 {
        None
    } else {
        let port = spec_u16_be(b[0], b[1]);
        let len = spec_u16_be(b[4], b[5]) as int;
        if 6 + len > b.len() {
            None
        } else {
            Some((lossy_chars_of(b.subrange(6, 6 + len)), port))
        }
    }
}

/// Decodes the session's header message into the destination domain and
/// port.
pub fn decode_request_header(request_header: &[u8]) -> (r: Result<(String, u16), ParseError>)
    ensures
        match r {
            Ok(dp) => spec_parse_tunnel_header(request_header@) == Some((dp.0@, dp.1)),
            Err(e) => {
                &&& spec_parse_tunnel_header(request_header@) is None
                &&& e == ParseError::Truncated
            },
        },
{
    let n = request_header.len();
    if n < 6 {
        return Err(ParseError::Truncated);
    }
    let port = get_u16_be(request_header, 0);
    let len = get_u16_be(request_header, 4) as usize;
    if len > n - 6 {
        return Err(ParseError::Truncated);
    }
    let domain_bytes = copy_range(request_header, 6, 6 + len);
    let domain = lossy_string(domain_bytes.as_slice());
    Ok((domain, port))
}

} // verus!
