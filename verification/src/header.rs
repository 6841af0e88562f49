use vstd::prelude::*;
use crate::wire::{ParseError, get_u16_be, push_u16_be, spec_u16_be, spec_u16_bytes};

verus! {

/// The fixed 12-byte message header: an identifier, a flag word, and the four
/// section counts.
pub struct Header {
    id: u16,
    unparsed: u16,
    qdcount: u16,
    ancount: u16,
    nscount: u16,
    arcount: u16,
}

/// The fields of a header as plain values.
pub struct HeaderModel {
    pub id: u16,
    pub unparsed: u16,
    pub qdcount: u16,
    pub ancount: u16,
    pub nscount: u16,
    pub arcount: u16,
}

impl View for Header {
    type V = HeaderModel;

    closed spec fn view(&self) -> HeaderModel {
        HeaderModel {
            id: self.id,
            unparsed: self.unparsed,
            qdcount: self.qdcount,
            ancount: self.ancount,
            nscount: self.nscount,
            arcount: self.arcount,
        }
    }
}

/// The header every fresh request carries: a fixed sentinel identifier, the
/// recursion-desired flag, and exactly one question.
pub open spec fn spec_request_header() -> HeaderModel {
    HeaderModel {
        id: (209 * 256 + 183) as u16,
        unparsed: 256,
        qdcount: 1,
        ancount: 0,
        nscount: 0,
        arcount: 0,
    }
}

/// The 12 bytes of a header on the wire: six big-endian 16-bit fields.
pub open spec fn spec_header_bytes(h: HeaderModel) -> Seq<u8> {
    spec_u16_bytes(h.id) + spec_u16_bytes(h.unparsed) + spec_u16_bytes(h.qdcount)
        + spec_u16_bytes(h.ancount) + spec_u16_bytes(h.nscount) + spec_u16_bytes(h.arcount)
}

/// The header read from 12 bytes starting at `pos`, and the position after it;
/// nothing when the buffer is too short.
pub open spec fn spec_parse_header(b: Seq<u8>, pos: int) -> Option<(HeaderModel, int)> {
    if 0 <= pos && pos + 12 <= b.len() {
        Some(
            (
                HeaderModel {
                    id: spec_u16_be(b[pos], b[pos + 1]),
                    unparsed: spec_u16_be(b[pos + 2], b[pos + 3]),
                    qdcount: spec_u16_be(b[pos + 4], b[pos + 5]),
                    ancount: spec_u16_be(b[pos + 6], b[pos + 7]),
                    nscount: spec_u16_be(b[pos + 8], b[pos + 9]),
                    arcount: spec_u16_be(b[pos + 10], b[pos + 11]),
                },
                pos + 12,
            ),
        )
    } else {
        None
    }
}

impl Header {
    pub fn new() -> (h: Self)
        ensures
            h@ == spec_request_header(),
    {
        Self { id: 209 * 256 + 183, unparsed: 256, qdcount: 1, ancount: 0, nscount: 0, arcount: 0 }
    }

    pub fn to_bytes(&self, bytes: &mut Vec<u8>)
        ensures
            final(bytes)@ == old(bytes)@ + spec_header_bytes(self@),
    {
        push_u16_be(bytes, self.id);
        push_u16_be(bytes, self.unparsed);
        push_u16_be(bytes, self.qdcount);
        push_u16_be(bytes, self.ancount);
        push_u16_be(bytes, self.nscount);
        push_u16_be(bytes, self.arcount);
        proof {
            assert(bytes@ =~= old(bytes)@ + spec_header_bytes(self@));
        }
    }

    /// Reads the six header fields from `bytes`, advancing `pos` past them.
    pub fn parse_from_reader(bytes: &[u8], pos: &mut usize) -> (r: Result<Self, ParseError>)
        ensures
            match r {
                Ok(h) => spec_parse_header(bytes@, *old(pos) as int) == Some(
                    (h@, *final(pos) as int),
                ),
                Err(e) => {
                    &&& spec_parse_header(bytes@, *old(pos) as int) is None
                    &&& e == ParseError::Truncated
                    &&& *final(pos) == *old(pos)
                },
            },
    {
        if bytes.len() < 12 || *pos > bytes.len() - 12 {
            return Err(ParseError::Truncated);
        }
        let id = get_u16_be(bytes, *pos);
        let unparsed = get_u16_be(bytes, *pos + 2);
        let qdcount = get_u16_be(bytes, *pos + 4);
        let ancount = get_u16_be(bytes, *pos + 6);
        let nscount = get_u16_be(bytes, *pos + 8);
        let arcount = get_u16_be(bytes, *pos + 10);
        *pos = *pos + 12;
        Ok(Self { id, unparsed, qdcount, ancount, nscount, arcount })
    }

    pub fn qd_count(&self) -> (c: u16)
        ensures
            c == self@.qdcount,
    {
        self.qdcount
    }

    pub fn answer_count(&self) -> (c: u16)
        ensures
            c == self@.ancount,
    {
        self.ancount
    }
}

} // verus!
