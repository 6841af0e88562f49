use vstd::prelude::*;
use crate::utils::{
    check_wf_qname, copy_range, find_zero, first_zero, lemma_first_zero, lossy_chars_of,
    qname_to_domain, spec_qname_domain, wf_qname,
};
use crate::wire::{get_u16_be, get_u32_be, spec_u16_be, spec_u32_be, ParseError};

verus! {

/// An answer record: a domain name with type, class, time to live, and its
/// data bytes. Only the first four data bytes are read as an address.
pub struct ResourceRecord {
    pub domain: String,
    pub rtype: u16,
    pub rclass: u16,
    pub ttl: u32,
    pub rdlength: u16,
    pub rdata: Vec<u8>,
}

/// The fields of a resource record as mathematical values.
pub struct RecordModel {
    pub domain: Seq<char>,
    pub rtype: u16,
    pub rclass: u16,
    pub ttl: u32,
    pub rdlength: u16,
    pub rdata: Seq<u8>,
}

impl View for ResourceRecord {
    type V = RecordModel;

    open spec fn view(&self) -> RecordModel {
        RecordModel {
            domain: self.domain@,
            rtype: self.rtype,
            rclass: self.rclass,
            ttl: self.ttl,
            rdlength: self.rdlength,
            rdata: self.rdata@,
        }
    }
}

/// The bytes of a name read from `i`: up through the first zero byte, or to
/// the end of the buffer when there is none or `i` lies past it.
pub open spec fn spec_name_bytes(b: Seq<u8>, i: int) -> Seq<u8> {
    if i < 0 || i > b.len() {
        seq![]
    } else {
        let z = first_zero(b, i);
        if z < b.len() {
            b.subrange(i, z + 1)
        } else {
            b.subrange(i, b.len() as int)
        }
    }
}

/// Where a record's name bytes stand and where reading resumes. A first byte
/// with both top bits set is a compression pointer: its low six bits shifted
/// left by eight, combined with the whole second byte, give the offset of the
/// name, and reading resumes right after the two pointer bytes. Any other
/// first byte starts the name in place.
pub open spec fn spec_record_name(b: Seq<u8>, pos: int) -> (Seq<u8>, int) {
    if b[pos] >= 192 {
        (spec_name_bytes(b, (b[pos] - 192) * 256 + b[pos + 1]), pos + 2)
    } else {
        let z = first_zero(b, pos);
        (spec_name_bytes(b, pos), if z < b.len() { z + 1 } else { b.len() as int })
    }
}

/// The resource record read at `pos`: the (possibly compressed) name, then
/// type, class, time to live, data length, and that many data bytes; nothing
/// when any of those reads would pass the end of the buffer or a name label
/// overruns it.
pub open spec fn spec_parse_record(b: Seq<u8>, pos: int) -> Option<(RecordModel, int)> {
    if pos < 0 || pos + 2 > b.len() {
        None
    } else {
        let name = spec_record_name(b, pos).0;
        let after = spec_record_name(b, pos).1;
        if !wf_qname(name) {
            None
        } else if after + 10 > b.len() {
            None
        } else {
            let rdlength = spec_u16_be(b[after + 8], b[after + 9]);
            if after + 10 + rdlength > b.len() {
                None
            } else {
                Some(
                    (
                        RecordModel {
                            domain: lossy_chars_of(spec_qname_domain(name)),
                            rtype: spec_u16_be(b[after], b[after + 1]),
                            rclass: spec_u16_be(b[after + 2], b[after + 3]),
                            ttl: spec_u32_be(
                                b[after + 4],
                                b[after + 5],
                                b[after + 6],
                                b[after + 7],
                            ),
                            rdlength,
                            rdata: b.subrange(after + 10, after + 10 + rdlength),
                        },
                        after + 10 + rdlength,
                    ),
                )
            }
        }
    }
}

/// Copies the name bytes found at `i`.
fn read_name(b: &[u8], i: usize) -> (v: Vec<u8>)
    ensures
        v@ == spec_name_bytes(b@, i as int),
{
    let n = b.len();
    if i > n {
        let v: Vec<u8> = Vec::new();
        return v;
    }
    let z = find_zero(b, i);
    proof {
        lemma_first_zero(b@, i as int);
    }
    if z < n {
        copy_range(b, i, z + 1)
    } else {
        copy_range(b, i, n)
    }
}

impl ResourceRecord {
    /// Reads a resource record from `bytes`, advancing `pos` past it.
    pub fn parse_from_reader(bytes: &[u8], pos: &mut usize) -> (r: Result<Self, ParseError>)
        ensures
            match r {
                Ok(rec) => spec_parse_record(bytes@, *old(pos) as int) == Some(
                    (rec@, *final(pos) as int),
                ),
                Err(e) => {
                    &&& spec_parse_record(bytes@, *old(pos) as int) is None
                    &&& e == ParseError::Truncated
                    &&& *final(pos) == *old(pos)
                },
            },
    {
        let n = bytes.len();
        if n < 2 || *pos > n - 2 {
            return Err(ParseError::Truncated);
        }
        let b0 = bytes[*pos];
        let name: Vec<u8>;
        let after: usize;
        if b0 >= 192 {
            let off = ((b0 - 192) as usize) * 256 + (bytes[*pos + 1] as usize);
            name = read_name(bytes, off);
            after = *pos + 2;
        } else {
            let z = find_zero(bytes, *pos);
            proof {
                lemma_first_zero(bytes@, *pos as int);
            }
            name = read_name(bytes, *pos);
            after = if z < n {
                z + 1
            } else {
                n
            };
        }
        if !check_wf_qname(name.as_slice()) {
            return Err(ParseError::Truncated);
        }
        if n - after < 10 {
            return Err(ParseError::Truncated);
        }
        let rtype = get_u16_be(bytes, after);
        let rclass = get_u16_be(bytes, after + 2);
        let ttl = get_u32_be(bytes, after + 4);
        let rdlength = get_u16_be(bytes, after + 8);
        if (rdlength as usize) > n - (after + 10) {
            return Err(ParseError::Truncated);
        }
        let rdata = copy_range(bytes, after + 10, after + 10 + rdlength as usize);
        let domain = qname_to_domain(name.as_slice());
        *pos = after + 10 + rdlength as usize;
        Ok(Self { domain, rtype, rclass, ttl, rdlength, rdata })
    }
}

} // verus!
