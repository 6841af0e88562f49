use vstd::prelude::*;
use vstd::string::StringSliceAdditionalSpecFns;
use crate::utils::{
    check_wf_qname, copy_range, domain_to_qname, find_zero, first_zero, lemma_first_zero,
    lossy_chars_of, qname_to_domain, spec_domain_to_qname, spec_qname_domain, wf_qname,
};
use crate::wire::{get_u16_be, push_u16_be, spec_u16_be, spec_u16_bytes, ParseError};

verus! {

/// A question section entry: a domain name with its query type and class.
pub struct Question {
    domain: String,
    qtype: u16,
    qclass: u16,
}

/// The fields of a question as mathematical values.
pub struct QuestionModel {
    pub domain: Seq<char>,
    pub qtype: u16,
    pub qclass: u16,
}

impl View for Question {
    type V = QuestionModel;

    closed spec fn view(&self) -> QuestionModel {
        QuestionModel { domain: self.domain@, qtype: self.qtype, qclass: self.qclass }
    }
}

/// The wire bytes of a question: the domain encoded as a label run, then the
/// big-endian type and class.
pub open spec fn spec_question_bytes(q: QuestionModel) -> Seq<u8> {
    spec_domain_to_qname(vstd::utf8::encode_utf8(q.domain)) + spec_u16_bytes(q.qtype)
        + spec_u16_bytes(q.qclass)
}

/// The question read at `pos`: a label run through its zero terminator, then
/// type and class; nothing when the terminator is missing, a label length
/// overruns the buffer, or the four trailing bytes are missing.
pub open spec fn spec_parse_question(b: Seq<u8>, pos: int) -> Option<(QuestionModel, int)> {
    let z = first_zero(b, pos);
    if pos < 0 || z >= b.len() {
        None
    } else {
        let qn = b.subrange(pos, z + 1);
        if !wf_qname(qn) {
            None
        } else if z + 5 > b.len() {
            None
        } else {
            Some(
                (
                    QuestionModel {
                        domain: lossy_chars_of(spec_qname_domain(qn)),
                        qtype: spec_u16_be(b[z + 1], b[z + 2]),
                        qclass: spec_u16_be(b[z + 3], b[z + 4]),
                    },
                    z + 5,
                ),
            )
        }
    }
}

impl Question {
    /// A fresh question for `domain`: an address record of the Internet class.
    pub fn new(domain: &str) -> (q: Self)
        ensures
            q@ == (QuestionModel { domain: domain@, qtype: 1, qclass: 1 }),
    {
        Self { domain: domain.to_owned(), qtype: 1, qclass: 1 }
    }

    pub fn to_bytes(&self, bytes: &mut Vec<u8>)
        ensures
            final(bytes)@ == old(bytes)@ + spec_question_bytes(self@),
    {
        let qname = domain_to_qname(self.domain.as_str());
        let mut k: usize = 0;
        while k < qname.len()
            invariant
                k <= qname@.len(),
                bytes@ == old(bytes)@ + qname@.subrange(0, k as int),
            decreases qname@.len() - k,
        {
            bytes.push(qname[k]);
            assert(bytes@ =~= old(bytes)@ + qname@.subrange(0, k as int + 1));
            k = k + 1;
        }
        assert(bytes@ =~= old(bytes)@ + qname@);
        push_u16_be(bytes, self.qtype);
        push_u16_be(bytes, self.qclass);
        proof {
            assert(bytes@ =~= old(bytes)@ + spec_question_bytes(self@));
        }
    }

    /// Reads a question from `bytes`, advancing `pos` past it.
    pub fn parse_from_reader(bytes: &[u8], pos: &mut usize) -> (r: Result<Self, ParseError>)
        requires
            *old(pos) <= bytes@.len(),
        ensures
            match r {
                Ok(q) => spec_parse_question(bytes@, *old(pos) as int) == Some(
                    (q@, *final(pos) as int),
                ),
                Err(e) => {
                    &&& spec_parse_question(bytes@, *old(pos) as int) is None
                    &&& e == ParseError::Truncated
                    &&& *final(pos) == *old(pos)
                },
            },
    {
        let n = bytes.len();
        let z = find_zero(bytes, *pos);
        proof {
            lemma_first_zero(bytes@, *pos as int);
        }
        if z >= n {
            return Err(ParseError::Truncated);
        }
        let qn = copy_range(bytes, *pos, z + 1);
        if !check_wf_qname(qn.as_slice()) {
            return Err(ParseError::Truncated);
        }
        if n - (z + 1) < 4 {
            return Err(ParseError::Truncated);
        }
        let qtype = get_u16_be(bytes, z + 1);
        let qclass = get_u16_be(bytes, z + 3);
        let domain = qname_to_domain(qn.as_slice());
        *pos = z + 5;
        Ok(Self { domain, qtype, qclass })
    }
}

} // verus!
