use vstd::prelude::*;
use crate::header::{spec_header_bytes, spec_request_header, Header};
use crate::question::{spec_question_bytes, Question, QuestionModel};

verus! {

/// A lookup request: the fixed request header and a single question.
pub struct RequestMessage {
    header: Header,
    question: Question,
}

/// The wire bytes of a fresh request for `domain`: the request header, then
/// a question for the domain with type and class 1.
pub open spec fn spec_request_bytes(domain: Seq<char>) -> Seq<u8> {
    spec_header_bytes(spec_request_header()) + spec_question_bytes(
        QuestionModel { domain, qtype: 1, qclass: 1 },
    )
}

impl View for RequestMessage {
    type V = Seq<char>;

    closed spec fn view(&self) -> Seq<char> {
        self.question@.domain
    }
}

impl RequestMessage {
    /// Whether the message still carries what `new` put into it.
    pub closed spec fn wf(&self) -> bool {
        &&& self.header@ == spec_request_header()
        &&& self.question@.qtype == 1
        &&& self.question@.qclass == 1
    }

    pub fn new(domain: &str) -> (m: Self)
        ensures
            m.wf(),
            m@ == domain@,
    {
        Self { header: Header::new(), question: Question::new(domain) }
    }

    pub fn to_bytes(&self, bytes: &mut Vec<u8>)
        requires
            self.wf(),
        ensures
            final(bytes)@ == old(bytes)@ + spec_request_bytes(self@),
    {
        self.header.to_bytes(bytes);
        self.question.to_bytes(bytes);
        proof {
            assert(bytes@ =~= old(bytes)@ + spec_request_bytes(self@));
        }
    }
}

} // verus!
