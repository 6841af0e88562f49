use vstd::prelude::*;
use crate::header::{spec_parse_header, Header, HeaderModel};
use crate::question::{spec_parse_question, Question, QuestionModel};
use crate::resource_record::{spec_parse_record, RecordModel, ResourceRecord};
use crate::wire::ParseError;

verus! {

/// A decoded response: the header, the echoed question when the header
/// declares exactly one, and the answer records in wire order.
pub struct ResponseMessage {
    header: Header,
    question: Option<Question>,
    answer_records: Vec<ResourceRecord>,
}

/// The content of a response as mathematical values.
pub struct ResponseModel {
    pub header: HeaderModel,
    pub question: Option<QuestionModel>,
    pub answers: Seq<RecordModel>,
}

/// The models of a sequence of records.
pub open spec fn record_views(s: Seq<ResourceRecord>) -> Seq<RecordModel> {
    s.map(|i: int, r: ResourceRecord| r@)
}

impl View for ResponseMessage {
    type V = ResponseModel;

    closed spec fn view(&self) -> ResponseModel {
        ResponseModel {
            header: self.header@,
            question: match self.question {
                Some(q) => Some(q@),
                None => None,
            },
            answers: record_views(self.answer_records@),
        }
    }
}

/// `n` records read consecutively from `pos`.
pub open spec fn spec_parse_records(b: Seq<u8>, pos: int, n: int) -> Option<
    (Seq<RecordModel>, int),
>
    decreases n,
{
    if n <= 0 {
        Some((seq![], pos))
    } else {
        match spec_parse_record(b, pos) {
            None => None,
            Some((m, p)) => match spec_parse_records(b, p, n - 1) {
                None => None,
                Some((s, q)) => Some((seq![m] + s, q)),
            },
        }
    }
}

/// The whole response read from the start of the buffer: the header, an
/// echoed question exactly when the header counts one, then as many answer
/// records as the header declares. Bytes after the last record are ignored.
pub open spec fn spec_parse_response(b: Seq<u8>) -> Option<ResponseModel> {
    match spec_parse_header(b, 0) {
        None => None,
        Some((h, p1)) => {
            let qp = if h.qdcount == 1 {
                match spec_parse_question(b, p1) {
                    None => None,
                    Some((q, p2)) => Some((Some(q), p2)),
                }
            } else {
                Some((None::<QuestionModel>, p1))
            };
            match qp {
                None => None,
                Some((q, p2)) => match spec_parse_records(b, p2, h.ancount as int) {
                    None => None,
                    Some((s, _)) => Some(ResponseModel { header: h, question: q, answers: s }),
                },
            }
        },
    }
}

impl ResponseMessage {
    /// Decodes a response buffer strictly left to right.
    pub fn parse_response(response: &[u8]) -> (r: Result<Self, ParseError>)
        ensures
            match r {
                Ok(m) => spec_parse_response(response@) == Some(m@),
                Err(e) => {
                    &&& spec_parse_response(response@) is None
                    &&& e == ParseError::Truncated
                },
            },
    {
        let ghost b = response@;
        let mut pos: usize = 0;
        let header = match Header::parse_from_reader(response, &mut pos) {
            Ok(h) => h,
            Err(e) => { return Err(e) },
        };
        let ghost p1 = pos as int;
        let question: Option<Question> = if header.qd_count() == 1 {
            match Question::parse_from_reader(response, &mut pos) {
                Ok(q) => Some(q),
                Err(e) => { return Err(e) },
            }
        } else {
            None
        };
        let ghost p2 = pos as int;
        let count = header.answer_count();
        let mut answer_records: Vec<ResourceRecord> = Vec::new();
        let mut k: u16 = 0;
        while k < count
            invariant
                b == response@,
                count == header@.ancount,
                k <= count,
                answer_records@.len() == k,
                pos <= b.len(),
                spec_parse_records(b, p2, count as int) is None ==> spec_parse_response(b) is None,
                spec_parse_records(b, p2, count as int) == (match spec_parse_records(
                    b,
                    pos as int,
                    count as int - k,
                ) {
                    None => None,
                    Some((s, q)) => Some((record_views(answer_records@) + s, q)),
                }),
            decreases count - k,
        {
            let ghost pos0 = pos as int;
            let ghost models0 = record_views(answer_records@);
            let record = match ResourceRecord::parse_from_reader(response, &mut pos) {
                Ok(rec) => rec,
                Err(e) => {
                    proof {
                        assert(spec_parse_records(b, pos0, count as int - k) is None);
                        assert(spec_parse_records(b, p2, count as int) is None);
                    }
                    return Err(e);
                },
            };
            proof {
                if let Some((m, p)) = spec_parse_record(b, pos0) {
                    assert(pos as int == p);
                    // record positions never pass the end of the buffer
                    assert(p <= b.len());
                }
            }
            answer_records.push(record);
            proof {
                assert(record_views(answer_records@) =~= models0.push(record@));
                if let Some((s, q)) = spec_parse_records(b, pos as int, count as int - k - 1) {
                    assert(spec_parse_records(b, pos0, count as int - k) == Some(
                        (seq![record@] + s, q),
                    ));
                    assert(models0 + (seq![record@] + s) =~= models0.push(record@) + s);
                } else {
                    assert(spec_parse_records(b, pos0, count as int - k) is None);
                }
            }
            k = k + 1;
        }
        let msg = Self { header, question, answer_records };
        proof {
            assert(spec_parse_records(b, pos as int, 0) == Some(
                (Seq::<RecordModel>::empty(), pos as int),
            ));
            assert(record_views(msg.answer_records@) + Seq::<RecordModel>::empty()
                =~= record_views(msg.answer_records@));
            assert(spec_parse_response(b) == Some(msg@));
        }
        Ok(msg)
    }

    /// The answer records, in wire order.
    pub fn answer_records(&self) -> (r: &Vec<ResourceRecord>)
        ensures
            record_views(r@) == self@.answers,
    {
        &self.answer_records
    }

    /// The first four data bytes of the first answer record, when that record
    /// exists and carries at least four.
    pub fn first_address(&self) -> (r: Option<[u8; 4]>)
        ensures
            match r {
                None => self@.answers.len() == 0 || self@.answers[0].rdata.len() < 4,
                Some(a) => {
                    &&& self@.answers.len() > 0
                    &&& self@.answers[0].rdata.len() >= 4
                    &&& a@ == self@.answers[0].rdata.take(4)
                },
            },
    {
        if self.answer_records.len() == 0 {
            return None;
        }
        let rec = &self.answer_records[0];
        if rec.rdata.len() < 4 {
            return None;
        }
        let a = [rec.rdata[0], rec.rdata[1], rec.rdata[2], rec.rdata[3]];
        proof {
            assert(a@ =~= self@.answers[0].rdata.take(4));
        }
        Some(a)
    }

    /// The first four data bytes of the last answer record, when that record
    /// exists and carries at least four.
    pub fn last_address(&self) -> (r: Option<[u8; 4]>)
        ensures
            match r {
                None => self@.answers.len() == 0 || self@.answers.last().rdata.len() < 4,
                Some(a) => {
                    &&& self@.answers.len() > 0
                    &&& self@.answers.last().rdata.len() >= 4
                    &&& a@ == self@.answers.last().rdata.take(4)
                },
            },
    {
        let n = self.answer_records.len();
        if n == 0 {
            return None;
        }
        let rec = &self.answer_records[n - 1];
        if rec.rdata.len() < 4 {
            return None;
        }
        let a = [rec.rdata[0], rec.rdata[1], rec.rdata[2], rec.rdata[3]];
        proof {
            assert(a@ =~= self@.answers.last().rdata.take(4));
        }
        Some(a)
    }

    /// The address bytes of every answer record in order: four bytes for each
    /// record with enough data, and nothing for the others.
    pub fn addresses(&self) -> (r: Vec<Option<[u8; 4]>>)
        ensures
            r@.len() == self@.answers.len(),
            forall|i: int|
                0 <= i < r@.len() ==> match #[trigger] r@[i] {
                    None => self@.answers[i].rdata.len() < 4,
                    Some(a) => self@.answers[i].rdata.len() >= 4 && a@ == self@.answers[i]
                        .rdata
                        .take(4),
                },
    {
        let n = self.answer_records.len();
        let mut r: Vec<Option<[u8; 4]>> = Vec::new();
        let mut i: usize = 0;
        while i < n
            invariant
                n == self.answer_records@.len(),
                i <= n,
                r@.len() == i,
                forall|j: int|
                    0 <= j < i ==> match #[trigger] r@[j] {
                        None => self@.answers[j].rdata.len() < 4,
                        Some(a) => self@.answers[j].rdata.len() >= 4 && a@ == self@.answers[j]
                            .rdata
                            .take(4),
                    },
            decreases n - i,
        {
            let rec = &self.answer_records[i];
            if rec.rdata.len() < 4 {
                r.push(None);
            } else {
                let a = [rec.rdata[0], rec.rdata[1], rec.rdata[2], rec.rdata[3]];
                proof {
                    assert(a@ =~= self@.answers[i as int].rdata.take(4));
                }
                r.push(Some(a));
            }
            i = i + 1;
        }
        r
    }
}

} // verus!
