use vstd::prelude::*;

verus! {

/// The record types a lookup can ask for.
#[derive(Clone, Copy, Debug, Hash, PartialEq, Eq, Structural)]
pub enum QType {
    A,
}

/// A lookup key: the queried name and record type. Requests with equal keys
/// are coalesced while one of them is in flight.
#[derive(Debug, Hash)]
pub struct NameQuery {
    pub name: String,
    pub q_type: QType,
}

/// The key as mathematical values.
pub struct QueryKey {
    pub name: Seq<char>,
    pub q_type: QType,
}

impl View for NameQuery {
    type V = QueryKey;

    open spec fn view(&self) -> QueryKey {
        QueryKey { name: self.name@, q_type: self.q_type }
    }
}

impl PartialEq for NameQuery {
    fn eq(&self, other: &Self) -> (r: bool) {
        self.name == other.name && self.q_type == other.q_type
    }
}

impl vstd::std_specs::cmp::PartialEqSpecImpl for NameQuery {
    open spec fn obeys_eq_spec() -> bool {
        true
    }

    open spec fn eq_spec(&self, other: &Self) -> bool {
        self@ == other@
    }
}

impl NameQuery {
    /// An address-record query for `name_str`.
    pub fn a_record(name_str: &str) -> (q: Self)
        ensures
            q@ == (QueryKey { name: name_str@, q_type: QType::A }),
    {
        Self { name: name_str.to_owned(), q_type: QType::A }
    }

    /// An equal key, for storing alongside the original.
    pub fn duplicate(&self) -> (r: Self)
        ensures
            r@ == self@,
    {
        Self { name: self.name.clone(), q_type: self.q_type }
    }
}

} // verus!
