use vstd::prelude::*;
use crate::query_types::{NameQuery, QueryKey};

verus! {

/// One in-flight lookup: its key and the callers waiting on it, in arrival
/// order.
pub struct CacheEntry<W> {
    pub key: NameQuery,
    pub responders: Vec<W>,
}

/// An entry as mathematical values.
pub struct EntryModel<W> {
    pub key: QueryKey,
    pub responders: Seq<W>,
}

impl<W> View for CacheEntry<W> {
    type V = EntryModel<W>;

    open spec fn view(&self) -> EntryModel<W> {
        EntryModel { key: self.key@, responders: self.responders@ }
    }
}

/// The models of a run of entries, in order.
pub open spec fn entry_views<W>(s: Seq<CacheEntry<W>>) -> Seq<EntryModel<W>> {
    s.map(|i: int, e: CacheEntry<W>| e@)
}

/// The index of the entry for `k`, or -1 when there is none.
pub open spec fn find_key<W>(s: Seq<EntryModel<W>>, k: QueryKey) -> int
    decreases s.len(),
{
    if s.len() == 0 {
        -1
    } else if s[0].key == k {
        0
    } else {
        let r = find_key(s.drop_first(), k);
        if r == -1 {
            -1
        } else {
            r + 1
        }
    }
}

/// Whether some entry holds `k`.
pub open spec fn has_key<W>(s: Seq<EntryModel<W>>, k: QueryKey) -> bool {
    find_key(s, k) >= 0
}

pub proof fn lemma_find_key<W>(s: Seq<EntryModel<W>>, k: QueryKey)
    ensures
        -1 <= find_key(s, k) < s.len(),
        find_key(s, k) >= 0 ==> s[find_key(s, k)].key == k,
        forall|j: int| 0 <= j < find_key(s, k) ==> s[j].key != k,
        find_key(s, k) == -1 ==> forall|j: int| 0 <= j < s.len() ==> s[j].key != k,
    decreases s.len(),
{
    if s.len() > 0 && s[0].key != k {
        let t = s.drop_first();
        lemma_find_key(t, k);
        assert forall|j: int| 0 <= j < find_key(s, k) implies s[j].key != k by {
            if j > 0 {
                assert(s[j] == t[j - 1]);
            }
        }
        if find_key(s, k) == -1 {
            assert forall|j: int| 0 <= j < s.len() implies s[j].key != k by {
                if j > 0 {
                    assert(s[j] == t[j - 1]);
                }
            }
        }
    }
}

/// What one subscription does: an existing entry for the key gains the
/// waiter; otherwise a new entry with the single waiter is appended, and the
/// one resolution task for the key must launch (the boolean).
pub open spec fn spec_subscribe<W>(s: Seq<EntryModel<W>>, k: QueryKey, w: W) -> (
    Seq<EntryModel<W>>,
    bool,
) {
    let i = find_key(s, k);
    if i >= 0 {
        (s.update(i, EntryModel { key: k, responders: s[i].responders.push(w) }), false)
    } else {
        (s.push(EntryModel { key: k, responders: seq![w] }), true)
    }
}

/// What one completion does: the entry for the key leaves the cache and its
/// waiters are handed back; an unknown key changes nothing and hands back
/// nobody.
pub open spec fn spec_notify<W>(s: Seq<EntryModel<W>>, k: QueryKey) -> (Seq<EntryModel<W>>, Seq<W>) {
    let i = find_key(s, k);
    if i >= 0 {
        (s.remove(i), s[i].responders)
    } else {
        (s, seq![])
    }
}

/// The cache and the number of launched resolutions after a run of
/// subscriptions for one key, in order.
pub open spec fn spec_subscribe_all<W>(s: Seq<EntryModel<W>>, k: QueryKey, ws: Seq<W>) -> (
    Seq<EntryModel<W>>,
    int,
)
    decreases ws.len(),
{
    if ws.len() == 0 {
        (s, 0)
    } else {
        let first = spec_subscribe(s, k, ws[0]);
        let rest = spec_subscribe_all(first.0, k, ws.drop_first());
        (rest.0, rest.1 + if first.1 {
            1int
        } else {
            0int
        })
    }
}

proof fn lemma_find_key_same_keys<W>(s1: Seq<EntryModel<W>>, s2: Seq<EntryModel<W>>, k: QueryKey)
    requires
        s1.len() == s2.len(),
        forall|j: int| 0 <= j < s1.len() ==> s1[j].key == s2[j].key,
    ensures
        find_key(s1, k) == find_key(s2, k),
    decreases s1.len(),
{
    if s1.len() > 0 && s1[0].key != k {
        let t1 = s1.drop_first();
        let t2 = s2.drop_first();
        assert forall|j: int| 0 <= j < t1.len() implies t1[j].key == t2[j].key by {
            assert(t1[j] == s1[j + 1]);
            assert(t2[j] == s2[j + 1]);
        }
        lemma_find_key_same_keys(t1, t2, k);
    }
}

proof fn lemma_find_key_push<W>(s: Seq<EntryModel<W>>, e: EntryModel<W>, k: QueryKey)
    ensures
        find_key(s.push(e), k) == (if has_key(s, k) {
            find_key(s, k)
        } else if e.key == k {
            s.len() as int
        } else {
            -1
        }),
    decreases s.len(),
{
    let p = s.push(e);
    if s.len() == 0 {
        assert(p[0] == e);
        assert(p.drop_first() =~= Seq::<EntryModel<W>>::empty());
        assert(find_key(Seq::<EntryModel<W>>::empty(), k) == -1);
        assert(find_key(s, k) == -1);
    } else {
        assert(p[0] == s[0]);
        if s[0].key != k {
            let t = s.drop_first();
            assert(p.drop_first() =~= t.push(e));
            lemma_find_key_push(t, e, k);
            assert(find_key(p, k) == (if find_key(t.push(e), k) == -1 {
                -1
            } else {
                find_key(t.push(e), k) + 1
            }));
            assert(find_key(s, k) == (if find_key(t, k) == -1 {
                -1
            } else {
                find_key(t, k) + 1
            }));
        }
    }
}

/// While an entry for a key is pending, further subscriptions for it launch
/// nothing: they only extend that entry's waiter list, in order.
proof fn lemma_subscribe_pending<W>(s: Seq<EntryModel<W>>, k: QueryKey, ws: Seq<W>)
    requires
        has_key(s, k),
    ensures
        spec_subscribe_all(s, k, ws).1 == 0,
        ({
            let i = find_key(s, k);
            let out = spec_subscribe_all(s, k, ws).0;
            &&& out.len() == s.len()
            &&& find_key(out, k) == i
            &&& out[i].key == k
            &&& out[i].responders == s[i].responders + ws
            &&& forall|j: int| 0 <= j < s.len() && j != i ==> out[j] == s[j]
        }),
    decreases ws.len(),
{
    let i = find_key(s, k);
    lemma_find_key(s, k);
    if ws.len() == 0 {
        assert(s[i].responders + ws =~= s[i].responders);
    } else {
        let s1 = spec_subscribe(s, k, ws[0]).0;
        assert(s1 == s.update(i, EntryModel { key: k, responders: s[i].responders.push(ws[0]) }));
        assert forall|j: int| 0 <= j < s.len() implies s1[j].key == s[j].key by {}
        lemma_find_key_same_keys(s, s1, k);
        lemma_subscribe_pending(s1, k, ws.drop_first());
        let out = spec_subscribe_all(s, k, ws).0;
        assert(out[i].responders =~= s[i].responders + ws) by {
            assert(out[i].responders == s1[i].responders + ws.drop_first());
            assert(s1[i].responders == s[i].responders.push(ws[0]));
        }
        assert(out[i].responders == s[i].responders + ws);
    }
}

/// Coalescing: however many callers subscribe to one key that had no entry,
/// exactly one resolution launches; the completion then hands every caller
/// back exactly once, in subscription order, and leaves the cache exactly as
/// it stood before the first subscription.
pub proof fn lemma_coalescing<W>(s: Seq<EntryModel<W>>, k: QueryKey, ws: Seq<W>)
    requires
        !has_key(s, k),
        ws.len() > 0,
    ensures
        spec_subscribe_all(s, k, ws).1 == 1,
        spec_notify(spec_subscribe_all(s, k, ws).0, k).1 == ws,
        spec_notify(spec_subscribe_all(s, k, ws).0, k).0 == s,
{
    lemma_find_key(s, k);
    let e = EntryModel { key: k, responders: seq![ws[0]] };
    let s1 = spec_subscribe(s, k, ws[0]).0;
    assert(s1 == s.push(e));
    lemma_find_key_push(s, e, k);
    assert(find_key(s1, k) == s.len() as int);
    lemma_subscribe_pending(s1, k, ws.drop_first());
    let out = spec_subscribe_all(s, k, ws).0;
    let i = s.len() as int;
    assert(spec_subscribe_all(s, k, ws).1 == 1);
    assert(out[i].responders =~= ws) by {
        assert(out[i].responders == seq![ws[0]] + ws.drop_first());
    }
    assert(spec_notify(out, k).1 == ws);
    assert(out.remove(i) =~= s) by {
        assert forall|j: int| 0 <= j < s.len() implies out.remove(i)[j] == s[j] by {
            assert(out[j] == s1[j]);
            assert(s1[j] == s[j]);
        }
    }
}

/// No result is cached: once a completion has drained a key's entry, the
/// next subscription for that key launches a fresh resolution.
pub proof fn lemma_no_result_caching<W>(s: Seq<EntryModel<W>>, k: QueryKey, w: W)
    requires
        distinct_keys(s),
    ensures
        !has_key(spec_notify(s, k).0, k),
        spec_subscribe(spec_notify(s, k).0, k, w).1,
{
    lemma_find_key(s, k);
    let i = find_key(s, k);
    if i >= 0 {
        let t = s.remove(i);
        assert forall|j: int| 0 <= j < t.len() implies t[j].key != k by {
            if j < i {
                assert(t[j] == s[j]);
            } else {
                assert(t[j] == s[j + 1]);
                assert(s[i].key == k);
            }
        }
        lemma_find_key(t, k);
        if find_key(t, k) >= 0 {
            assert(t[find_key(t, k)].key == k);
            assert(false);
        }
    }
}

/// No key has two entries.
pub open spec fn distinct_keys<W>(s: Seq<EntryModel<W>>) -> bool {
    forall|i: int, j: int| 0 <= i < j < s.len() ==> s[i].key != s[j].key
}

/// The table of in-flight lookups: at most one entry for each key, holding
/// every caller that waits on that key.
pub struct ResultCache<W> {
    entries: Vec<CacheEntry<W>>,
}

impl<W> View for ResultCache<W> {
    type V = Seq<EntryModel<W>>;

    closed spec fn view(&self) -> Seq<EntryModel<W>> {
        entry_views(self.entries@)
    }
}

impl<W> ResultCache<W> {
    /// At most one entry for each key.
    pub open spec fn wf(&self) -> bool {
        distinct_keys(self@)
    }

    pub fn new() -> (c: Self)
        ensures
            c@ == Seq::<EntryModel<W>>::empty(),
            c.wf(),
    {
        let c = Self { entries: Vec::new() };
        proof {
            assert(c@ =~= Seq::<EntryModel<W>>::empty());
        }
        c
    }

    /// The index of the entry for `key`, or the number of entries when there
    /// is none.
    fn find(&self, key: &NameQuery) -> (i: usize)
        ensures
            i <= self@.len(),
            i < self@.len() ==> i == find_key(self@, key@),
            i == self@.len() ==> find_key(self@, key@) == -1,
    {
        let n = self.entries.len();
        let mut i: usize = 0;
        while i < n
            invariant
                n == self@.len(),
                i <= n,
                forall|j: int| 0 <= j < i ==> self@[j].key != key@,
            decreases n - i,
        {
            if self.entries[i].key == *key {
                proof {
                    lemma_find_key(self@, key@);
                    assert(self@[i as int].key == key@);
                }
                return i;
            }
            i = i + 1;
        }
        proof {
            lemma_find_key(self@, key@);
        }
        n
    }

    /// Registers `responder` as a waiter for `key`. Returns true exactly when
    /// the key had no entry: the caller must then launch the one resolution
    /// task for it.
    pub fn subscribe(&mut self, key: NameQuery, responder: W) -> (launch: bool)
        requires
            old(self).wf(),
        ensures
            final(self).wf(),
            final(self)@ == spec_subscribe(old(self)@, key@, responder).0,
            launch == spec_subscribe(old(self)@, key@, responder).1,
    {
        let n = self.entries.len();
        let i = self.find(&key);
        proof {
            lemma_find_key(self@, key@);
        }
        if i < n {
            let mut e = self.entries.remove(i);
            e.responders.push(responder);
            self.entries.insert(i, e);
            proof {
                let target = spec_subscribe(old(self)@, key@, responder).0;
                assert forall|j: int| 0 <= j < self@.len() implies self@[j] == target[j] by {
                    if j < i {
                    } else if j == i {
                    } else {
                    }
                }
                assert(self@ =~= target);
            }
            false
        } else {
            let mut responders: Vec<W> = Vec::new();
            responders.push(responder);
            self.entries.push(CacheEntry { key, responders });
            proof {
                let target = spec_subscribe(old(self)@, key@, responder).0;
                assert(self@ =~= target);
                assert(distinct_keys(final(self)@)) by {
                    assert(forall|j: int|
                        0 <= j < old(self)@.len() ==> old(self)@[j].key != key@);
                }
            }
            true
        }
    }

    /// Removes the entry for `key` and hands back its waiters in arrival
    /// order. Each waiter is handed back exactly once; an unknown key removes
    /// nothing and hands back nobody.
    pub fn notify(&mut self, key: &NameQuery) -> (waiters: Vec<W>)
        requires
            old(self).wf(),
        ensures
            final(self).wf(),
            final(self)@ == spec_notify(old(self)@, key@).0,
            waiters@ == spec_notify(old(self)@, key@).1,
    {
        let n = self.entries.len();
        let i = self.find(key);
        proof {
            lemma_find_key(self@, key@);
        }
        if i < n {
            let e = self.entries.remove(i);
            proof {
                assert(self@ =~= spec_notify(old(self)@, key@).0);
            }
            e.responders
        } else {
            let empty: Vec<W> = Vec::new();
            proof {
                assert(self@ =~= spec_notify(old(self)@, key@).0);
            }
            empty
        }
    }
}

} // verus!
