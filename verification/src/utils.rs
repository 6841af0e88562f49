use vstd::prelude::*;
use vstd::string::StringSliceAdditionalSpecFns;

verus! {

// ---------------------------------------------------------------------------
// ASCII and lossy decoding
// ---------------------------------------------------------------------------

/// Every byte fits in seven bits.
pub open spec fn is_ascii_bytes(b: Seq<u8>) -> bool {
    forall|i: int| 0 <= i < b.len() ==> b[i] < 128
}

/// ASCII bytes read as the characters with the same code points.
pub open spec fn ascii_chars_of(b: Seq<u8>) -> Seq<char> {
    b.map(|i: int, x: u8| x as char)
}

/// What `String::from_utf8_lossy` returns for a byte sequence.
pub uninterp spec fn lossy_chars_of(bytes: Seq<u8>) -> Seq<char>;

/// Relies on String::from_utf8_lossy: the characters depend on the bytes
/// alone, and ASCII bytes (always valid UTF-8) decode to the characters with
/// the same code points.
#[verifier::external_body]
pub(crate) fn lossy_string(bytes: &[u8]) -> (r: String)
    ensures
        r@ == lossy_chars_of(bytes@),
        is_ascii_bytes(bytes@) ==> r@ == ascii_chars_of(bytes@),
{
    String::from_utf8_lossy(bytes).to_string()
}

// ---------------------------------------------------------------------------
// Domain bytes -> label run ("qname")
// ---------------------------------------------------------------------------

/// The length of the label starting at `i`: the number of bytes before the
/// next dot or the end of the domain.
pub open spec fn label_len(d: Seq<u8>, i: int) -> nat
    decreases d.len() - i,
{
    if i < 0 || i >= d.len() {
        0
    } else if d[i] == 46 {
        0
    } else {
        1 + label_len(d, i + 1)
    }
}

pub proof fn lemma_label_len(d: Seq<u8>, i: int)
    requires
        0 <= i <= d.len(),
    ensures
        i + label_len(d, i) <= d.len(),
        forall|j: int| i <= j < i + label_len(d, i) ==> d[j] != 46,
        i + label_len(d, i) < d.len() ==> d[i + label_len(d, i)] == 46,
    decreases d.len() - i,
{
    if i < d.len() && d[i] != 46 {
        lemma_label_len(d, i + 1);
    }
}

/// The length-prefixed encoding of the labels of `d` from position `i` on,
/// ending with a zero byte. An oversized label length is truncated to a byte,
/// as the encoder truncates it.
pub open spec fn spec_qname_from(d: Seq<u8>, i: int) -> Seq<u8>
    decreases d.len() - i,
{
    if i < 0 || i > d.len() {
        seq![]
    } else {
        let n = label_len(d, i) as int;
        if i + n >= d.len() {
            seq![(n % 256) as u8] + d.subrange(i, d.len() as int) + seq![0u8]
        } else {
            seq![(n % 256) as u8] + d.subrange(i, i + n) + spec_qname_from(d, i + n + 1)
        }
    }
}

/// The wire encoding of a whole domain: its labels from the start.
pub open spec fn spec_domain_to_qname(d: Seq<u8>) -> Seq<u8> {
    spec_qname_from(d, 0)
}

/// Encodes a domain as a length-prefixed label run: each dot-separated label
/// becomes its length in one byte followed by its bytes, and a zero byte ends
/// the run.
pub fn domain_to_qname(domain: &str) -> (q: Vec<u8>)
    ensures
        q@ == spec_domain_to_qname(domain.spec_bytes()),
{
    let bytes: &[u8] = domain.as_bytes();
    let n = bytes.len();
    let ghost d = bytes@;
    let mut q: Vec<u8> = Vec::new();
    let mut start: usize = 0;
    loop
        invariant_except_break
            bytes@ == d,
            n == d.len(),
            start <= n,
            spec_domain_to_qname(d) == q@ + spec_qname_from(d, start as int),
        ensures
            q@ == spec_domain_to_qname(d),
        decreases n - start,
    {
        // scan to the end of the current label
        let mut j = start;
        while j < n && bytes[j] != 46
            invariant
                bytes@ == d,
                n == d.len(),
                start <= j <= n,
                label_len(d, start as int) == j - start + label_len(d, j as int),
            decreases n - j,
        {
            assert(label_len(d, j as int) == 1 + label_len(d, j as int + 1));
            j = j + 1;
        }
        assert(label_len(d, j as int) == 0);
        assert(label_len(d, start as int) == j - start);
        let ll: usize = (j - start) % 256;
        let ghost q0 = q@;
        q.push(ll as u8);
        // copy the label bytes
        let mut k = start;
        while k < j
            invariant
                bytes@ == d,
                n == d.len(),
                start <= k <= j <= n,
                q@ == q0 + seq![(((j - start) as int % 256) as u8)] + d.subrange(
                    start as int,
                    k as int,
                ),
            decreases j - k,
        {
            q.push(bytes[k]);
            assert(q@ =~= q0 + seq![(((j - start) as int % 256) as u8)] + d.subrange(
                start as int,
                k as int + 1,
            ));
            k = k + 1;
        }
        if j == n {
            q.push(0);
            proof {
                assert(spec_qname_from(d, start as int) =~= seq![
                    (((j - start) as int % 256) as u8),
                ] + d.subrange(start as int, n as int) + seq![0u8]);
                assert(q@ =~= spec_domain_to_qname(d));
            }
            break ;
        } else {
            proof {
                assert(spec_qname_from(d, start as int) =~= seq![
                    (((j - start) as int % 256) as u8),
                ] + d.subrange(start as int, j as int) + spec_qname_from(d, j as int + 1));
                assert(q@ + spec_qname_from(d, j as int + 1) =~= q0 + spec_qname_from(
                    d,
                    start as int,
                ));
            }
            start = j + 1;
        }
    }
    q
}

// ---------------------------------------------------------------------------
// Label run -> domain bytes
// ---------------------------------------------------------------------------

/// A well-formed label run from position `i`: every length byte keeps the
/// label inside the buffer, up to a zero byte or the end of the buffer.
pub open spec fn wf_qname_from(q: Seq<u8>, i: int) -> bool
    decreases q.len() - i,
{
    if i < 0 || i >= q.len() {
        true
    } else if q[i] == 0 {
        true
    } else if i + 1 + q[i] > q.len() {
        false
    } else {
        wf_qname_from(q, i + 1 + q[i] as int)
    }
}

/// A well-formed label run from the start.
pub open spec fn wf_qname(q: Seq<u8>) -> bool {
    wf_qname_from(q, 0)
}

/// The domain bytes read from a label run starting at `i`: the labels joined
/// by dots, up to a zero length byte or the end of the buffer.
pub open spec fn spec_qname_domain_from(q: Seq<u8>, i: int) -> Seq<u8>
    decreases q.len() - i,
{
    if i < 0 || i >= q.len() {
        seq![]
    } else if q[i] == 0 {
        seq![]
    } else if i + 1 + q[i] > q.len() {
        seq![]
    } else {
        let nxt = i + 1 + q[i] as int;
        let label = q.subrange(i + 1, nxt);
        if nxt >= q.len() || q[nxt] == 0 {
            label
        } else {
            label + seq![46u8] + spec_qname_domain_from(q, nxt)
        }
    }
}

/// The domain bytes read from a whole label run.
pub open spec fn spec_qname_domain(q: Seq<u8>) -> Seq<u8> {
    spec_qname_domain_from(q, 0)
}

/// Decodes a length-prefixed label run into a readable domain: the labels are
/// joined with dots and the bytes are read as UTF-8 with lossy substitution.
pub fn qname_to_domain(qname: &[u8]) -> (r: String)
    requires
        wf_qname(qname@),
    ensures
        r@ == lossy_chars_of(spec_qname_domain(qname@)),
        is_ascii_bytes(spec_qname_domain(qname@)) ==> r@ == ascii_chars_of(
            spec_qname_domain(qname@),
        ),
{
    let n = qname.len();
    let ghost qv = qname@;
    let mut joined: Vec<u8> = Vec::new();
    let mut i: usize = 0;
    loop
        invariant
            qname@ == qv,
            n == qv.len(),
            i <= n,
            wf_qname_from(qv, i as int),
            spec_qname_domain(qv) == joined@ + spec_qname_domain_from(qv, i as int),
        ensures
            joined@ == spec_qname_domain(qv),
        decreases n - i,
    {
        if i >= n {
            proof {
                assert(joined@ + spec_qname_domain_from(qv, i as int) =~= joined@);
            }
            break ;
        }
        let ll = qname[i] as usize;
        if ll == 0 {
            proof {
                assert(joined@ + spec_qname_domain_from(qv, i as int) =~= joined@);
            }
            break ;
        }
        assert(i + 1 + ll <= n);
        let nxt = i + 1 + ll;
        let ghost j0 = joined@;
        let mut k = i + 1;
        while k < nxt
            invariant
                qname@ == qv,
                n == qv.len(),
                i + 1 <= k <= nxt <= n,
                joined@ == j0 + qv.subrange(i as int + 1, k as int),
            decreases nxt - k,
        {
            joined.push(qname[k]);
            assert(joined@ =~= j0 + qv.subrange(i as int + 1, k as int + 1));
            k = k + 1;
        }
        if nxt < n && qname[nxt] != 0 {
            joined.push(46);
            proof {
                assert(joined@ =~= j0 + (qv.subrange(i as int + 1, nxt as int) + seq![46u8]));
                assert(joined@ + spec_qname_domain_from(qv, nxt as int) =~= j0
                    + spec_qname_domain_from(qv, i as int));
            }
            i = nxt;
        } else {
            proof {
                assert(spec_qname_domain_from(qv, i as int) == qv.subrange(
                    i as int + 1,
                    nxt as int,
                ));
                assert(joined@ + spec_qname_domain_from(qv, nxt as int) =~= j0
                    + spec_qname_domain_from(qv, i as int));
            }
            i = nxt;
        }
    }
    lossy_string(joined.as_slice())
}

// ---------------------------------------------------------------------------
// Buffer scanning helpers
// ---------------------------------------------------------------------------

/// The index of the first zero byte at or after `i`, or the length of the
/// buffer when there is none.
pub open spec fn first_zero(b: Seq<u8>, i: int) -> int
    decreases b.len() - i,
{
    if i < 0 || i >= b.len() {
        b.len() as int
    } else if b[i] == 0 {
        i
    } else {
        first_zero(b, i + 1)
    }
}

pub proof fn lemma_first_zero(b: Seq<u8>, i: int)
    requires
        0 <= i <= b.len(),
    ensures
        i <= first_zero(b, i) <= b.len(),
        first_zero(b, i) < b.len() ==> b[first_zero(b, i)] == 0,
        forall|j: int| i <= j < first_zero(b, i) ==> b[j] != 0,
    decreases b.len() - i,
{
    if i < b.len() && b[i] != 0 {
        lemma_first_zero(b, i + 1);
    }
}

/// Scans for the first zero byte at or after `pos`.
pub fn find_zero(b: &[u8], pos: usize) -> (z: usize)
    requires
        pos <= b@.len(),
    ensures
        z == first_zero(b@, pos as int),
{
    let n = b.len();
    let mut j = pos;
    while j < n && b[j] != 0
        invariant
            pos <= j <= n,
            n == b@.len(),
            first_zero(b@, pos as int) == first_zero(b@, j as int),
        decreases n - j,
    {
        j = j + 1;
    }
    j
}

/// Checks that a label run is well formed: no length byte sends a label past
/// the end of the buffer.
pub fn check_wf_qname(q: &[u8]) -> (ok: bool)
    ensures
        ok == wf_qname(q@),
{
    let n = q.len();
    let mut i: usize = 0;
    loop
        invariant
            i <= n,
            n == q@.len(),
            wf_qname(q@) == wf_qname_from(q@, i as int),
        decreases n - i,
    {
        if i >= n {
            return true;
        }
        let ll = q[i] as usize;
        if ll == 0 {
            return true;
        }
        if ll > n - i - 1 {
            return false;
        }
        i = i + 1 + ll;
    }
}

/// Copies the bytes of `b` between `from` and `to` into a fresh vector.
pub fn copy_range(b: &[u8], from: usize, to: usize) -> (v: Vec<u8>)
    requires
        from <= to <= b@.len(),
    ensures
        v@ == b@.subrange(from as int, to as int),
{
    let mut v: Vec<u8> = Vec::new();
    assert(v@ =~= b@.subrange(from as int, from as int));
    let mut k = from;
    while k < to
        invariant
            from <= k <= to <= b@.len(),
            v@ == b@.subrange(from as int, k as int),
        decreases to - k,
    {
        v.push(b[k]);
        assert(v@ =~= b@.subrange(from as int, k as int + 1));
        k = k + 1;
    }
    v
}

// ---------------------------------------------------------------------------
// Round trip
// ---------------------------------------------------------------------------

/// A well-formed domain from position `i`: dot-separated labels, each between
/// 1 and 63 bytes long.
pub open spec fn valid_domain_from(d: Seq<u8>, i: int) -> bool
    decreases d.len() - i,
{
    if i < 0 || i > d.len() {
        false
    } else {
        let n = label_len(d, i) as int;
        1 <= n <= 63 && (i + n >= d.len() || valid_domain_from(d, i + n + 1))
    }
}

/// A whole domain of dot-separated labels, each between 1 and 63 bytes long.
pub open spec fn valid_domain_bytes(d: Seq<u8>) -> bool {
    valid_domain_from(d, 0)
}

/// Reading a label run is insensitive to what stands before the position read
/// from: parsing `p + q` from `p.len() + i` reads exactly what parsing `q`
/// from `i` reads.
proof fn lemma_parse_shift(p: Seq<u8>, q: Seq<u8>, i: int)
    requires
        0 <= i,
    ensures
        wf_qname_from(p + q, p.len() + i) == wf_qname_from(q, i),
        spec_qname_domain_from(p + q, p.len() + i) == spec_qname_domain_from(q, i),
    decreases q.len() - i,
{
    let w = p + q;
    let pi = p.len() + i;
    if i >= q.len() {
        assert(pi >= w.len());
    } else {
        assert(w[pi] == q[i]);
        if q[i] == 0 {
        } else if i + 1 + q[i] > q.len() {
            assert(pi + 1 + w[pi] > w.len());
        } else {
            let nxt = i + 1 + q[i] as int;
            lemma_parse_shift(p, q, nxt);
            assert(w.subrange(pi + 1, p.len() + nxt) =~= q.subrange(i + 1, nxt));
            if nxt < q.len() {
                assert(w[p.len() + nxt] == q[nxt]);
            }
        }
    }
}

/// The encoding of a well-formed domain suffix is a well-formed label run
/// that reads back as exactly that suffix.
#[verifier::rlimit(100)]
proof fn lemma_round_trip_from(d: Seq<u8>, i: int)
    requires
        0 <= i <= d.len(),
        valid_domain_from(d, i),
    ensures
        wf_qname(spec_qname_from(d, i)),
        spec_qname_domain(spec_qname_from(d, i)) == d.subrange(i, d.len() as int),
    decreases d.len() - i,
{
    let n = label_len(d, i) as int;
    lemma_label_len(d, i);
    let q = spec_qname_from(d, i);
    if i + n >= d.len() {
        // final label: [n] ++ label ++ [0]
        assert(q == seq![(n % 256) as u8] + d.subrange(i, d.len() as int) + seq![0u8]);
        assert(q.len() == n + 2);
        assert(q[0] == n);
        assert(q[1 + n] == 0);
        assert(wf_qname_from(q, 1 + n));
        assert(wf_qname(q));
        assert(q.subrange(1, 1 + n) =~= d.subrange(i, d.len() as int));
        assert(spec_qname_domain(q) == d.subrange(i, d.len() as int));
    } else {
        assert(valid_domain_from(d, i));
        assert(valid_domain_from(d, i + n + 1));
        let n2 = label_len(d, i + n + 1) as int;
        assert(1 <= n2 <= 63);
        let rest = spec_qname_from(d, i + n + 1);
        lemma_round_trip_from(d, i + n + 1);
        assert(q == seq![(n % 256) as u8] + d.subrange(i, i + n) + rest);
        let head = seq![(n % 256) as u8] + d.subrange(i, i + n);
        assert(head.len() == 1 + n);
        assert(q == head + rest);
        // the run continues after this label with the next label's length byte
        assert(rest[0] == (n2 % 256) as u8 && rest.len() >= 2) by {
            if i + n + 1 + n2 >= d.len() {
                assert(rest == seq![(n2 % 256) as u8] + d.subrange(i + n + 1, d.len() as int)
                    + seq![0u8]);
            } else {
                assert(rest == seq![(n2 % 256) as u8] + d.subrange(i + n + 1, i + n + 1 + n2)
                    + spec_qname_from(d, i + n + 1 + n2 + 1));
                assert(d.subrange(i + n + 1, i + n + 1 + n2).len() == n2);
            }
        };
        assert(rest[0] != 0);
        assert(q[0] == n);
        assert(q.len() == 1 + n + rest.len());
        lemma_parse_shift(head, rest, 0);
        assert(wf_qname_from(q, 1 + n) == wf_qname(rest));
        assert(wf_qname(q));
        // reading it back
        assert(q[1 + n] == rest[0]);
        assert(q.subrange(1, 1 + n) =~= d.subrange(i, i + n));
        assert(spec_qname_domain_from(q, 1 + n) == spec_qname_domain(rest));
        assert(spec_qname_domain(q) == d.subrange(i, i + n) + seq![46u8]
            + d.subrange(i + n + 1, d.len() as int));
        assert(d[i + n] == 46);
        assert(d.subrange(i, i + n) + seq![46u8] + d.subrange(i + n + 1, d.len() as int)
            =~= d.subrange(i, d.len() as int));
    }
}

/// Encoding a well-formed domain as a label run and reading the labels back
/// yields the original domain, byte for byte.
pub proof fn lemma_qname_domain_round_trip(d: Seq<u8>)
    requires
        valid_domain_bytes(d),
    ensures
        wf_qname(spec_domain_to_qname(d)),
        spec_qname_domain(spec_domain_to_qname(d)) == d,
{
    lemma_round_trip_from(d, 0);
    assert(d.subrange(0, d.len() as int) =~= d);
}

/// For a domain of non-empty dot-separated ASCII labels, each at most 63
/// bytes, decoding the encoding returns exactly the original characters.
pub proof fn lemma_domain_round_trip_ascii(s: Seq<char>)
    requires
        vstd::utf8::is_ascii_chars(s),
        valid_domain_bytes(vstd::utf8::encode_utf8(s)),
    ensures
        is_ascii_bytes(spec_qname_domain(spec_domain_to_qname(vstd::utf8::encode_utf8(s)))),
        ascii_chars_of(spec_qname_domain(spec_domain_to_qname(vstd::utf8::encode_utf8(s)))) == s,
{
    let b = vstd::utf8::encode_utf8(s);
    vstd::utf8::is_ascii_chars_encode_utf8(s);
    lemma_qname_domain_round_trip(b);
    assert(is_ascii_bytes(b));
    assert(ascii_chars_of(b) =~= s) by {
        assert forall|i: int| 0 <= i < b.len() implies ascii_chars_of(b)[i] == s[i] by {
            assert(b[i] == s[i] as u8);
            assert((s[i] as u8) as char == s[i]);
        }
    }
}

} // verus!
