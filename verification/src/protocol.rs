//! The wire protocol: one ASCII request line per request.
//!
//! A request line is `<task_type>:<seed>` followed by a newline. A line is
//! trimmed of surrounding whitespace and split on `:`; the field before the
//! first colon is the task-type code, the field after the last colon is the
//! seed. A line whose fields are missing or are not integers in their
//! numeric domains parses to nothing, and such a request is silently
//! dropped.
use crate::numeral::dec_repr;
use crate::numeral::dec_digits_of;
use crate::numeral::format_dec;
use crate::numeral::is_digit;
use crate::numeral::lemma_dec_repr;
use crate::numeral::parse_dec;
use crate::numeral::parse_dec_spec;
use vstd::prelude::*;

verus! {

/// A parsed request: a task-type code and a seed for the task engine.
#[derive(PartialEq, Eq, Structural, Clone, Copy, Debug)]
pub struct Request {
    pub task_type: u8,
    pub seed: u64,
}

/// ASCII whitespace, as trimmed from the ends of a request line.
pub open spec fn is_ws(b: u8) -> bool {
    b == 32 || 9 <= b <= 13
}

/// Number of whitespace bytes at the front of `s`.
pub open spec fn trim_lo(s: Seq<u8>) -> int
    decreases s.len(),
{
    if s.len() == 0 {
        0
    } else if is_ws(s.first()) {
        1 + trim_lo(s.drop_first())
    } else {
        0
    }
}

/// One past the last non-whitespace byte of `s` (0 when all whitespace).
pub open spec fn trim_hi(s: Seq<u8>) -> int
    decreases s.len(),
{
    if s.len() == 0 {
        0
    } else if is_ws(s.last()) {
        trim_hi(s.drop_last())
    } else {
        s.len() as int
    }
}

/// `s` with whitespace removed from both ends.
pub open spec fn trimmed(s: Seq<u8>) -> Seq<u8> {
    if trim_lo(s) <= trim_hi(s) {
        s.subrange(trim_lo(s), trim_hi(s))
    } else {
        Seq::empty()
    }
}

/// Index of the first colon in `s`, or `s.len()` when there is none.
pub open spec fn find_colon(s: Seq<u8>) -> int
    decreases s.len(),
{
    if s.len() == 0 {
        0
    } else if s.first() == 58 {
        0
    } else {
        1 + find_colon(s.drop_first())
    }
}

/// Index of the last colon in `s`, or -1 when there is none.
pub open spec fn rfind_colon(s: Seq<u8>) -> int
    decreases s.len(),
{
    if s.len() == 0 {
        -1
    } else if s.last() == 58 {
        s.len() - 1
    } else {
        rfind_colon(s.drop_last())
    }
}

/// The task-type field: what stands before the first colon (the whole
/// string when there is no colon).
pub open spec fn first_field(t: Seq<u8>) -> Seq<u8> {
    t.take(find_colon(t))
}

/// The seed field: what stands after the last colon (the whole string when
/// there is no colon).
pub open spec fn last_field(t: Seq<u8>) -> Seq<u8> {
    t.subrange(rfind_colon(t) + 1, t.len() as int)
}

/// What parsing one request line yields: the task-type code and the seed
/// when both fields are integers in their domains, nothing otherwise.
pub open spec fn parse_request_spec(line: Seq<u8>) -> Option<(u8, u64)> {
    let t = trimmed(line);
    match (parse_dec_spec(first_field(t), 255), parse_dec_spec(last_field(t), u64::MAX as nat)) {
        (Some(tt), Some(ss)) => Some((tt as u8, ss as u64)),
        _ => None,
    }
}

/// The canonical request line for a task type and a seed.
pub open spec fn request_line_spec(task_type: u64, seed: u64) -> Seq<u8> {
    dec_repr(task_type as nat).push(58) + dec_repr(seed as nat).push(10)
}

pub proof fn lemma_trim_lo(s: Seq<u8>)
    ensures
        0 <= trim_lo(s) <= s.len(),
        forall|i: int| 0 <= i < trim_lo(s) ==> is_ws(#[trigger] s[i]),
        trim_lo(s) < s.len() ==> !is_ws(s[trim_lo(s)]),
    decreases s.len(),
{
    if s.len() > 0 && is_ws(s.first()) {
        lemma_trim_lo(s.drop_first());
        assert forall|i: int| 0 <= i < trim_lo(s) implies is_ws(#[trigger] s[i]) by {
            if i > 0 {
                assert(s[i] == s.drop_first()[i - 1]);
            }
        }
        if trim_lo(s) < s.len() {
            assert(s[trim_lo(s)] == s.drop_first()[trim_lo(s.drop_first())]);
        }
    }
}

pub proof fn lemma_trim_hi(s: Seq<u8>)
    ensures
        0 <= trim_hi(s) <= s.len(),
        forall|i: int| trim_hi(s) <= i < s.len() ==> is_ws(#[trigger] s[i]),
        trim_hi(s) > 0 ==> !is_ws(s[trim_hi(s) - 1]),
    decreases s.len(),
{
    if s.len() > 0 && is_ws(s.last()) {
        lemma_trim_hi(s.drop_last());
        assert forall|i: int| trim_hi(s) <= i < s.len() implies is_ws(#[trigger] s[i]) by {
            if i < s.len() - 1 {
                assert(s[i] == s.drop_last()[i]);
            }
        }
        if trim_hi(s) > 0 {
            assert(s[trim_hi(s) - 1] == s.drop_last()[trim_hi(s.drop_last()) - 1]);
        }
    }
}

pub proof fn lemma_find_colon(s: Seq<u8>)
    ensures
        0 <= find_colon(s) <= s.len(),
        forall|i: int| 0 <= i < find_colon(s) ==> #[trigger] s[i] != 58,
        find_colon(s) < s.len() ==> s[find_colon(s)] == 58,
    decreases s.len(),
{
    if s.len() > 0 && s.first() != 58 {
        lemma_find_colon(s.drop_first());
        assert forall|i: int| 0 <= i < find_colon(s) implies #[trigger] s[i] != 58 by {
            if i > 0 {
                assert(s[i] == s.drop_first()[i - 1]);
            }
        }
        if find_colon(s) < s.len() {
            assert(s[find_colon(s)] == s.drop_first()[find_colon(s.drop_first())]);
        }
    }
}

pub proof fn lemma_rfind_colon(s: Seq<u8>)
    ensures
        -1 <= rfind_colon(s) < s.len(),
        forall|i: int| rfind_colon(s) < i < s.len() ==> #[trigger] s[i] != 58,
        rfind_colon(s) >= 0 ==> s[rfind_colon(s)] == 58,
    decreases s.len(),
{
    if s.len() > 0 && s.last() != 58 {
        lemma_rfind_colon(s.drop_last());
        assert forall|i: int| rfind_colon(s) < i < s.len() implies #[trigger] s[i] != 58 by {
            if i < s.len() - 1 {
                assert(s[i] == s.drop_last()[i]);
            }
        }
    }
}

/// Is `b` a whitespace byte?
fn ws_byte(b: u8) -> (r: bool)
    ensures
        r == is_ws(b),
{
    b == 32 || (9 <= b && b <= 13)
}

/// Compute the bounds of the trimmed portion of `s`.
#[verifier::loop_isolation(false)]
fn trim_bounds(s: &Vec<u8>) -> (r: (usize, usize))
    ensures
        r.0 <= r.1 <= s@.len(),
        s@.subrange(r.0 as int, r.1 as int) =~= trimmed(s@),
{
    proof {
        lemma_trim_lo(s@);
        lemma_trim_hi(s@);
    }
    let n = s.len();
    let mut lo: usize = 0;
    while lo < n && ws_byte(s[lo])
        invariant
            lo <= n,
            forall|i: int| 0 <= i < lo ==> is_ws(#[trigger] s@[i]),
        decreases n - lo,
    {
        lo = lo + 1;
    }
    assert(lo == trim_lo(s@)) by {
        if lo < trim_lo(s@) {
            assert(is_ws(s@[lo as int]));
        }
        if trim_lo(s@) < lo {
            assert(is_ws(s@[trim_lo(s@)]));
        }
    }
    let mut hi: usize = n;
    while hi > lo && ws_byte(s[hi - 1])
        invariant
            lo <= hi <= n,
            forall|i: int| hi <= i < n ==> is_ws(#[trigger] s@[i]),
        decreases hi,
    {
        hi = hi - 1;
    }
    if hi == lo {
        proof {
            if trim_hi(s@) > 0 {
                assert(is_ws(s@[trim_hi(s@) - 1]));
            }
            if trim_lo(s@) < s@.len() {
                assert(is_ws(s@[trim_lo(s@)]));
            }
            assert(s@.subrange(lo as int, hi as int) =~= trimmed(s@));
        }
    } else {
        assert(hi == trim_hi(s@)) by {
            if hi < trim_hi(s@) {
                assert(is_ws(s@[trim_hi(s@) - 1]));
            }
            if trim_hi(s@) < hi {
                assert(is_ws(s@[hi - 1]));
            }
        }
    }
    (lo, hi)
}

/// Parse one request line. Yields the request when both fields are valid,
/// and nothing — the silent-drop policy — otherwise.
#[verifier::loop_isolation(false)]
pub fn parse_request(line: &Vec<u8>) -> (r: Option<Request>)
    ensures
        (match r {
            Some(req) => parse_request_spec(line@) == Some((req.task_type, req.seed)),
            None => parse_request_spec(line@) is None,
        }),
{
    let (lo, hi) = trim_bounds(line);
    let ghost t = trimmed(line@);
    proof {
        lemma_find_colon(t);
        lemma_rfind_colon(t);
    }
    let mut fc: usize = lo;
    while fc < hi && line[fc] != 58
        invariant
            lo <= fc <= hi,
            forall|i: int| lo <= i < fc ==> #[trigger] line@[i] != 58,
        decreases hi - fc,
    {
        fc = fc + 1;
    }
    assert(fc - lo == find_colon(t)) by {
        if fc - lo < find_colon(t) {
            assert(t[fc - lo] == line@[fc as int]);
        }
        if find_colon(t) < fc - lo {
            assert(t[find_colon(t)] == line@[lo + find_colon(t)]);
        }
    }
    let mut sf: usize = hi;
    while sf > lo && line[sf - 1] != 58
        invariant
            lo <= sf <= hi,
            forall|i: int| sf <= i < hi ==> #[trigger] line@[i] != 58,
        decreases sf,
    {
        sf = sf - 1;
    }
    assert(sf - lo == rfind_colon(t) + 1) by {
        if sf - lo < rfind_colon(t) + 1 {
            assert(t[rfind_colon(t)] == line@[lo + rfind_colon(t)]);
        }
        if rfind_colon(t) + 1 < sf - lo {
            assert(t[sf - 1 - lo] == line@[sf - 1]);
        }
    }
    proof {
        assert(first_field(t) =~= line@.subrange(lo as int, fc as int));
        assert(last_field(t) =~= line@.subrange(sf as int, hi as int));
    }
    let tt = parse_dec(line, lo, fc, 255);
    let ss = parse_dec(line, sf, hi, u64::MAX);
    match (tt, ss) {
        (Some(a), Some(b)) => Some(Request { task_type: a as u8, seed: b }),
        _ => None,
    }
}

/// Build the canonical request line for a task type and a seed.
pub fn format_request(task_type: u64, seed: u64) -> (r: Vec<u8>)
    ensures
        r@ == request_line_spec(task_type, seed),
{
    let mut out = format_dec(task_type);
    out.push(58);
    let mut tail = format_dec(seed);
    out.append(&mut tail);
    out.push(10);
    proof {
        assert(out@ =~= request_line_spec(task_type, seed));
    }
    out
}

/// A canonical request line parses back to exactly the pair it was built
/// from, whenever the task-type code fits the protocol's one-byte domain.
pub proof fn lemma_request_line_parses(task_type: u64, seed: u64)
    requires
        task_type <= 255,
    ensures
        parse_request_spec(request_line_spec(task_type, seed)) == Some((task_type as u8, seed)),
{
    lemma_dec_repr(task_type as nat);
    lemma_dec_repr(seed as nat);
    let l = request_line_spec(task_type, seed);
    let dt = dec_repr(task_type as nat);
    let ds = dec_repr(seed as nat);
    let p = dt.len() as int;
    // Trimming removes exactly the final newline.
    assert(l.first() == dt[0]);
    assert(trim_lo(l) == 0);
    assert(l.last() == 10);
    assert(trim_hi(l) == trim_hi(l.drop_last()));
    assert(l.drop_last() =~= dt.push(58) + ds);
    assert(l.drop_last().last() == ds.last());
    assert(is_digit(ds.last()));
    assert(trim_hi(l.drop_last()) == l.len() - 1);
    let t = trimmed(l);
    assert(t =~= dt.push(58) + ds);
    // The one colon stands at index `p`: digits are never colons.
    assert(t[p] == 58);
    assert(forall|i: int| 0 <= i < p ==> #[trigger] t[i] == dt[i] && is_digit(dt[i]));
    assert(forall|i: int| p < i < t.len() ==> #[trigger] t[i] == ds[i - p - 1] && is_digit(
        ds[i - p - 1],
    ));
    lemma_find_colon(t);
    lemma_rfind_colon(t);
    assert(find_colon(t) == p) by {
        if find_colon(t) < p {
            assert(t[find_colon(t)] == 58);
        }
        if p < find_colon(t) {
            assert(t[p] != 58);
        }
    }
    assert(rfind_colon(t) == p) by {
        if rfind_colon(t) < p {
            assert(t[p] != 58);
        }
        if p < rfind_colon(t) {
            assert(t[rfind_colon(t)] == 58);
        }
    }
    assert(first_field(t) =~= dt);
    assert(last_field(t) =~= ds);
    assert(dec_digits_of(dt) =~= dt);
    assert(dec_digits_of(ds) =~= ds);
    assert(parse_dec_spec(dt, 255) == Some(task_type as nat));
    assert(parse_dec_spec(ds, u64::MAX as nat) == Some(seed as nat));
}

} // verus!
