//! Decimal numerals on ASCII bytes: the values the wire protocol carries.
//!
//! A request line holds two unsigned decimal integers. Parsing accepts what
//! `str::parse` accepts for an unsigned type: an optional leading `+`, then
//! one or more digits, with the value in range. Formatting produces the
//! canonical numeral, most significant digit first, no sign, no leading zero.
use vstd::prelude::*;

verus! {

/// ASCII code of a decimal digit?
pub open spec fn is_digit(b: u8) -> bool {
    48 <= b <= 57
}

/// Numeric value of one digit byte.
pub open spec fn digit_val(b: u8) -> nat
    recommends
        is_digit(b),
{
    (b - 48) as nat
}

/// Every byte of `s` is a digit.
pub open spec fn all_digits(s: Seq<u8>) -> bool {
    forall|i: int| 0 <= i < s.len() ==> is_digit(#[trigger] s[i])
}

/// Value of a digit string, most significant digit first.
pub open spec fn dec_val(s: Seq<u8>) -> nat
    decreases s.len(),
{
    if s.len() == 0 {
        0
    } else {
        dec_val(s.drop_last()) * 10 + digit_val(s.last())
    }
}

/// The digit portion of a numeral: everything after an optional leading `+`.
pub open spec fn dec_digits_of(s: Seq<u8>) -> Seq<u8> {
    if s.len() > 0 && s[0] == 43 {
        s.drop_first()
    } else {
        s
    }
}

/// Is `s` a well-formed unsigned numeral?
pub open spec fn is_dec(s: Seq<u8>) -> bool {
    dec_digits_of(s).len() > 0 && all_digits(dec_digits_of(s))
}

/// What parsing `s` as an unsigned integer bounded by `max` yields: the
/// value when the numeral is well formed and in range, nothing otherwise.
pub open spec fn parse_dec_spec(s: Seq<u8>, max: nat) -> Option<nat> {
    if is_dec(s) && dec_val(dec_digits_of(s)) <= max {
        Some(dec_val(dec_digits_of(s)))
    } else {
        None
    }
}

/// The canonical numeral of `n`: no sign, no leading zero.
pub open spec fn dec_repr(n: nat) -> Seq<u8>
    decreases n,
{
    if n < 10 {
        seq![(n + 48) as u8]
    } else {
        dec_repr(n / 10).push((n % 10 + 48) as u8)
    }
}

/// A longer digit string never has a smaller value: the value of `s` is at
/// least the value of any of its prefixes.
pub proof fn lemma_dec_val_prefix(s: Seq<u8>, k: int)
    requires
        0 <= k <= s.len(),
    ensures
        dec_val(s) >= dec_val(s.take(k)),
    decreases s.len() - k,
{
    if k == s.len() {
        assert(s.take(k) =~= s);
    } else {
        assert(s.take(k + 1).drop_last() =~= s.take(k));
        assert(dec_val(s.take(k + 1)) == dec_val(s.take(k)) * 10 + digit_val(s.take(k + 1).last()));
        lemma_dec_val_prefix(s, k + 1);
    }
}

/// The canonical numeral is made of digits, is nonempty, and reads back to
/// the value it was made from.
pub proof fn lemma_dec_repr(n: nat)
    ensures
        all_digits(dec_repr(n)),
        dec_repr(n).len() >= 1,
        dec_val(dec_repr(n)) == n,
        dec_repr(n)[0] != 43,
    decreases n,
{
    if n < 10 {
        assert(dec_repr(n) =~= seq![(n + 48) as u8]);
        assert(dec_val(dec_repr(n)) == dec_val(seq![(n + 48) as u8].drop_last()) * 10 + n);
        assert(seq![(n + 48) as u8].drop_last() =~= Seq::<u8>::empty());
    } else {
        lemma_dec_repr(n / 10);
        let r = dec_repr(n);
        assert(r.drop_last() =~= dec_repr(n / 10));
        assert(dec_val(r) == dec_val(dec_repr(n / 10)) * 10 + digit_val((n % 10 + 48) as u8));
        assert(n / 10 * 10 + n % 10 == n) by (nonlinear_arith);
        assert(forall|i: int|
            0 <= i < r.len() ==> is_digit(#[trigger] r[i])) by {
            assert(forall|i: int|
                0 <= i < r.len() - 1 ==> r[i] == #[trigger] dec_repr(n / 10)[i]);
        }
    }
}

/// Parse `s[lo..hi]` as an unsigned decimal integer no greater than `max`.
#[verifier::loop_isolation(false)]
pub fn parse_dec(s: &Vec<u8>, lo: usize, hi: usize, max: u64) -> (r: Option<u64>)
    requires
        lo <= hi <= s@.len(),
    ensures
        (match r {
            Some(v) => parse_dec_spec(s@.subrange(lo as int, hi as int), max as nat) == Some(
                v as nat,
            ),
            None => parse_dec_spec(s@.subrange(lo as int, hi as int), max as nat) is None,
        }),
{
    let ghost sub = s@.subrange(lo as int, hi as int);
    let mut i: usize = lo;
    if i < hi && s[i] == 43 {
        i = i + 1;
    }
    let ghost digits = dec_digits_of(sub);
    proof {
        assert(digits =~= s@.subrange(i as int, hi as int));
    }
    if i == hi {
        return None;
    }
    let ghost dstart = i as int;
    let mut v: u64 = 0;
    while i < hi
        invariant
            dstart <= i <= hi <= s@.len(),
            digits =~= s@.subrange(dstart, hi as int),
            all_digits(s@.subrange(dstart, i as int)),
            v as nat == dec_val(s@.subrange(dstart, i as int)),
            v <= max,
        decreases hi - i,
    {
        let b = s[i];
        proof {
            assert(digits.take(i - dstart) =~= s@.subrange(dstart, i as int));
            assert(digits[i - dstart] == b);
        }
        if !(48 <= b && b <= 57) {
            assert(!all_digits(digits));
            return None;
        }
        let d = (b - 48) as u64;
        let overflow = if v > u64::MAX / 10 {
            true
        } else {
            let w = v * 10;
            w > u64::MAX - d || w + d > max
        };
        proof {
            assert(s@.subrange(dstart, i as int).push(b) =~= s@.subrange(dstart, i + 1));
            assert(s@.subrange(dstart, i + 1).drop_last() =~= s@.subrange(dstart, i as int));
            assert(s@.subrange(dstart, i + 1).last() == b);
            assert(dec_val(s@.subrange(dstart, i + 1)) == v as nat * 10 + d as nat);
        }
        if overflow {
            proof {
                assert(digits.take(i + 1 - dstart) =~= s@.subrange(dstart, i + 1));
                lemma_dec_val_prefix(digits, i + 1 - dstart);
                assert(dec_val(digits) > max as nat);
            }
            return None;
        }
        v = v * 10 + d;
        i = i + 1;
    }
    proof {
        assert(s@.subrange(dstart, hi as int) =~= digits);
    }
    Some(v)
}

/// Format `n` as its canonical decimal numeral.
#[verifier::loop_isolation(false)]
pub fn format_dec(n: u64) -> (r: Vec<u8>)
    ensures
        r@ == dec_repr(n as nat),
{
    if n == 0 {
        let mut out: Vec<u8> = Vec::new();
        out.push(48);
        proof {
            assert(out@ =~= dec_repr(0));
        }
        return out;
    }
    let mut rev: Vec<u8> = Vec::new();
    let mut m: u64 = n;
    while m > 0
        invariant
            m > 0 ==> dec_repr(n as nat) =~= dec_repr(m as nat) + rev@.reverse(),
            m == 0 ==> dec_repr(n as nat) =~= rev@.reverse(),
            m <= n,
        decreases m,
    {
        let d = m % 10;
        let ghost old_rev = rev@;
        rev.push((d + 48) as u8);
        proof {
            assert(rev@.reverse() =~= seq![(d + 48) as u8] + old_rev.reverse());
            if m >= 10 {
                assert(dec_repr(m as nat) =~= dec_repr((m as nat) / 10).push(
                    ((m as nat) % 10 + 48) as u8,
                ));
                assert(dec_repr((m as nat) / 10) + rev@.reverse() =~= dec_repr(m as nat)
                    + old_rev.reverse());
            } else {
                assert(dec_repr(m as nat) =~= seq![(d + 48) as u8]);
                assert(dec_repr(m as nat) + old_rev.reverse() =~= rev@.reverse());
            }
            assert((m as nat) / 10 == (m / 10) as nat);
        }
        m = m / 10;
    }
    let mut out: Vec<u8> = Vec::new();
    let mut i: usize = rev.len();
    while i > 0
        invariant
            i <= rev@.len(),
            out@ =~= rev@.subrange(i as int, rev@.len() as int).reverse(),
        decreases i,
    {
        i = i - 1;
        let ghost old_out = out@;
        out.push(rev[i]);
        proof {
            assert(rev@.subrange(i as int, rev@.len() as int).reverse() =~= old_out.push(
                rev@[i as int],
            ));
        }
    }
    proof {
        assert(rev@.subrange(0, rev@.len() as int) =~= rev@);
    }
    out
}

} // verus!
