//! Decimal numbers as they appear in the configuration: integers as `str::parse`
//! reads them, and plain decimal fractions for percentages.
use vstd::prelude::*;
use vstd::arithmetic::div_mod::{
    lemma_div_denominator, lemma_hoist_over_denominator, lemma_div_is_ordered,
};
use crate::text::{string_of, sub_chars};

verus! {

pub open spec fn is_digit(c: char) -> bool {
    '0' <= c && c <= '9'
}

pub open spec fn digit_of(c: char) -> nat {
    (c as int - '0' as int) as nat
}

pub open spec fn all_digits(s: Seq<char>) -> bool {
    forall|i: int| 0 <= i < s.len() ==> is_digit(#[trigger] s[i])
}

/// The number written by a string of decimal digits.
pub open spec fn digits_value(s: Seq<char>) -> nat
    decreases s.len(),
{
    if s.len() == 0 {
        0
    } else {
        digits_value(s.drop_last()) * 10 + digit_of(s.last())
    }
}

pub open spec fn pow10(k: nat) -> nat
    decreases k,
{
    if k == 0 {
        1
    } else {
        10 * pow10((k - 1) as nat)
    }
}

/// The digits after an optional leading `+`.
pub open spec fn unsigned_body(s: Seq<char>) -> Seq<char> {
    if s.len() > 0 && s[0] == '+' {
        s.drop_first()
    } else {
        s
    }
}

/// What `str::parse::<u32>` gives: an optional `+`, then one or more digits whose
/// value fits in a `u32`.
pub open spec fn std_parse_u32(s: Seq<char>) -> Option<u32> {
    let b = unsigned_body(s);
    if b.len() > 0 && all_digits(b) && digits_value(b) <= u32::MAX {
        Some(digits_value(b) as u32)
    } else {
        None
    }
}

/// What `str::parse::<u64>` gives.
pub open spec fn std_parse_u64(s: Seq<char>) -> Option<u64> {
    let b = unsigned_body(s);
    if b.len() > 0 && all_digits(b) && digits_value(b) <= u64::MAX {
        Some(digits_value(b) as u64)
    } else {
        None
    }
}

/// What `str::parse::<i32>` gives: an optional sign, then one or more digits whose
/// signed value fits in an `i32`.
pub open spec fn std_parse_i32(s: Seq<char>) -> Option<i32> {
    if s.len() > 0 && s[0] == '-' {
        let b = s.drop_first();
        if b.len() > 0 && all_digits(b) && digits_value(b) <= 0x8000_0000 {
            Some((-(digits_value(b) as int)) as i32)
        } else {
            None
        }
    } else {
        let b = unsigned_body(s);
        if b.len() > 0 && all_digits(b) && digits_value(b) <= i32::MAX {
            Some(digits_value(b) as i32)
        } else {
            None
        }
    }
}

/// Index of the first `c` in `s`, if any.
pub open spec fn first_index(s: Seq<char>, c: char) -> Option<int>
    decreases s.len(),
{
    if s.len() == 0 {
        None
    } else if s[0] == c {
        Some(0)
    } else {
        match first_index(s.drop_first(), c) {
            Some(i) => Some(i + 1),
            None => None,
        }
    }
}

/// A plain decimal number: an optional sign, digits, and an optional `.` followed by
/// digits, with at least one digit in all. Gives the sign (true when negative), the
/// integral digits and the fractional digits.
pub open spec fn decimal_parse(s: Seq<char>) -> Option<(bool, Seq<char>, Seq<char>)> {
    let neg = s.len() > 0 && s[0] == '-';
    let b = if s.len() > 0 && (s[0] == '-' || s[0] == '+') {
        s.drop_first()
    } else {
        s
    };
    match first_index(b, '.') {
        Some(i) => {
            let ip = b.take(i);
            let fp = b.skip(i + 1);
            if all_digits(ip) && all_digits(fp) && ip.len() + fp.len() > 0 {
                Some((neg, ip, fp))
            } else {
                None
            }
        },
        None => {
            if b.len() > 0 && all_digits(b) {
                Some((neg, b, Seq::empty()))
            } else {
                None
            }
        },
    }
}

/// `a` percent-scaled by the decimal `ip.fp`, rounded half up:
/// `round(a * ip.fp / 100)` for a non-negative value.
pub open spec fn percent_magnitude(a: nat, ip: Seq<char>, fp: Seq<char>) -> nat {
    (a * digits_value(ip) + (a * digits_value(fp)) / pow10(fp.len()) + 50) / 100
}

/// `f64 as i32` on an integral magnitude with a sign: saturates at the bounds.
pub open spec fn saturate_i32(neg: bool, m: nat) -> i32 {
    if neg {
        if m > 0x8000_0000 {
            i32::MIN
        } else {
            (-(m as int)) as i32
        }
    } else {
        if m > i32::MAX {
            i32::MAX
        } else {
            m as i32
        }
    }
}

/// `f64 as u32` on an integral magnitude with a sign: negative values give 0,
/// values above the range give `u32::MAX`.
pub open spec fn saturate_u32(neg: bool, m: nat) -> u32 {
    if neg {
        0
    } else if m > u32::MAX {
        u32::MAX
    } else {
        m as u32
    }
}

pub proof fn lemma_pow10_positive(k: nat)
    ensures
        pow10(k) >= 1,
    decreases k,
{
    if k > 0 {
        lemma_pow10_positive((k - 1) as nat);
    }
}

/// A string of `k` digits is below `10^k`.
pub proof fn lemma_digits_value_bound(s: Seq<char>)
    requires
        all_digits(s),
    ensures
        digits_value(s) < pow10(s.len()),
    decreases s.len(),
{
    if s.len() > 0 {
        assert(is_digit(s[s.len() - 1]));
        assert(all_digits(s.drop_last())) by {
            assert forall|i: int| 0 <= i < s.drop_last().len() implies is_digit(
                #[trigger] s.drop_last()[i],
            ) by {
                assert(s.drop_last()[i] == s[i]);
            }
        }
        lemma_digits_value_bound(s.drop_last());
    }
}

/// Prepending a digit adds it at the highest place.
pub proof fn lemma_digits_value_cons(d: char, t: Seq<char>)
    ensures
        digits_value(seq![d] + t) == digit_of(d) * pow10(t.len()) + digits_value(t),
    decreases t.len(),
{
    let s = seq![d] + t;
    if t.len() == 0 {
        assert(s.drop_last() =~= Seq::<char>::empty());
        assert(s.last() == d);
        assert(pow10(0) == 1);
        assert(digits_value(Seq::<char>::empty()) == 0);
        assert(digits_value(s) == digit_of(d));
    } else {
        assert(s.drop_last() =~= seq![d] + t.drop_last());
        lemma_digits_value_cons(d, t.drop_last());
        assert(s.last() == t.last());
        assert(digits_value(s) == (digit_of(d) * pow10(t.drop_last().len()) + digits_value(
            t.drop_last(),
        )) * 10 + digit_of(t.last()));
        assert((digit_of(d) * pow10(t.drop_last().len())) * 10 == digit_of(d) * pow10(t.len()))
            by (nonlinear_arith)
            requires
                pow10(t.len()) == 10 * pow10(t.drop_last().len()),
        ;
    }
}

/// Digits read left to right: the value of a prefix one longer.
pub proof fn lemma_digits_value_take(s: Seq<char>, i: int)
    requires
        0 <= i < s.len(),
    ensures
        digits_value(s.take(i + 1)) == digits_value(s.take(i)) * 10 + digit_of(s[i]),
{
    assert(s.take(i + 1).drop_last() =~= s.take(i));
}

/// The value of a longer digit string is at least that of its prefix.
pub proof fn lemma_digits_value_monotone(s: Seq<char>, i: int, j: int)
    requires
        0 <= i <= j <= s.len(),
    ensures
        digits_value(s.take(i)) <= digits_value(s.take(j)),
    decreases j - i,
{
    if i < j {
        lemma_digits_value_monotone(s, i, j - 1);
        lemma_digits_value_take(s, j - 1);
    }
}

/// Result of scanning a run of characters as decimal digits.
pub struct DigitScan {
    /// Every character of the run is a digit.
    pub all_digits: bool,
    /// The value of the run when it is at most the cap; otherwise the cap plus one.
    pub value: u64,
}

/// Scans `s[lo..hi]` as decimal digits, capping the value at `cap + 1`.
pub fn scan_digits(s: &[char], lo: usize, hi: usize, cap: u64) -> (res: DigitScan)
    requires
        lo <= hi <= s@.len(),
        cap <= 1_000_000_000_000_000_000,
    ensures
        res.all_digits == all_digits(s@.subrange(lo as int, hi as int)),
        res.all_digits ==> res.value as nat == if digits_value(s@.subrange(lo as int, hi as int))
            <= cap {
            digits_value(s@.subrange(lo as int, hi as int))
        } else {
            cap as nat + 1
        },
{
    let ghost sub = s@.subrange(lo as int, hi as int);
    let mut v: u64 = 0;
    let mut i: usize = lo;
    while i < hi
        invariant
            lo <= i <= hi <= s@.len(),
            sub == s@.subrange(lo as int, hi as int),
            cap <= 1_000_000_000_000_000_000,
            all_digits(sub.take(i - lo)),
            v as nat == if digits_value(sub.take(i - lo)) <= cap {
                digits_value(sub.take(i - lo))
            } else {
                cap as nat + 1
            },
        decreases hi - i,
    {
        let c = s[i];
        if !('0' <= c && c <= '9') {
            assert(!is_digit(sub[i - lo]));
            return DigitScan { all_digits: false, value: 0 };
        }
        proof {
            lemma_digits_value_take(sub, i - lo);
            assert(sub[i - lo] == c);
            assert(all_digits(sub.take(i - lo + 1))) by {
                assert forall|j: int| 0 <= j < sub.take(i - lo + 1).len() implies is_digit(
                    #[trigger] sub.take(i - lo + 1)[j],
                ) by {
                    if j < i - lo {
                        assert(sub.take(i - lo + 1)[j] == sub.take(i - lo)[j]);
                    }
                }
            }
        }
        let d = (c as u32 - '0' as u32) as u64;
        assert(d as nat == digit_of(c));
        if v <= cap {
            let w = v * 10 + d;
            if w > cap {
                v = cap + 1;
            } else {
                v = w;
            }
        }
        i = i + 1;
    }
    assert(sub.take(hi - lo) =~= sub);
    DigitScan { all_digits: true, value: v }
}

/// `str::parse::<u32>` on a character slice.
pub fn parse_u32(s: &[char]) -> (res: Option<u32>)
    ensures
        res == std_parse_u32(s@),
{
    let lo: usize = if s.len() > 0 && s[0] == '+' {
        1
    } else {
        0
    };
    assert(unsigned_body(s@) =~= s@.subrange(lo as int, s@.len() as int));
    if lo >= s.len() {
        return None;
    }
    let scan = scan_digits(s, lo, s.len(), 0xffff_ffff);
    if scan.all_digits && scan.value <= 0xffff_ffff {
        Some(scan.value as u32)
    } else {
        None
    }
}

/// `str::parse::<u64>` on a character slice.
pub fn parse_u64(s: &[char]) -> (res: Option<u64>)
    ensures
        res == std_parse_u64(s@),
{
    let lo: usize = if s.len() > 0 && s[0] == '+' {
        1
    } else {
        0
    };
    let ghost b = unsigned_body(s@);
    assert(b =~= s@.subrange(lo as int, s@.len() as int));
    if lo >= s.len() {
        return None;
    }
    let mut v: u64 = 0;
    let mut i: usize = lo;
    while i < s.len()
        invariant
            lo <= i <= s@.len(),
            b == s@.subrange(lo as int, s@.len() as int),
            b == unsigned_body(s@),
            all_digits(b.take(i - lo)),
            v as nat == digits_value(b.take(i - lo)),
        decreases s@.len() - i,
    {
        let c = s[i];
        if !('0' <= c && c <= '9') {
            assert(!is_digit(b[i - lo]));
            assert(!all_digits(b));
            return None;
        }
        proof {
            lemma_digits_value_take(b, i - lo);
            assert(b[i - lo] == c);
            assert(all_digits(b.take(i - lo + 1))) by {
                assert forall|j: int| 0 <= j < b.take(i - lo + 1).len() implies is_digit(
                    #[trigger] b.take(i - lo + 1)[j],
                ) by {
                    if j < i - lo {
                        assert(b.take(i - lo + 1)[j] == b.take(i - lo)[j]);
                    }
                }
            }
        }
        let d = (c as u32 - '0' as u32) as u64;
        if v > 1844674407370955161 || (v == 1844674407370955161 && d > 5) {
            proof {
                lemma_digits_value_monotone(b, i - lo + 1, b.len() as int);
                assert(b.take(b.len() as int) =~= b);
                assert(digit_of(c) == d);
                assert(digits_value(b.take(i - lo + 1)) == v * 10 + d);
                assert(digits_value(b) > u64::MAX);
            }
            return None;
        }
        v = v * 10 + d;
        i = i + 1;
    }
    assert(b.take(b.len() as int) =~= b);
    Some(v)
}

/// `str::parse::<i32>` on a character slice.
pub fn parse_i32(s: &[char]) -> (res: Option<i32>)
    ensures
        res == std_parse_i32(s@),
{
    if s.len() > 0 && s[0] == '-' {
        if s.len() == 1 {
            return None;
        }
        assert(s@.drop_first() =~= s@.subrange(1, s@.len() as int));
        let scan = scan_digits(s, 1, s.len(), 0x8000_0000);
        if scan.all_digits && scan.value <= 0x8000_0000 {
            let m = scan.value as i64;
            Some((-m) as i32)
        } else {
            None
        }
    } else {
        let lo: usize = if s.len() > 0 && s[0] == '+' {
            1
        } else {
            0
        };
        assert(unsigned_body(s@) =~= s@.subrange(lo as int, s@.len() as int));
        if lo >= s.len() {
            return None;
        }
        let scan = scan_digits(s, lo, s.len(), 0x7fff_ffff);
        if scan.all_digits && scan.value <= 0x7fff_ffff {
            Some(scan.value as i32)
        } else {
            None
        }
    }
}


/// What [`first_index`] finds.
pub proof fn lemma_first_index(s: Seq<char>, c: char)
    ensures
        match first_index(s, c) {
            Some(i) => 0 <= i < s.len() && s[i] == c && forall|j: int| 0 <= j < i ==> s[j] != c,
            None => forall|j: int| 0 <= j < s.len() ==> s[j] != c,
        },
    decreases s.len(),
{
    if s.len() > 0 && s[0] != c {
        lemma_first_index(s.drop_first(), c);
        match first_index(s.drop_first(), c) {
            Some(i) => {
                assert forall|j: int| 0 <= j < i + 1 implies s[j] != c by {
                    if j > 0 {
                        assert(s[j] == s.drop_first()[j - 1]);
                    }
                }
            },
            None => {
                assert forall|j: int| 0 <= j < s.len() implies s[j] != c by {
                    if j > 0 {
                        assert(s[j] == s.drop_first()[j - 1]);
                    }
                }
            },
        }
    }
}

/// Position of the first `c` in `s[lo..]`, relative to `lo`.
fn find_first(s: &[char], lo: usize, c: char) -> (res: Option<usize>)
    requires
        lo <= s@.len(),
    ensures
        match first_index(s@.skip(lo as int), c) {
            Some(i) => res == Some(i as usize),
            None => res is None,
        },
{
    let mut i: usize = s.len();
    let mut found: Option<usize> = None;
    // Walk backwards so that the last hit seen is the first one.
    while i > lo
        invariant
            lo <= i <= s@.len(),
            match first_index(s@.skip(i as int), c) {
                Some(j) => found == Some((j + i - lo) as usize),
                None => found is None,
            },
        decreases i,
    {
        i = i - 1;
        proof {
            assert(s@.skip(i as int).drop_first() =~= s@.skip(i + 1));
            assert(s@.skip(i as int)[0] == s@[i as int]);
        }
        if s[i] == c {
            found = Some(i - lo);
        }
    }
    found
}

/// Exact result of [`decimal_parse`] on a character slice.
pub struct Decimal {
    pub negative: bool,
    pub integral: Vec<char>,
    pub fractional: Vec<char>,
}

/// Reads a plain decimal number (see [`decimal_parse`]).
pub fn parse_decimal(s: &[char]) -> (res: Option<Decimal>)
    ensures
        match decimal_parse(s@) {
            Some((n, ip, fp)) => res matches Some(d) && d.negative == n && d.integral@ == ip
                && d.fractional@ == fp,
            None => res is None,
        },
{
    let neg = s.len() > 0 && s[0] == '-';
    let lo: usize = if s.len() > 0 && (s[0] == '-' || s[0] == '+') {
        1
    } else {
        0
    };
    let ghost b = if s@.len() > 0 && (s@[0] == '-' || s@[0] == '+') {
        s@.drop_first()
    } else {
        s@
    };
    assert(b =~= s@.skip(lo as int));
    proof {
        lemma_first_index(b, '.');
    }
    match find_first(s, lo, '.') {
        Some(i) => {
            let dot = lo + i;
            let ip = sub_chars(s, lo, dot);
            let fp = sub_chars(s, dot + 1, s.len());
            assert(ip@ =~= b.take(i as int));
            assert(fp@ =~= b.skip(i + 1));
            let ok_ip = scan_digits(s, lo, dot, 0).all_digits;
            let ok_fp = scan_digits(s, dot + 1, s.len(), 0).all_digits;
            assert(s@.subrange(lo as int, dot as int) =~= ip@);
            assert(s@.subrange(dot + 1, s@.len() as int) =~= fp@);
            if ok_ip && ok_fp && ip.len() + fp.len() > 0 {
                Some(Decimal { negative: neg, integral: ip, fractional: fp })
            } else {
                None
            }
        },
        None => {
            let body = sub_chars(s, lo, s.len());
            assert(body@ =~= b);
            if body.len() > 0 && scan_digits(s, lo, s.len(), 0).all_digits {
                assert(s@.subrange(lo as int, s@.len() as int) =~= b);
                Some(Decimal { negative: neg, integral: body, fractional: Vec::new() })
            } else {
                assert(s@.subrange(lo as int, s@.len() as int) =~= b);
                None
            }
        },
    }
}

proof fn lemma_horner_step(a: nat, d: nat, f: nat, p: nat)
    requires
        p > 0,
    ensures
        (a * (d * p + f)) / (p * 10) == (a * d + (a * f) / p) / 10,
{
    assert(a * (d * p + f) == (a * f) + (a * d) * p) by (nonlinear_arith);
    lemma_div_denominator((a * (d * p + f)) as int, p as int, 10);
    lemma_hoist_over_denominator((a * f) as int, (a * d) as int, p);
}

proof fn lemma_scaled_fraction_bound(a: nat, f: nat, p: nat)
    requires
        p > 0,
        f < p,
    ensures
        (a * f) / p <= a,
{
    assert(a * f <= a * p) by (nonlinear_arith)
        requires
            f < p,
    ;
    lemma_div_is_ordered((a * f) as int, (a * p) as int, p as int);
    assert((a * p) / p == a) by (nonlinear_arith)
        requires
            p > 0,
    ;
}

/// `(a * frac) / 10^len(frac)` for a string of fractional digits.
fn scaled_fraction(a: u32, fp: &[char]) -> (res: u64)
    requires
        all_digits(fp@),
    ensures
        res as nat == (a as nat * digits_value(fp@)) / pow10(fp@.len()),
        res <= a,
{
    let mut c: u64 = 0;
    let mut i: usize = fp.len();
    proof {
        assert(fp@.skip(fp@.len() as int) =~= Seq::<char>::empty());
        assert(pow10(0) == 1);
        assert(digits_value(Seq::<char>::empty()) == 0);
        assert(a as nat * 0 == 0);
    }
    while i > 0
        invariant
            i <= fp@.len(),
            all_digits(fp@),
            c as nat == (a as nat * digits_value(fp@.skip(i as int))) / pow10((fp@.len() - i) as nat),
            c <= a,
        decreases i,
    {
        i = i - 1;
        let ghost t = fp@.skip(i + 1);
        let ghost k = (fp@.len() - i - 1) as nat;
        let d = (fp[i] as u32 - '0' as u32) as u64;
        proof {
            assert(is_digit(fp@[i as int]));
            assert(fp@.skip(i as int) =~= seq![fp@[i as int]] + t);
            lemma_digits_value_cons(fp@[i as int], t);
            assert(t.len() == k);
            lemma_pow10_positive(k);
            assert(all_digits(t)) by {
                assert forall|j: int| 0 <= j < t.len() implies is_digit(#[trigger] t[j]) by {
                    assert(t[j] == fp@[j + i + 1]);
                }
            }
            lemma_digits_value_bound(t);
            lemma_horner_step(a as nat, d as nat, digits_value(t), pow10(k));
            assert(pow10(k + 1) == 10 * pow10(k));
            assert(pow10(k) * 10 == pow10(k + 1));
            lemma_digits_value_bound(fp@.skip(i as int));
            lemma_scaled_fraction_bound(a as nat, digits_value(fp@.skip(i as int)), pow10(k + 1));
            assert(((fp@.len() - i) as nat) == k + 1);
        }
        c = (a as u64 * d + c) / 10;
    }
    assert(fp@.skip(0) =~= fp@);
    c
}

/// Exact magnitude when the integral part is small; `None` when it is above 10^12.
fn magnitude_if_small(a: u32, ip: &[char], fp: &[char]) -> (res: Option<u128>)
    requires
        all_digits(ip@),
        all_digits(fp@),
    ensures
        match res {
            Some(m) => m as nat == percent_magnitude(a as nat, ip@, fp@),
            None => digits_value(ip@) > 1_000_000_000_000,
        },
{
    let scan = scan_digits(ip, 0, ip.len(), 1_000_000_000_000);
    assert(ip@.subrange(0, ip@.len() as int) =~= ip@);
    if scan.value > 1_000_000_000_000 {
        return None;
    }
    let c = scaled_fraction(a, fp);
    assert(a as nat * scan.value as nat <= 0x1_0000_0000 * 1_000_000_000_000) by (nonlinear_arith)
        requires
            a <= 0xffff_ffff,
            scan.value <= 1_000_000_000_000,
    ;
    let w: u128 = a as u128 * scan.value as u128 + c as u128;
    Some((w + 50) / 100)
}

proof fn lemma_big_magnitude(a: nat, ip: Seq<char>, fp: Seq<char>)
    requires
        a >= 1,
        digits_value(ip) > 1_000_000_000_000,
    ensures
        percent_magnitude(a, ip, fp) >= 10_000_000_000,
{
    let x = digits_value(ip);
    assert(a * x >= x) by (nonlinear_arith)
        requires
            a >= 1,
    ;
    let num = a * x + (a * digits_value(fp)) / pow10(fp.len()) + 50;
    lemma_pow10_positive(fp.len());
    assert((a * digits_value(fp)) / pow10(fp.len()) >= 0) by (nonlinear_arith)
        requires
            pow10(fp.len()) >= 1,
    ;
    lemma_div_is_ordered(1_000_000_000_001, num as int, 100);
}

/// `f64` percentage arithmetic on exact decimals, as a position:
/// `round(a * value / 100)` saturated into `i32`.
pub fn percent_position(a: u32, d: &Decimal) -> (res: i32)
    requires
        all_digits(d.integral@),
        all_digits(d.fractional@),
    ensures
        res == saturate_i32(d.negative, percent_magnitude(a as nat, d.integral@, d.fractional@)),
{
    match magnitude_if_small(a, &d.integral, &d.fractional) {
        Some(m) => {
            if d.negative {
                if m > 0x8000_0000 {
                    i32::MIN
                } else {
                    (-(m as i64)) as i32
                }
            } else if m > 0x7fff_ffff {
                i32::MAX
            } else {
                m as i32
            }
        },
        None => {
            if a == 0 {
                proof {
                    let ip = d.integral@;
                    let fp = d.fractional@;
                    lemma_pow10_positive(fp.len());
                    assert(0 * digits_value(ip) == 0);
                    assert(0 * digits_value(fp) == 0);
                    assert((0 * digits_value(fp)) / pow10(fp.len()) == 0);
                }
                0
            } else {
                proof {
                    lemma_big_magnitude(a as nat, d.integral@, d.fractional@);
                }
                if d.negative {
                    i32::MIN
                } else {
                    i32::MAX
                }
            }
        },
    }
}

/// `f64` percentage arithmetic on exact decimals, as a size:
/// `round(a * value / 100)` saturated into `u32`.
pub fn percent_size(a: u32, d: &Decimal) -> (res: u32)
    requires
        all_digits(d.integral@),
        all_digits(d.fractional@),
    ensures
        res == saturate_u32(d.negative, percent_magnitude(a as nat, d.integral@, d.fractional@)),
{
    if d.negative {
        return 0;
    }
    match magnitude_if_small(a, &d.integral, &d.fractional) {
        Some(m) => {
            if m > 0xffff_ffff {
                u32::MAX
            } else {
                m as u32
            }
        },
        None => {
            if a == 0 {
                proof {
                    let ip = d.integral@;
                    let fp = d.fractional@;
                    lemma_pow10_positive(fp.len());
                    assert(0 * digits_value(ip) == 0);
                    assert(0 * digits_value(fp) == 0);
                    assert((0 * digits_value(fp)) / pow10(fp.len()) == 0);
                }
                0
            } else {
                proof {
                    lemma_big_magnitude(a as nat, d.integral@, d.fractional@);
                }
                u32::MAX
            }
        },
    }
}

/// The character of decimal digit `d`.
pub open spec fn digit_char(d: nat) -> char {
    ((48 + d) as u8) as char
}

/// The decimal notation of `n`, without leading zeros (`"0"` for zero).
pub open spec fn decimal_digits(n: nat) -> Seq<char>
    decreases n,
{
    if n < 10 {
        seq![digit_char(n)]
    } else {
        decimal_digits(n / 10).push(digit_char(n % 10))
    }
}

/// The decimal notation of a signed number: a `-` before the digits of its magnitude.
pub open spec fn signed_decimal(x: int) -> Seq<char> {
    if x < 0 {
        seq!['-'] + decimal_digits((-x) as nat)
    } else {
        decimal_digits(x as nat)
    }
}

/// Decimal notation reads back as the number it writes.
pub proof fn lemma_decimal_digits(n: nat)
    ensures
        decimal_digits(n).len() > 0,
        all_digits(decimal_digits(n)),
        decimal_digits(n)[0] != '+',
        decimal_digits(n)[0] != '-',
        digits_value(decimal_digits(n)) == n,
    decreases n,
{
    if n < 10 {
        assert(digit_char(n) as int == 48 + n);
        assert(seq![digit_char(n)].drop_last() =~= Seq::<char>::empty());
        assert(digits_value(Seq::<char>::empty()) == 0);
        assert(digits_value(seq![digit_char(n)]) == digit_of(digit_char(n)));
    } else {
        lemma_decimal_digits(n / 10);
        let s = decimal_digits(n / 10);
        let d = digit_char(n % 10);
        assert(d as int == 48 + n % 10);
        assert(s.push(d).drop_last() =~= s);
        assert(digits_value(s.push(d)) == digits_value(s) * 10 + digit_of(d));
        assert(n == (n / 10) * 10 + n % 10);
        assert(s.push(d)[0] == s[0]);
        assert forall|i: int| 0 <= i < s.push(d).len() implies is_digit(#[trigger] s.push(d)[i]) by {
            if i < s.len() {
                assert(s.push(d)[i] == s[i]);
            }
        }
    }
}

/// `u64::to_string` reads back with `str::parse::<u64>`.
pub proof fn lemma_u64_text_roundtrip(n: u64)
    ensures
        std_parse_u64(decimal_digits(n as nat)) == Some(n),
{
    lemma_decimal_digits(n as nat);
}

fn push_decimal(n: u64, out: &mut Vec<char>)
    ensures
        final(out)@ == old(out)@ + decimal_digits(n as nat),
    decreases n,
{
    if n >= 10 {
        push_decimal(n / 10, out);
    }
    let d: u8 = (n % 10) as u8;
    let c: char = (48u8 + d) as char;
    out.push(c);
    proof {
        if n >= 10 {
            assert(old(out)@ + decimal_digits(n as nat) =~= (old(out)@ + decimal_digits(
                (n / 10) as nat,
            )).push(c));
        } else {
            assert(old(out)@ + decimal_digits(n as nat) =~= old(out)@.push(c));
        }
    }
}

/// `u64::to_string`.
pub fn fmt_u64(n: u64) -> (res: String)
    ensures
        res@ == decimal_digits(n as nat),
{
    let mut out: Vec<char> = Vec::new();
    push_decimal(n, &mut out);
    assert(out@ =~= decimal_digits(n as nat));
    string_of(&out)
}

/// `i32::to_string`.
pub fn fmt_i32(x: i32) -> (res: String)
    ensures
        res@ == signed_decimal(x as int),
{
    let mut out: Vec<char> = Vec::new();
    if x < 0 {
        out.push('-');
        let m: u64 = (0i64 - x as i64) as u64;
        push_decimal(m, &mut out);
        assert(out@ =~= seq!['-'] + decimal_digits((-x) as nat));
    } else {
        push_decimal(x as u64, &mut out);
        assert(out@ =~= decimal_digits(x as nat));
    }
    string_of(&out)
}

/// Percentages round to the nearest whole pixel, halves up: with the value `ip.fp`
/// written as `v / 10^k`, the magnitude `m` satisfies
/// `m * 100 * 10^k <= a * v + 50 * 10^k < (m + 1) * 100 * 10^k`.
pub proof fn law_percent_rounds_to_nearest(a: nat, ip: Seq<char>, fp: Seq<char>)
    ensures
        ({
            let k = pow10(fp.len());
            let v = digits_value(ip) * k + digits_value(fp);
            let m = percent_magnitude(a, ip, fp);
            &&& m * 100 * k <= a * v + 50 * k
            &&& a * v + 50 * k < (m + 1) * 100 * k
        }),
{
    let k = pow10(fp.len());
    lemma_pow10_positive(fp.len());
    let i = digits_value(ip);
    let f = digits_value(fp);
    let q = (a * f) / k;
    let r = (a * f) % k;
    let n = a * i + q + 50;
    let m = n / 100;
    assert(m == percent_magnitude(a, ip, fp));
    assert(a * f == q * k + r && 0 <= r < k) by (nonlinear_arith)
        requires
            k > 0,
            q == (a * f) / k,
            r == (a * f) % k,
    ;
    assert(100 * m <= n && n <= 100 * m + 99) by (nonlinear_arith)
        requires
            m == n / 100,
            n >= 0,
    ;
    assert(m * 100 * k <= a * (i * k + f) + 50 * k) by (nonlinear_arith)
        requires
            100 * m <= n,
            n == a * i + q + 50,
            a * f == q * k + r,
            0 <= r,
            k > 0,
    ;
    assert(a * (i * k + f) + 50 * k < (m + 1) * 100 * k) by (nonlinear_arith)
        requires
            n <= 100 * m + 99,
            n == a * i + q + 50,
            a * f == q * k + r,
            r < k,
            k > 0,
    ;
}

/// `100%` gives the whole amount and `0%` nothing: a value of exactly 100 (or 0)
/// scales `a` to `a` (or 0).
pub proof fn law_percent_ends(a: nat, ip: Seq<char>, fp: Seq<char>)
    ensures
        digits_value(ip) * pow10(fp.len()) + digits_value(fp) == 100 * pow10(fp.len())
            ==> percent_magnitude(a, ip, fp) == a,
        digits_value(ip) * pow10(fp.len()) + digits_value(fp) == 0 ==> percent_magnitude(a, ip, fp)
            == 0,
{
    let k = pow10(fp.len());
    lemma_pow10_positive(fp.len());
    law_percent_rounds_to_nearest(a, ip, fp);
    let m = percent_magnitude(a, ip, fp);
    let v = digits_value(ip) * k + digits_value(fp);
    if v == 100 * k {
        assert(m == a) by (nonlinear_arith)
            requires
                m * 100 * k <= a * v + 50 * k,
                a * v + 50 * k < (m + 1) * 100 * k,
                v == 100 * k,
                k > 0,
        ;
    }
    if v == 0 {
        assert(m == 0) by (nonlinear_arith)
            requires
                m * 100 * k <= a * v + 50 * k,
                v == 0,
                k > 0,
                m >= 0,
        ;
    }
}

/// A percentage between 0 and 100 keeps a position within the room there is:
/// the magnitude never exceeds `a`.
pub proof fn law_percent_within(a: nat, ip: Seq<char>, fp: Seq<char>)
    requires
        digits_value(ip) * pow10(fp.len()) + digits_value(fp) <= 100 * pow10(fp.len()),
    ensures
        percent_magnitude(a, ip, fp) <= a,
{
    let k = pow10(fp.len());
    lemma_pow10_positive(fp.len());
    law_percent_rounds_to_nearest(a, ip, fp);
    let m = percent_magnitude(a, ip, fp);
    let v = digits_value(ip) * k + digits_value(fp);
    assert(m <= a) by (nonlinear_arith)
        requires
            m * 100 * k <= a * v + 50 * k,
            v <= 100 * k,
            k > 0,
            a >= 0,
            m >= 0,
    ;
}

} // verus!
