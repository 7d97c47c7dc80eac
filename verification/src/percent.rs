//! Percentages as `f64` parsing reads them: plain decimals, decimals with an
//! exponent (`1e1`, `2.5E-1`), and `inf`, `infinity` and `NaN` in any case, each with
//! an optional sign. A number is kept exactly and scaled exactly.
use vstd::prelude::*;
use vstd::arithmetic::div_mod::{lemma_div_denominator, lemma_hoist_over_denominator};
use crate::numbers::{
    all_digits, decimal_parse, digit_of, digits_value, is_digit, lemma_digits_value_bound,
    lemma_digits_value_take, lemma_pow10_positive, percent_magnitude, percent_position,
    percent_size, pow10, saturate_i32, saturate_u32,
};
use crate::picker::{eq_ignore_case, same_ignoring_ascii_case};
use crate::numbers::{parse_decimal, Decimal};
use crate::seqs::{first_where, lemma_first_where_at, lemma_first_where_none};
use crate::text::{string_of, sub_chars};

verus! {

/// What a percentage text stands for.
pub enum PercentForm {
    /// Sign, integral digits, fractional digits, and the power of ten they are
    /// multiplied by.
    Num(bool, Seq<char>, Seq<char>, int),
    /// An infinity with its sign.
    Inf(bool),
    NaN,
}

/// The digits `ip.fp` as a whole number over `10^len(fp)`.
pub open spec fn scaled_value(ip: Seq<char>, fp: Seq<char>) -> nat {
    digits_value(ip) * pow10(fp.len()) + digits_value(fp)
}

/// An exponent: an optional sign, then one or more digits.
pub open spec fn exponent_parse(s: Seq<char>) -> Option<int> {
    let neg = s.len() > 0 && s[0] == '-';
    let b = if s.len() > 0 && (s[0] == '-' || s[0] == '+') {
        s.drop_first()
    } else {
        s
    };
    if b.len() > 0 && all_digits(b) {
        Some(if neg {
            -(digits_value(b) as int)
        } else {
            digits_value(b) as int
        })
    } else {
        None
    }
}

/// Is `e` or `E`.
pub open spec fn exp_mark() -> spec_fn(char) -> bool {
    |c: char| c == 'e' || c == 'E'
}

/// Index of the first `e` or `E` in `s`.
pub open spec fn first_exp_mark(s: Seq<char>) -> Option<int> {
    first_where(s, exp_mark())
}

/// What `str::parse::<f64>` reads from `s`, kept exactly: an optional sign, then
/// `inf`, `infinity` or `nan` in any ASCII case, or a plain decimal (see
/// [`decimal_parse`]) followed by an optional exponent (`e` or `E`, an optional
/// sign, digits).
pub open spec fn float_parse(s: Seq<char>) -> Option<PercentForm> {
    let neg = s.len() > 0 && s[0] == '-';
    let r = if s.len() > 0 && (s[0] == '-' || s[0] == '+') {
        s.drop_first()
    } else {
        s
    };
    if same_ignoring_ascii_case(r, "inf"@) || same_ignoring_ascii_case(r, "infinity"@) {
        Some(PercentForm::Inf(neg))
    } else if same_ignoring_ascii_case(r, "nan"@) {
        Some(PercentForm::NaN)
    } else {
        match first_exp_mark(s) {
            None => match decimal_parse(s) {
                Some((n, ip, fp)) => Some(PercentForm::Num(n, ip, fp, 0)),
                None => None,
            },
            Some(i) => match decimal_parse(s.take(i)) {
                Some((n, ip, fp)) => match exponent_parse(s.skip(i + 1)) {
                    Some(e) => Some(PercentForm::Num(n, ip, fp, e)),
                    None => None,
                },
                None => None,
            },
        }
    }
}

/// `round(a * num / den / 100)` with halves rounded up.
pub open spec fn percent_round(a: nat, num: nat, den: nat) -> nat {
    (a * num + 50 * den) / (100 * den)
}

/// `10^e` for a non-negative `e`, else 1.
pub open spec fn up_scale(e: int) -> nat {
    if e >= 0 {
        pow10(e as nat)
    } else {
        1
    }
}

/// `10^-e` for a negative `e`, else 1.
pub open spec fn down_scale(e: int) -> nat {
    if e < 0 {
        pow10((-e) as nat)
    } else {
        1
    }
}

/// `a` percent-scaled by `ip.fp * 10^e`, rounded half up.
pub open spec fn exp_magnitude(a: nat, ip: Seq<char>, fp: Seq<char>, e: int) -> nat {
    percent_round(a, scaled_value(ip, fp) * up_scale(e), pow10(fp.len()) * down_scale(e))
}

/// `n` zeros.
pub open spec fn zeros(n: nat) -> Seq<char> {
    Seq::new(n, |i: int| '0')
}

pub proof fn lemma_pow10_add(a: nat, b: nat)
    ensures
        pow10(a + b) == pow10(a) * pow10(b),
    decreases b,
{
    if b == 0 {
        assert(pow10(0) == 1);
        assert(a + b == a);
    } else {
        let b1 = (b - 1) as nat;
        lemma_pow10_add(a, b1);
        assert(a + b == (a + b1) + 1);
        let x = pow10(a + b1);
        let pa = pow10(a);
        let pb1 = pow10(b1);
        assert(pow10(a + b) == 10 * x);
        assert(pow10(b) == 10 * pb1);
        assert(x == pa * pb1);
        assert(10 * (pa * pb1) == pa * (10 * pb1)) by (nonlinear_arith);
    }
}

/// Digits of a concatenation: the first part shifted by the length of the second.
pub proof fn lemma_digits_concat(s: Seq<char>, t: Seq<char>)
    ensures
        digits_value(s + t) == digits_value(s) * pow10(t.len()) + digits_value(t),
    decreases t.len(),
{
    if t.len() == 0 {
        assert(s + t =~= s);
        assert(pow10(0) == 1);
        assert(digits_value(t) == 0);
        assert(digits_value(s) * 1 == digits_value(s));
    } else {
        lemma_digits_concat(s, t.drop_last());
        assert((s + t).drop_last() =~= s + t.drop_last());
        assert((s + t).last() == t.last());
        let p = pow10(t.drop_last().len());
        assert(pow10(t.len()) == 10 * p);
        assert(digits_value(t) == digits_value(t.drop_last()) * 10 + digit_of(t.last()));
        assert(digits_value(s + t) == digits_value(s + t.drop_last()) * 10 + digit_of(t.last()));
        assert((digits_value(s) * p + digits_value(t.drop_last())) * 10 + digit_of(t.last())
            == digits_value(s) * (10 * p) + (digits_value(t.drop_last()) * 10 + digit_of(t.last())))
            by (nonlinear_arith);
    }
}

pub proof fn lemma_zeros(n: nat)
    ensures
        digits_value(zeros(n)) == 0,
        all_digits(zeros(n)),
        zeros(n).len() == n,
    decreases n,
{
    if n > 0 {
        lemma_zeros((n - 1) as nat);
        assert(zeros(n).drop_last() =~= zeros((n - 1) as nat));
        assert(zeros(n).last() == '0');
    }
}

/// The scaled value of `ip.fp` is the value of its digits run together.
pub proof fn lemma_scaled_concat(ip: Seq<char>, fp: Seq<char>)
    ensures
        scaled_value(ip, fp) == digits_value(ip + fp),
{
    lemma_digits_concat(ip, fp);
}

/// [`percent_magnitude`] is [`percent_round`] on the scaled value.
pub proof fn lemma_magnitude_as_round(a: nat, ip: Seq<char>, fp: Seq<char>)
    ensures
        percent_magnitude(a, ip, fp) == percent_round(a, scaled_value(ip, fp), pow10(fp.len())),
{
    let k = pow10(fp.len());
    lemma_pow10_positive(fp.len());
    let i = digits_value(ip);
    let f = digits_value(fp);
    let x = a * i + 50;
    assert(a * (i * k + f) + 50 * k == (a * f) + x * k) by (nonlinear_arith)
        requires
            x == a * i + 50,
    ;
    lemma_hoist_over_denominator((a * f) as int, x as int, k);
    lemma_div_denominator(((a * f) + x * k) as int, k as int, 100);
    assert(k * 100 == 100 * k) by (nonlinear_arith);
}

/// Scaling both parts of a fraction leaves its rounding as it is.
pub proof fn lemma_round_scale(a: nat, num: nat, den: nat, c: nat)
    requires
        c > 0,
        den > 0,
    ensures
        percent_round(a, c * num, c * den) == percent_round(a, num, den),
{
    let x = a * num + 50 * den;
    assert(a * (c * num) + 50 * (c * den) == c * x) by (nonlinear_arith)
        requires
            x == a * num + 50 * den,
    ;
    assert(100 * (c * den) == c * (100 * den)) by (nonlinear_arith);
    lemma_div_denominator((c * x) as int, c as int, (100 * den) as int);
    assert((c * x) / c == x) by (nonlinear_arith)
        requires
            c > 0,
    ;
}

/// Zero scales to zero.
pub proof fn lemma_round_zero(a: nat, den: nat)
    requires
        den > 0,
    ensures
        percent_round(a, 0, den) == 0,
{
    assert(a * 0 + 50 * den < 100 * den) by (nonlinear_arith)
        requires
            den > 0,
    ;
    vstd::arithmetic::div_mod::lemma_basic_div((a * 0 + 50 * den) as int, (100 * den) as int);
}

/// At least `10^13` percent of a positive amount is far beyond any 32-bit range.
pub proof fn lemma_round_big(a: nat, num: nat, den: nat)
    requires
        a >= 1,
        den > 0,
        num >= 10_000_000_000_000 * den,
    ensures
        percent_round(a, num, den) >= 10_000_000_000,
{
    assert(a * num + 50 * den >= 10_000_000_000 * (100 * den)) by (nonlinear_arith)
        requires
            a >= 1,
            den > 0,
            num >= 10_000_000_000_000 * den,
    ;
    vstd::arithmetic::div_mod::lemma_div_is_ordered(
        (10_000_000_000 * (100 * den)) as int,
        (a * num + 50 * den) as int,
        (100 * den) as int,
    );
    vstd::arithmetic::div_mod::lemma_div_multiples_vanish(10_000_000_000, (100 * den) as int);
}

/// Under `10^-12` of a 32-bit amount rounds to nothing.
pub proof fn lemma_round_tiny(a: nat, num: nat, n: nat, l: nat)
    requires
        a <= u32::MAX,
        num < pow10(n),
        l >= n + 12,
    ensures
        percent_round(a, num, pow10(l)) == 0,
{
    lemma_pow10_add(n, (l - n) as nat);
    lemma_pow10_add(12, (l - n - 12) as nat);
    lemma_pow10_positive((l - n - 12) as nat);
    lemma_pow10_positive(n);
    assert(pow10(12) == 1_000_000_000_000) by {
        reveal_with_fuel(pow10, 13);
    }
    let p = pow10(n);
    let q = pow10((l - n) as nat);
    assert(q >= 1_000_000_000_000);
    assert(a * num + 50 * (p * q) < 100 * (p * q)) by (nonlinear_arith)
        requires
            a <= 0xffff_ffff,
            num < p,
            q >= 1_000_000_000_000,
            p >= 1,
    ;
    assert(pow10(l) == p * q);
    vstd::arithmetic::div_mod::lemma_basic_div(
        (a * num + 50 * (p * q)) as int,
        (100 * (p * q)) as int,
    );
}

/// Exponents above this are not told apart: they are far beyond any length.
pub const EXP_CAP: u128 = 1_000_000_000_000_000_000_000_000_000_000;

/// `x` is the magnitude of `e`, or `EXP_CAP + 1` when that is larger.
pub open spec fn exp_fits(x: u128, e: int) -> bool {
    let m = if e < 0 {
        -e
    } else {
        e
    };
    if m <= EXP_CAP {
        x == m
    } else {
        x == EXP_CAP + 1
    }
}

/// The kind of a percentage text.
#[derive(Debug, Clone, Copy, PartialEq, Eq, Structural)]
pub enum FloatKind {
    Num,
    Inf,
    NaN,
}

/// A percentage text as read (see [`float_parse`]); the exponent is kept as its
/// sign and magnitude.
pub struct FloatText {
    pub kind: FloatKind,
    pub negative: bool,
    pub integral: Vec<char>,
    pub fractional: Vec<char>,
    pub exp_negative: bool,
    pub exp: u128,
}

/// `t` holds what `float_parse` read.
pub open spec fn float_read(t: FloatText, p: PercentForm) -> bool {
    match p {
        PercentForm::Inf(n) => t.kind == FloatKind::Inf && t.negative == n,
        PercentForm::NaN => t.kind == FloatKind::NaN,
        PercentForm::Num(n, ip, fp, e) => {
            &&& t.kind == FloatKind::Num
            &&& t.negative == n
            &&& t.integral@ == ip
            &&& t.fractional@ == fp
            &&& all_digits(ip)
            &&& all_digits(fp)
            &&& t.exp_negative == (e < 0)
            &&& exp_fits(t.exp, e)
        },
    }
}

/// Digits from `lo` on, as a number capped at `EXP_CAP + 1`; `None` unless there is
/// at least one and all are digits.
fn scan_exponent_digits(s: &[char], lo: usize) -> (res: Option<u128>)
    requires
        lo <= s@.len(),
    ensures
        match res {
            Some(v) => lo < s@.len() && all_digits(s@.skip(lo as int)) && v as nat == (if digits_value(
                s@.skip(lo as int),
            ) <= EXP_CAP {
                digits_value(s@.skip(lo as int))
            } else {
                EXP_CAP as nat + 1
            }),
            None => !(lo < s@.len() && all_digits(s@.skip(lo as int))),
        },
{
    if lo >= s.len() {
        return None;
    }
    let ghost sub = s@.skip(lo as int);
    let mut v: u128 = 0;
    let mut i: usize = lo;
    while i < s.len()
        invariant
            lo <= i <= s@.len(),
            sub == s@.skip(lo as int),
            all_digits(sub.take(i - lo)),
            v as nat == if digits_value(sub.take(i - lo)) <= EXP_CAP {
                digits_value(sub.take(i - lo))
            } else {
                EXP_CAP as nat + 1
            },
        decreases s@.len() - i,
    {
        let c = s[i];
        if !('0' <= c && c <= '9') {
            assert(!is_digit(sub[i - lo]));
            return None;
        }
        proof {
            lemma_digits_value_take(sub, i - lo);
            assert(sub[i - lo] == c);
            assert(all_digits(sub.take(i - lo + 1))) by {
                assert forall|j: int| 0 <= j < sub.take(i - lo + 1).len() implies is_digit(
                    #[trigger] sub.take(i - lo + 1)[j],
                ) by {
                    if j < i - lo {
                        assert(sub.take(i - lo + 1)[j] == sub.take(i - lo)[j]);
                    }
                }
            }
        }
        let d = (c as u32 - '0' as u32) as u128;
        assert(d as nat == digit_of(c));
        if v <= EXP_CAP {
            let w = v * 10 + d;
            if w > EXP_CAP {
                v = EXP_CAP + 1;
            } else {
                v = w;
            }
        }
        i = i + 1;
    }
    assert(sub.take(s@.len() - lo) =~= sub);
    Some(v)
}

/// Reads an exponent (see [`exponent_parse`]) from `s[lo..]`: its sign and capped
/// magnitude.
fn parse_exponent(s: &[char], lo: usize) -> (res: Option<(bool, u128)>)
    requires
        lo <= s@.len(),
    ensures
        match exponent_parse(s@.skip(lo as int)) {
            Some(e) => res matches Some((n, x)) && n == (e < 0) && exp_fits(x, e),
            None => res is None,
        },
{
    let ghost t = s@.skip(lo as int);
    let signed = lo < s.len() && (s[lo] == '-' || s[lo] == '+');
    let neg = lo < s.len() && s[lo] == '-';
    let start: usize = if signed {
        lo + 1
    } else {
        lo
    };
    proof {
        if signed {
            assert(t.drop_first() =~= s@.skip(start as int));
        } else {
            assert(t =~= s@.skip(start as int));
        }
    }
    match scan_exponent_digits(s, start) {
        Some(v) => Some((neg && v > 0, v)),
        None => None,
    }
}

/// Index of the first `e` or `E` in `s`.
fn find_exp_mark(s: &[char]) -> (res: Option<usize>)
    ensures
        match res {
            Some(i) => i < s@.len() && first_exp_mark(s@) == Some(i as int),
            None => first_exp_mark(s@) is None,
        },
{
    let mut i: usize = 0;
    while i < s.len()
        invariant
            i <= s@.len(),
            forall|j: int| 0 <= j < i ==> !exp_mark()(#[trigger] s@[j]),
        decreases s@.len() - i,
    {
        if s[i] == 'e' || s[i] == 'E' {
            proof {
                lemma_first_where_at(s@, exp_mark(), i as int);
            }
            return Some(i);
        }
        i = i + 1;
    }
    proof {
        lemma_first_where_none(s@, exp_mark());
    }
    None
}

proof fn lemma_decimal_digits_ok(s: Seq<char>)
    ensures
        decimal_parse(s) matches Some((n, ip, fp)) ==> all_digits(ip) && all_digits(fp),
{
}

/// Reads a percentage text (see [`float_parse`]).
pub fn parse_float(s: &[char]) -> (res: Option<FloatText>)
    ensures
        match float_parse(s@) {
            Some(p) => res matches Some(t) && float_read(t, p),
            None => res is None,
        },
{
    let neg = s.len() > 0 && s[0] == '-';
    let lo: usize = if s.len() > 0 && (s[0] == '-' || s[0] == '+') {
        1
    } else {
        0
    };
    let rest_chars = sub_chars(s, lo, s.len());
    let rest = string_of(&rest_chars);
    proof {
        if lo == 1 {
            assert(rest@ =~= s@.drop_first());
        } else {
            assert(rest@ =~= s@);
        }
    }
    if eq_ignore_case(rest.as_str(), "inf") || eq_ignore_case(rest.as_str(), "infinity") {
        return Some(
            FloatText {
                kind: FloatKind::Inf,
                negative: neg,
                integral: Vec::new(),
                fractional: Vec::new(),
                exp_negative: false,
                exp: 0,
            },
        );
    }
    if eq_ignore_case(rest.as_str(), "nan") {
        return Some(
            FloatText {
                kind: FloatKind::NaN,
                negative: neg,
                integral: Vec::new(),
                fractional: Vec::new(),
                exp_negative: false,
                exp: 0,
            },
        );
    }
    proof {
        lemma_decimal_digits_ok(s@);
    }
    match find_exp_mark(s) {
        None => match parse_decimal(s) {
            Some(d) => {
                Some(
                FloatText {
                    kind: FloatKind::Num,
                    negative: d.negative,
                    integral: d.integral,
                    fractional: d.fractional,
                    exp_negative: false,
                    exp: 0,
                },
            )
            },
            None => None,
        },
        Some(i) => {
            let mant = sub_chars(s, 0, i);
            assert(mant@ =~= s@.take(i as int));
            proof {
                lemma_decimal_digits_ok(mant@);
            }
            match parse_decimal(&mant) {
                Some(d) => match parse_exponent(s, i + 1) {
                    Some((en, ev)) => {
                        Some(
                        FloatText {
                            kind: FloatKind::Num,
                            negative: d.negative,
                            integral: d.integral,
                            fractional: d.fractional,
                            exp_negative: en,
                            exp: ev,
                        },
                    )
                    },
                    None => None,
                },
                None => None,
            }
        },
    }
}

/// A digit string with a digit other than `0` is at least 1.
proof fn lemma_nonzero_digits(s: Seq<char>, i: int)
    requires
        all_digits(s),
        0 <= i < s.len(),
        s[i] != '0',
    ensures
        digits_value(s) >= 1,
    decreases s.len(),
{
    if i == s.len() - 1 {
        assert(is_digit(s[i]));
    } else {
        assert(all_digits(s.drop_last())) by {
            assert forall|j: int| 0 <= j < s.drop_last().len() implies is_digit(
                #[trigger] s.drop_last()[j],
            ) by {
                assert(s.drop_last()[j] == s[j]);
            }
        }
        assert(s.drop_last()[i] == s[i]);
        lemma_nonzero_digits(s.drop_last(), i);
    }
}

/// How a number scales every 32-bit amount.
pub enum Scaled {
    /// To 0.
    Zero,
    /// To at least `10^10` (any amount but 0).
    Huge,
    /// As the plain decimal does.
    Exact(Decimal),
}

/// `a ++ b`.
fn concat_chars(a: &[char], b: &[char]) -> (res: Vec<char>)
    ensures
        res@ == a@ + b@,
{
    let mut x = sub_chars(a, 0, a.len());
    let mut y = sub_chars(b, 0, b.len());
    assert(x@ =~= a@);
    assert(y@ =~= b@);
    x.append(&mut y);
    x
}

/// `n` zeros.
fn zero_chars(n: usize) -> (res: Vec<char>)
    ensures
        res@ == zeros(n as nat),
{
    let mut v: Vec<char> = Vec::new();
    let mut i: usize = 0;
    while i < n
        invariant
            i <= n,
            v@ == zeros(i as nat),
        decreases n - i,
    {
        v.push('0');
        assert(v@ =~= zeros((i + 1) as nat));
        i = i + 1;
    }
    v
}

/// The digits of `m` (that is `ip ++ fp`) are all zeros: the number scales
/// everything to 0.
proof fn lemma_norm_zero(ip: Seq<char>, fp: Seq<char>, e: int)
    requires
        digits_value(ip + fp) == 0,
    ensures
        forall|a: nat| #[trigger] exp_magnitude(a, ip, fp, e) == 0,
{
    lemma_scaled_concat(ip, fp);
    lemma_pow10_positive(fp.len());
    if e < 0 {
        lemma_pow10_positive((-e) as nat);
    }
    let den = pow10(fp.len()) * down_scale(e);
    assert(down_scale(e) >= 1);
    assert(den > 0) by (nonlinear_arith)
        requires
            pow10(fp.len()) >= 1,
            down_scale(e) >= 1,
            den == pow10(fp.len()) * down_scale(e),
    ;
    assert forall|a: nat| #[trigger] exp_magnitude(a, ip, fp, e) == 0 by {
        assert(scaled_value(ip, fp) * up_scale(e) == 0);
        lemma_round_zero(a, den);
    }
}

/// `e >= len(fp) + 13` and a non-zero number: far above every 32-bit amount.
proof fn lemma_norm_huge(ip: Seq<char>, fp: Seq<char>, e: int)
    requires
        digits_value(ip + fp) >= 1,
        e >= fp.len() + 13,
    ensures
        forall|a: nat| a >= 1 ==> #[trigger] exp_magnitude(a, ip, fp, e) >= 10_000_000_000,
{
    lemma_scaled_concat(ip, fp);
    let n = scaled_value(ip, fp);
    let lf = fp.len();
    let ee = e as nat;
    lemma_pow10_add((lf + 13) as nat, (ee - lf - 13) as nat);
    lemma_pow10_add(lf, 13);
    lemma_pow10_positive((ee - lf - 13) as nat);
    lemma_pow10_positive(lf);
    assert(pow10(13) == 10_000_000_000_000) by {
        reveal_with_fuel(pow10, 14);
    }
    let pl = pow10(lf);
    assert((lf + 13) as nat + (ee - lf - 13) as nat == ee);
    assert(n * pow10(ee) >= 10_000_000_000_000 * pl) by (nonlinear_arith)
        requires
            n >= 1,
            pow10(ee) == pow10((lf + 13) as nat) * pow10((ee - lf - 13) as nat),
            pow10((ee - lf - 13) as nat) >= 1,
            pow10((lf + 13) as nat) == pl * 10_000_000_000_000,
            pl >= 1,
    ;
    assert(down_scale(e) == 1);
    assert(pl * down_scale(e) == pl);
    assert forall|a: nat| a >= 1 implies #[trigger] exp_magnitude(a, ip, fp, e) >= 10_000_000_000 by {
        lemma_round_big(a, n * pow10(ee), pl);
    }
}

/// `e = len(fp) + z`: the digits followed by `z` zeros, as a whole number.
proof fn lemma_norm_shift(ip: Seq<char>, fp: Seq<char>, e: int, z: nat)
    requires
        e == fp.len() + z,
    ensures
        forall|a: nat| #[trigger] exp_magnitude(a, ip, fp, e) == percent_magnitude(
            a,
            (ip + fp) + zeros(z),
            Seq::<char>::empty(),
        ),
{
    let m = ip + fp;
    let ip2 = m + zeros(z);
    let lf = fp.len();
    let ee = e as nat;
    lemma_scaled_concat(ip, fp);
    let n = digits_value(m);
    lemma_zeros(z);
    lemma_digits_concat(m, zeros(z));
    lemma_pow10_add(lf, z);
    lemma_pow10_positive(lf);
    let pl = pow10(lf);
    let pz = pow10(z);
    assert(pow10(0) == 1);
    assert(digits_value(Seq::<char>::empty()) == 0);
    assert(scaled_value(ip2, Seq::<char>::empty()) == n * pz);
    assert(n * pow10(ee) == pl * (n * pz)) by (nonlinear_arith)
        requires
            pow10(ee) == pl * pz,
    ;
    assert(pl * down_scale(e) == pl * 1);
    assert forall|a: nat| #[trigger] exp_magnitude(a, ip, fp, e) == percent_magnitude(
        a,
        ip2,
        Seq::<char>::empty(),
    ) by {
        lemma_magnitude_as_round(a, ip2, Seq::<char>::empty());
        lemma_round_scale(a, n * pz, 1, pl);
    }
}

/// The digits split with `l` of them after the point, where `10^l` is the divisor of
/// `ip.fp * 10^e`.
proof fn lemma_norm_split(ip: Seq<char>, fp: Seq<char>, e: int, ip2: Seq<char>, fp2: Seq<char>)
    requires
        ip2 + fp2 == ip + fp,
        fp2.len() == fp.len() - e,
        e <= fp.len(),
    ensures
        forall|a: nat| #[trigger] exp_magnitude(a, ip, fp, e) == percent_magnitude(a, ip2, fp2),
{
    let lf = fp.len();
    let l = fp2.len();
    lemma_scaled_concat(ip, fp);
    lemma_scaled_concat(ip2, fp2);
    let n = digits_value(ip + fp);
    lemma_pow10_positive(l);
    if e >= 0 {
        let ee = e as nat;
        lemma_pow10_add(l, ee);
        lemma_pow10_positive(ee);
        let pl = pow10(l);
        let pe = pow10(ee);
        assert(pow10(lf) * down_scale(e) == pe * pl) by (nonlinear_arith)
            requires
                down_scale(e) == 1,
                pow10(lf) == pl * pe,
        ;
        assert(n * up_scale(e) == pe * n) by (nonlinear_arith)
            requires
                up_scale(e) == pe,
        ;
        assert forall|a: nat| #[trigger] exp_magnitude(a, ip, fp, e) == percent_magnitude(
            a,
            ip2,
            fp2,
        ) by {
            lemma_magnitude_as_round(a, ip2, fp2);
            lemma_round_scale(a, n, pl, pe);
        }
    } else {
        let me = (-e) as nat;
        lemma_pow10_add(lf, me);
        assert(scaled_value(ip, fp) * up_scale(e) == n);
        assert(pow10(lf) * down_scale(e) == pow10(l));
        assert forall|a: nat| #[trigger] exp_magnitude(a, ip, fp, e) == percent_magnitude(
            a,
            ip2,
            fp2,
        ) by {
            lemma_magnitude_as_round(a, ip2, fp2);
        }
    }
}

/// `ip.fp * 10^e` with a divisor of at least `10^(len(ip ++ fp) + 12)`: below any
/// 32-bit amount's half pixel.
proof fn lemma_norm_tiny(ip: Seq<char>, fp: Seq<char>, e: int)
    requires
        all_digits(ip + fp),
        e < 0,
        fp.len() - e >= (ip + fp).len() + 12,
    ensures
        forall|a: nat| a <= u32::MAX ==> #[trigger] exp_magnitude(a, ip, fp, e) == 0,
{
    let m = ip + fp;
    let me = (-e) as nat;
    let big_l = (fp.len() + me) as nat;
    lemma_scaled_concat(ip, fp);
    lemma_digits_value_bound(m);
    lemma_pow10_add(fp.len(), me);
    let n = digits_value(m);
    assert(scaled_value(ip, fp) * up_scale(e) == n);
    assert(pow10(fp.len()) * down_scale(e) == pow10(big_l));
    assert forall|a: nat| a <= u32::MAX implies #[trigger] exp_magnitude(a, ip, fp, e) == 0 by {
        lemma_round_tiny(a, n, m.len(), big_l);
    }
}

/// `ip.fp * 10^e` with `z` zeros in front of all its digits after the point.
proof fn lemma_norm_pad(ip: Seq<char>, fp: Seq<char>, e: int, z: nat)
    requires
        e < 0,
        fp.len() - e == (ip + fp).len() + z,
    ensures
        forall|a: nat| #[trigger] exp_magnitude(a, ip, fp, e) == percent_magnitude(
            a,
            Seq::<char>::empty(),
            zeros(z) + (ip + fp),
        ),
{
    let m = ip + fp;
    let fp2 = zeros(z) + m;
    let ip2: Seq<char> = Seq::empty();
    lemma_zeros(z);
    lemma_digits_concat(zeros(z), m);
    assert(ip2 + fp2 =~= fp2);
    assert(digits_value(fp2) == digits_value(m));
    lemma_scaled_concat(ip, fp);
    lemma_scaled_concat(ip2, fp2);
    let n = digits_value(m);
    let me = (-e) as nat;
    lemma_pow10_add(fp.len(), me);
    assert(scaled_value(ip, fp) * up_scale(e) == n);
    assert(scaled_value(ip2, fp2) == n);
    assert(pow10(fp.len()) * down_scale(e) == pow10(fp2.len()));
    assert forall|a: nat| #[trigger] exp_magnitude(a, ip, fp, e) == percent_magnitude(a, ip2, fp2) by {
        lemma_magnitude_as_round(a, ip2, fp2);
    }
}

/// The decimal `ip.fp * 10^e` as it scales amounts, found without writing out a
/// long run of zeros: far above every amount, nothing, or an equal plain decimal.
fn normalize(t: &FloatText, Ghost(e): Ghost<int>) -> (res: Scaled)
    requires
        all_digits(t.integral@),
        all_digits(t.fractional@),
        t.exp_negative == (e < 0),
        exp_fits(t.exp, e),
    ensures
        match res {
            Scaled::Zero => forall|a: nat|
                a <= u32::MAX ==> #[trigger] exp_magnitude(a, t.integral@, t.fractional@, e) == 0,
            Scaled::Huge => forall|a: nat|
                a >= 1 ==> #[trigger] exp_magnitude(a, t.integral@, t.fractional@, e)
                    >= 10_000_000_000,
            Scaled::Exact(d) => {
                &&& all_digits(d.integral@)
                &&& all_digits(d.fractional@)
                &&& forall|a: nat| #[trigger]
                    exp_magnitude(a, t.integral@, t.fractional@, e) == percent_magnitude(
                        a,
                        d.integral@,
                        d.fractional@,
                    )
            },
        },
{
    let ghost ip = t.integral@;
    let ghost fp = t.fractional@;
    let m = concat_chars(&t.integral, &t.fractional);
    let lf = t.fractional.len();
    let lm = m.len();
    proof {
        assert(all_digits(m@)) by {
            assert forall|j: int| 0 <= j < m@.len() implies is_digit(#[trigger] m@[j]) by {
                if j < ip.len() {
                    assert(m@[j] == ip[j]);
                } else {
                    assert(m@[j] == fp[j - ip.len()]);
                }
            }
        }
    }
    let mut k: usize = 0;
    while k < lm && m[k] == '0'
        invariant
            lm == m@.len(),
            k <= lm,
            forall|j: int| 0 <= j < k ==> m@[j] == '0',
        decreases lm - k,
    {
        k = k + 1;
    }
    if k == lm {
        proof {
            assert(m@ =~= zeros(lm as nat));
            lemma_zeros(lm as nat);
            lemma_norm_zero(ip, fp, e);
        }
        return Scaled::Zero;
    }
    proof {
        lemma_nonzero_digits(m@, k as int);
    }
    let ex = t.exp;
    if !t.exp_negative {
        if ex >= lf as u128 + 13 {
            proof {
                lemma_norm_huge(ip, fp, e);
            }
            return Scaled::Huge;
        }
        if ex >= lf as u128 {
            let z = (ex - lf as u128) as usize;
            let zs = zero_chars(z);
            let ip2 = concat_chars(&m, &zs);
            proof {
                lemma_norm_shift(ip, fp, e, z as nat);
                lemma_zeros(z as nat);
                assert(all_digits(ip2@)) by {
                    assert forall|j: int| 0 <= j < ip2@.len() implies is_digit(#[trigger] ip2@[j]) by {
                        if j < m@.len() {
                            assert(ip2@[j] == m@[j]);
                        } else {
                            assert(ip2@[j] == zs@[j - m@.len()]);
                        }
                    }
                }
            }
            let fp2: Vec<char> = Vec::new();
            assert(fp2@ =~= Seq::<char>::empty());
            return Scaled::Exact(Decimal { negative: false, integral: ip2, fractional: fp2 });
        }
        let l = (lf as u128 - ex) as usize;
        let ip2 = sub_chars(&m, 0, lm - l);
        let fp2 = sub_chars(&m, lm - l, lm);
        proof {
            assert(ip2@ + fp2@ =~= m@);
            lemma_norm_split(ip, fp, e, ip2@, fp2@);
            digits_of_part(m@, 0, (lm - l) as int);
            digits_of_part(m@, (lm - l) as int, lm as int);
        }
        return Scaled::Exact(Decimal { negative: false, integral: ip2, fractional: fp2 });
    }
    if ex > EXP_CAP || lf as u128 + ex >= lm as u128 + 12 {
        proof {
            lemma_norm_tiny(ip, fp, e);
        }
        return Scaled::Zero;
    }
    let l128 = lf as u128 + ex;
    if l128 <= lm as u128 {
        let l = l128 as usize;
        let ip2 = sub_chars(&m, 0, lm - l);
        let fp2 = sub_chars(&m, lm - l, lm);
        proof {
            assert(ip2@ + fp2@ =~= m@);
            lemma_norm_split(ip, fp, e, ip2@, fp2@);
            digits_of_part(m@, 0, (lm - l) as int);
            digits_of_part(m@, (lm - l) as int, lm as int);
        }
        return Scaled::Exact(Decimal { negative: false, integral: ip2, fractional: fp2 });
    }
    let z = (l128 - lm as u128) as usize;
    let zs = zero_chars(z);
    let fp2 = concat_chars(&zs, &m);
    proof {
        lemma_norm_pad(ip, fp, e, z as nat);
        lemma_zeros(z as nat);
        assert(all_digits(fp2@)) by {
            assert forall|j: int| 0 <= j < fp2@.len() implies is_digit(#[trigger] fp2@[j]) by {
                if j < zs@.len() {
                    assert(fp2@[j] == zs@[j]);
                } else {
                    assert(fp2@[j] == m@[j - zs@.len()]);
                }
            }
        }
    }
    let ip2: Vec<char> = Vec::new();
    assert(ip2@ =~= Seq::<char>::empty());
    Scaled::Exact(Decimal { negative: false, integral: ip2, fractional: fp2 })
}

/// A part of a digit string is a digit string.
proof fn digits_of_part(m: Seq<char>, lo: int, hi: int)
    requires
        all_digits(m),
        0 <= lo <= hi <= m.len(),
    ensures
        all_digits(m.subrange(lo, hi)),
{
    assert forall|j: int| 0 <= j < m.subrange(lo, hi).len() implies is_digit(
        #[trigger] m.subrange(lo, hi)[j],
    ) by {
        assert(m.subrange(lo, hi)[j] == m[lo + j]);
    }
}

/// Nothing scaled is nothing.
proof fn lemma_exp_of_nothing(ip: Seq<char>, fp: Seq<char>, e: int)
    ensures
        exp_magnitude(0, ip, fp, e) == 0,
{
    lemma_pow10_positive(fp.len());
    if e < 0 {
        lemma_pow10_positive((-e) as nat);
    }
    let den = pow10(fp.len()) * down_scale(e);
    assert(den > 0) by (nonlinear_arith)
        requires
            pow10(fp.len()) >= 1,
            down_scale(e) >= 1,
            den == pow10(fp.len()) * down_scale(e),
    ;
    let num = scaled_value(ip, fp) * up_scale(e);
    assert(0 * num + 50 * den < 100 * den) by (nonlinear_arith)
        requires
            den > 0,
    ;
    vstd::arithmetic::div_mod::lemma_basic_div((0 * num + 50 * den) as int, (100 * den) as int);
}

/// The coordinate a percentage gives within `room` pixels of free space, as `f64`
/// arithmetic with its saturating cast to `i32` gives it: a number scales the room
/// (rounded half up, computed exactly); an infinity gives `i32::MAX` or `i32::MIN`,
/// or 0 when there is no room (`0 * inf` is NaN); NaN gives 0.
pub open spec fn position_of_percent(p: PercentForm, room: nat) -> i32 {
    match p {
        PercentForm::Num(neg, ip, fp, e) => saturate_i32(neg, exp_magnitude(room, ip, fp, e)),
        PercentForm::Inf(neg) => if room == 0 {
            0
        } else if neg {
            i32::MIN
        } else {
            i32::MAX
        },
        PercentForm::NaN => 0,
    }
}

/// The length a percentage gives of a side of `side` pixels, as `f64` arithmetic with
/// its saturating cast to `u32` gives it: a number scales the side (rounded half up,
/// computed exactly; negative gives 0); `inf` gives `u32::MAX`, or 0 for a side of 0;
/// `-inf` and NaN give 0.
pub open spec fn size_of_percent(p: PercentForm, side: nat) -> u32 {
    match p {
        PercentForm::Num(neg, ip, fp, e) => saturate_u32(neg, exp_magnitude(side, ip, fp, e)),
        PercentForm::Inf(neg) => if neg || side == 0 {
            0
        } else {
            u32::MAX
        },
        PercentForm::NaN => 0,
    }
}

/// The coordinate that a percentage text (without its `%`) gives within `room`
/// pixels (see [`position_of_percent`]); `None` when it is not a number.
pub fn percent_position_text(body: &[char], room: u32) -> (res: Option<i32>)
    ensures
        res == match float_parse(body@) {
            Some(p) => Some(position_of_percent(p, room as nat)),
            None => None::<i32>,
        },
{
    let ghost e = match float_parse(body@) {
        Some(PercentForm::Num(_, _, _, e)) => e,
        _ => 0int,
    };
    let t = match parse_float(body) {
        Some(t) => t,
        None => return None,
    };
    match t.kind {
        FloatKind::Inf => Some(
            if room == 0 {
                0
            } else if t.negative {
                i32::MIN
            } else {
                i32::MAX
            },
        ),
        FloatKind::NaN => Some(0),
        FloatKind::Num => match normalize(&t, Ghost(e)) {
            Scaled::Zero => {
                assert(exp_magnitude(room as nat, t.integral@, t.fractional@, e) == 0);
                Some(0)
            },
            Scaled::Huge => {
                if room == 0 {
                    proof {
                        lemma_exp_of_nothing(t.integral@, t.fractional@, e);
                    }
                    Some(0)
                } else {
                    assert(exp_magnitude(room as nat, t.integral@, t.fractional@, e)
                        >= 10_000_000_000);
                    Some(
                        if t.negative {
                            i32::MIN
                        } else {
                            i32::MAX
                        },
                    )
                }
            },
            Scaled::Exact(d) => {
                assert(exp_magnitude(room as nat, t.integral@, t.fractional@, e) == percent_magnitude(
                    room as nat,
                    d.integral@,
                    d.fractional@,
                ));
                let dec = Decimal { negative: t.negative, integral: d.integral, fractional: d.fractional };
                Some(percent_position(room, &dec))
            },
        },
    }
}

/// The length that a percentage text (without its `%`) gives of a side of `side`
/// pixels (see [`size_of_percent`]); `None` when it is not a number.
pub fn percent_size_text(body: &[char], side: u32) -> (res: Option<u32>)
    ensures
        res == match float_parse(body@) {
            Some(p) => Some(size_of_percent(p, side as nat)),
            None => None::<u32>,
        },
{
    let ghost e = match float_parse(body@) {
        Some(PercentForm::Num(_, _, _, e)) => e,
        _ => 0int,
    };
    let t = match parse_float(body) {
        Some(t) => t,
        None => return None,
    };
    match t.kind {
        FloatKind::Inf => Some(
            if t.negative || side == 0 {
                0
            } else {
                u32::MAX
            },
        ),
        FloatKind::NaN => Some(0),
        FloatKind::Num => match normalize(&t, Ghost(e)) {
            Scaled::Zero => {
                assert(exp_magnitude(side as nat, t.integral@, t.fractional@, e) == 0);
                Some(0)
            },
            Scaled::Huge => {
                if side == 0 || t.negative {
                    proof {
                        lemma_exp_of_nothing(t.integral@, t.fractional@, e);
                    }
                    Some(0)
                } else {
                    assert(exp_magnitude(side as nat, t.integral@, t.fractional@, e)
                        >= 10_000_000_000);
                    Some(u32::MAX)
                }
            },
            Scaled::Exact(d) => {
                assert(exp_magnitude(side as nat, t.integral@, t.fractional@, e) == percent_magnitude(
                    side as nat,
                    d.integral@,
                    d.fractional@,
                ));
                let dec = Decimal { negative: t.negative, integral: d.integral, fractional: d.fractional };
                Some(percent_size(side, &dec))
            },
        },
    }
}

/// The numerator of `ip.fp * 10^e`.
pub open spec fn exp_num(ip: Seq<char>, fp: Seq<char>, e: int) -> nat {
    scaled_value(ip, fp) * up_scale(e)
}

/// The denominator of `ip.fp * 10^e`.
pub open spec fn exp_den(fp: Seq<char>, e: int) -> nat {
    pow10(fp.len()) * down_scale(e)
}

pub proof fn lemma_exp_den_positive(fp: Seq<char>, e: int)
    ensures
        exp_den(fp, e) > 0,
{
    lemma_pow10_positive(fp.len());
    if e < 0 {
        lemma_pow10_positive((-e) as nat);
    }
    assert(down_scale(e) >= 1);
    assert(pow10(fp.len()) * down_scale(e) > 0) by (nonlinear_arith)
        requires
            pow10(fp.len()) >= 1,
            down_scale(e) >= 1,
    ;
}

/// The rounding of `a * num / den / 100` to the nearest whole number, halves up.
pub proof fn lemma_round_bounds(a: nat, num: nat, den: nat)
    requires
        den > 0,
    ensures
        percent_round(a, num, den) * 100 * den <= a * num + 50 * den,
        a * num + 50 * den < (percent_round(a, num, den) + 1) * 100 * den,
{
    let x = a * num + 50 * den;
    let d = 100 * den;
    let m = x / d;
    vstd::arithmetic::div_mod::lemma_fundamental_div_mod(x as int, d as int);
    assert(0 <= x % d < d) by {
        vstd::arithmetic::div_mod::lemma_mod_bound(x as int, d as int);
    }
    assert(m * 100 * den == d * m) by (nonlinear_arith)
        requires
            d == 100 * den,
    ;
    assert((m + 1) * 100 * den == d * m + d) by (nonlinear_arith)
        requires
            d == 100 * den,
    ;
}

/// A percentage from 0 to 100 keeps within the amount; 0 gives nothing and 100 the
/// whole amount.
pub proof fn law_round_range(a: nat, num: nat, den: nat)
    requires
        den > 0,
    ensures
        num <= 100 * den ==> percent_round(a, num, den) <= a,
        num == 0 ==> percent_round(a, num, den) == 0,
        num == 100 * den ==> percent_round(a, num, den) == a,
{
    lemma_round_bounds(a, num, den);
    let m = percent_round(a, num, den);
    if num <= 100 * den {
        assert(m <= a) by (nonlinear_arith)
            requires
                m * 100 * den <= a * num + 50 * den,
                num <= 100 * den,
                den > 0,
        ;
    }
    if num == 0 {
        assert(m == 0) by (nonlinear_arith)
            requires
                m * 100 * den <= a * num + 50 * den,
                num == 0,
                den > 0,
        ;
    }
    if num == 100 * den {
        assert(m == a) by (nonlinear_arith)
            requires
                m * 100 * den <= a * num + 50 * den,
                a * num + 50 * den < (m + 1) * 100 * den,
                num == 100 * den,
                den > 0,
        ;
    }
}

/// A larger percentage gives at least as much.
pub proof fn law_round_monotone(a: nat, num1: nat, den1: nat, num2: nat, den2: nat)
    requires
        den1 > 0,
        den2 > 0,
        num1 * den2 <= num2 * den1,
    ensures
        percent_round(a, num1, den1) <= percent_round(a, num2, den2),
{
    lemma_round_bounds(a, num1, den1);
    lemma_round_bounds(a, num2, den2);
    let m1 = percent_round(a, num1, den1);
    let m2 = percent_round(a, num2, den2);
    assert(m1 * 100 * den1 * den2 <= (a * num1 + 50 * den1) * den2) by (nonlinear_arith)
        requires
            m1 * 100 * den1 <= a * num1 + 50 * den1,
            den2 > 0,
    ;
    assert((a * num1 + 50 * den1) * den2 <= (a * num2 + 50 * den2) * den1) by (nonlinear_arith)
        requires
            num1 * den2 <= num2 * den1,
            den1 > 0,
            den2 > 0,
    ;
    assert((a * num2 + 50 * den2) * den1 < (m2 + 1) * 100 * den2 * den1) by (nonlinear_arith)
        requires
            a * num2 + 50 * den2 < (m2 + 1) * 100 * den2,
            den1 > 0,
    ;
    assert(m1 <= m2) by (nonlinear_arith)
        requires
            m1 * 100 * den1 * den2 < (m2 + 1) * 100 * den2 * den1,
            den1 > 0,
            den2 > 0,
    ;
}

} // verus!
