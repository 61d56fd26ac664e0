//! A quota percentage as the 64 bits of an IEEE 754 double: its value as an exact
//! fraction, the comparison with a whole number, and its notation with one decimal.
use vstd::arithmetic::div_mod::{lemma_fundamental_div_mod, lemma_fundamental_div_mod_converse};
use vstd::arithmetic::power2::{
    lemma2_to64, lemma2_to64_rest, lemma_pow2_adds, lemma_pow2_pos, lemma_pow2_strictly_increases,
    pow2,
};
use vstd::prelude::*;
use vstd::string::*;

use crate::text::{decimal, digit};

verus! {

/// A percentage, held as the bit pattern of a double-precision number.
#[derive(Debug, Clone, Copy)]
pub struct UsedPercent {
    pub bits: u64,
}

/// The pattern of the sign bit alone.
pub const SIGN_BIT: u64 = 0x8000_0000_0000_0000;

/// The pattern of positive infinity; every larger pattern below the sign bit is no number.
pub const INFINITE: u64 = 0x7ff0_0000_0000_0000;

/// The number of patterns that share one exponent.
pub const FRACTIONS: u64 = 0x0010_0000_0000_0000;

/// The value of the finite pattern `m`, which has no sign bit, times 2^1074: a whole number.
pub open spec fn scaled(m: int) -> nat {
    let exponent = m / (FRACTIONS as int);
    let fraction = m % (FRACTIONS as int);
    if exponent == 0 {
        fraction as nat
    } else {
        ((FRACTIONS + fraction) * pow2((exponent - 1) as nat)) as nat
    }
}

/// The nearest whole number of tenths to `n` / 2^1074; of two that are equally near, the
/// even one.
pub open spec fn nearest_tenths(n: nat) -> nat {
    let unit = pow2(1074);
    let whole = (n * 10) / unit;
    let rest = (n * 10) % unit;
    if 2 * rest > unit || (2 * rest == unit && whole % 2 == 1) {
        whole + 1
    } else {
        whole
    }
}

/// A number of tenths in decimal notation, with one digit behind the point.
pub open spec fn tenths_text(tenths: nat) -> Seq<char> {
    decimal(tenths / 10) + seq!['.', digit((tenths % 10) as int)]
}

impl UsedPercent {
    pub open spec fn is_negative(self) -> bool {
        self.bits >= SIGN_BIT
    }

    /// The pattern without its sign bit.
    pub open spec fn magnitude(self) -> int {
        if self.is_negative() {
            self.bits - SIGN_BIT
        } else {
            self.bits as int
        }
    }

    pub open spec fn is_nan(self) -> bool {
        self.magnitude() > INFINITE
    }

    /// Whether this is a number and no less than the positive whole number `n`.
    pub open spec fn at_least(self, n: nat) -> bool {
        &&& !self.is_negative()
        &&& !self.is_nan()
        &&& self.magnitude() == INFINITE || scaled(self.magnitude()) >= n * pow2(1074)
    }

    /// The percentage with one digit behind the point.
    pub open spec fn text(self) -> Seq<char> {
        if self.is_nan() {
            "NaN"@
        } else {
            let sign = if self.is_negative() {
                "-"@
            } else {
                ""@
            };
            if self.magnitude() == INFINITE {
                sign + "inf"@
            } else {
                sign + tenths_text(nearest_tenths(scaled(self.magnitude())))
            }
        }
    }
}

proof fn lemma_scaled_below(e: int, f: int)
    requires
        0 <= e,
        0 <= f < FRACTIONS,
    ensures
        scaled(e * FRACTIONS + f) == (if e == 0 {
            f as nat
        } else {
            ((FRACTIONS + f) * pow2((e - 1) as nat)) as nat
        }),
        scaled(e * FRACTIONS + f) < FRACTIONS * pow2(e as nat),
{
    lemma_fundamental_div_mod_converse(e * FRACTIONS + f, FRACTIONS as int, e, f);
    if e == 0 {
        lemma2_to64();
    } else {
        lemma_pow2_adds(1, (e - 1) as nat);
        lemma2_to64();
        lemma_pow2_pos((e - 1) as nat);
        let p = pow2((e - 1) as nat);
        assert((FRACTIONS + f) * p < (2 * FRACTIONS) * p) by (nonlinear_arith)
            requires
                0 <= f < FRACTIONS,
                p > 0,
        ;
        assert((2 * FRACTIONS) * p == FRACTIONS * (2 * p)) by (nonlinear_arith);
    }
}

/// A larger pattern is a larger number.
pub proof fn lemma_scaled_increases(a: int, b: int)
    requires
        0 <= a < b,
    ensures
        scaled(a) < scaled(b),
{
    let n = FRACTIONS as int;
    let (e, f) = (a / n, a % n);
    let (g, h) = (b / n, b % n);
    lemma_fundamental_div_mod(a, n);
    lemma_fundamental_div_mod(b, n);
    assert(a == e * FRACTIONS + f);
    assert(b == g * FRACTIONS + h);
    lemma_scaled_below(e, f);
    lemma_scaled_below(g, h);
    if e == g {
        if e > 0 {
            let p = pow2((e - 1) as nat);
            lemma_pow2_pos((e - 1) as nat);
            assert((FRACTIONS + f) * p < (FRACTIONS + h) * p) by (nonlinear_arith)
                requires
                    f < h,
                    p > 0,
            ;
        }
    } else {
        assert(e < g);
        let p = pow2((g - 1) as nat);
        assert(pow2(e as nat) <= p) by {
            if e < g - 1 {
                lemma_pow2_strictly_increases(e as nat, (g - 1) as nat);
            }
        }
        assert(FRACTIONS * pow2(e as nat) <= (FRACTIONS + h) * p) by (nonlinear_arith)
            requires
                0 < pow2(e as nat) <= p,
                0 <= h,
        ;
        lemma_pow2_pos(e as nat);
    }
}

/// The pattern whose significand is `n` * 2^46, with the exponent of 64 to 127, stands for the
/// whole number `n`.
proof fn lemma_scaled_whole(n: nat, pattern: int, fraction: int)
    requires
        0 <= fraction < FRACTIONS,
        pattern == 1029 * FRACTIONS + fraction,
        FRACTIONS + fraction == n * 0x4000_0000_0000,
    ensures
        scaled(pattern) == n * pow2(1074),
{
    lemma_scaled_below(1029, fraction);
    lemma_pow2_adds(46, 1028);
    lemma2_to64_rest();
    let p = pow2(1028);
    assert((n * 0x4000_0000_0000) * p == n * (0x4000_0000_0000 * p)) by (nonlinear_arith);
}

/// A pattern is no less than that of the whole number `n` exactly where its number is no less
/// than `n`.
proof fn lemma_pattern_at_least(p: UsedPercent, pattern: u64, n: nat)
    requires
        pattern < INFINITE,
        scaled(pattern as int) == n * pow2(1074),
    ensures
        p.at_least(n) == (pattern <= p.bits <= INFINITE),
{
    if p.bits < INFINITE {
        if p.bits < pattern {
            lemma_scaled_increases(p.bits as int, pattern as int);
        } else if pattern < p.bits {
            lemma_scaled_increases(pattern as int, p.bits as int);
        }
    }
}

/// The thresholds of the severities as patterns: 100, 90 and 75.
pub proof fn lemma_thresholds(p: UsedPercent)
    ensures
        p.at_least(100) == (0x4059_0000_0000_0000 <= p.bits <= INFINITE),
        p.at_least(90) == (0x4056_8000_0000_0000 <= p.bits <= INFINITE),
        p.at_least(75) == (0x4052_c000_0000_0000 <= p.bits <= INFINITE),
{
    lemma_scaled_whole(100, 0x4059_0000_0000_0000, 0x9_0000_0000_0000);
    lemma_scaled_whole(90, 0x4056_8000_0000_0000, 0x6_8000_0000_0000);
    lemma_scaled_whole(75, 0x4052_c000_0000_0000, 0x2_c000_0000_0000);
    lemma_pattern_at_least(p, 0x4059_0000_0000_0000, 100);
    lemma_pattern_at_least(p, 0x4056_8000_0000_0000, 90);
    lemma_pattern_at_least(p, 0x4052_c000_0000_0000, 75);
}

/// Two percentages are equal where both are numbers and the numbers are equal: the two zeros
/// are, and what is no number equals nothing.
impl PartialEq for UsedPercent {
    fn eq(&self, other: &Self) -> (r: bool) {
        let a: u64 = if self.bits >= SIGN_BIT { self.bits - SIGN_BIT } else { self.bits };
        let b: u64 = if other.bits >= SIGN_BIT { other.bits - SIGN_BIT } else { other.bits };
        a <= INFINITE && b <= INFINITE && (self.bits == other.bits || (a == 0 && b == 0))
    }
}

impl vstd::std_specs::cmp::PartialEqSpecImpl for UsedPercent {
    open spec fn obeys_eq_spec() -> bool {
        true
    }

    open spec fn eq_spec(&self, other: &Self) -> bool {
        &&& !self.is_nan()
        &&& !other.is_nan()
        &&& self.bits == other.bits || (self.magnitude() == 0 && other.magnitude() == 0)
    }
}

impl UsedPercent {
    pub fn from_bits(bits: u64) -> (r: Self)
        ensures
            r.bits == bits,
    {
        UsedPercent { bits }
    }

    /// Whether the percentage is 100 or more.
    pub fn at_least_100(self) -> (r: bool)
        ensures
            r == self.at_least(100),
    {
        proof {
            lemma_thresholds(self);
        }
        self.bits <= INFINITE && self.bits >= 0x4059_0000_0000_0000
    }

    /// Whether the percentage is 90 or more.
    pub fn at_least_90(self) -> (r: bool)
        ensures
            r == self.at_least(90),
    {
        proof {
            lemma_thresholds(self);
        }
        self.bits <= INFINITE && self.bits >= 0x4056_8000_0000_0000
    }

    /// Whether the percentage is 75 or more.
    pub fn at_least_75(self) -> (r: bool)
        ensures
            r == self.at_least(75),
    {
        proof {
            lemma_thresholds(self);
        }
        self.bits <= INFINITE && self.bits >= 0x4052_c000_0000_0000
    }
}

/// The number that decimal digits write, the least significant digit first.
spec fn number(d: Seq<u8>) -> nat
    decreases d.len(),
{
    if d.len() == 0 {
        0
    } else {
        d[0] as nat + 10 * number(d.drop_first())
    }
}

/// Digits below ten, at least one of them, and no zero in the most significant place.
spec fn is_notation(d: Seq<u8>) -> bool {
    &&& d.len() > 0
    &&& d.last() > 0
    &&& forall|i: int| 0 <= i < d.len() ==> #[trigger] d[i] < 10
}

/// The digits of twice the number and `carry`.
spec fn doubled(d: Seq<u8>, carry: nat) -> Seq<u8>
    decreases d.len(),
{
    if d.len() == 0 {
        if carry == 0 {
            Seq::empty()
        } else {
            seq![carry as u8]
        }
    } else {
        seq![((2 * d[0] + carry) % 10) as u8] + doubled(
            d.drop_first(),
            ((2 * d[0] + carry) / 10) as nat,
        )
    }
}

proof fn lemma_doubled(d: Seq<u8>, carry: nat)
    requires
        carry <= 1,
        forall|i: int| 0 <= i < d.len() ==> #[trigger] d[i] < 10,
    ensures
        number(doubled(d, carry)) == 2 * number(d) + carry,
        d.len() > 0 && d.last() > 0 ==> is_notation(doubled(d, carry)),
        forall|i: int| 0 <= i < doubled(d, carry).len() ==> #[trigger] doubled(d, carry)[i] < 10,
        carry > 0 && d.len() == 0 ==> is_notation(doubled(d, carry)),
        doubled(d, carry).len() >= d.len(),
    decreases d.len(),
{
    if d.len() == 0 {
        if carry > 0 {
            let s = seq![carry as u8];
            assert(s.drop_first() =~= Seq::<u8>::empty());
            assert(number(s.drop_first()) == 0);
        }
    } else {
        let rest = d.drop_first();
        let next = ((2 * d[0] + carry) / 10) as nat;
        let low = ((2 * d[0] + carry) % 10) as u8;
        assert(forall|i: int| 0 <= i < rest.len() ==> #[trigger] rest[i] == d[i + 1]);
        lemma_doubled(rest, next);
        let out = doubled(d, carry);
        let tail = doubled(rest, next);
        assert(out =~= seq![low] + tail);
        assert(out.drop_first() =~= tail);
        assert(number(out) == low as nat + 10 * number(tail));
        assert(number(d) == d[0] as nat + 10 * number(rest));
        assert(10 * next + low == 2 * d[0] + carry);
        assert forall|i: int| 0 <= i < out.len() implies #[trigger] out[i] < 10 by {
            if i > 0 {
                assert(out[i] == tail[i - 1]);
            }
        }
        if d.last() > 0 {
            if rest.len() > 0 {
                assert(rest.last() == d.last());
                assert(out.last() == tail.last());
            } else if next > 0 {
                assert(out.last() == tail.last());
            } else {
                assert(tail =~= Seq::<u8>::empty());
                assert(out.last() == low);
            }
        }
    }
}

fn double(d: &Vec<u8>) -> (out: Vec<u8>)
    requires
        is_notation(d@),
    ensures
        is_notation(out@),
        number(out@) == 2 * number(d@),
{
    let mut out: Vec<u8> = Vec::new();
    let mut carry: u8 = 0;
    let mut i: usize = 0;
    assert(d@.skip(0) =~= d@);
    assert(Seq::<u8>::empty() + doubled(d@, 0) =~= doubled(d@, 0));
    while i < d.len()
        invariant
            i <= d.len(),
            carry <= 1,
            is_notation(d@),
            doubled(d@, 0) == out@ + doubled(d@.skip(i as int), carry as nat),
        decreases d.len() - i,
    {
        let ghost before = out@;
        let ghost rest = d@.skip(i as int);
        assert(d@[i as int] < 10);
        let n: u8 = 2 * d[i] + carry;
        out.push(n % 10);
        carry = n / 10;
        i = i + 1;
        assert(rest.drop_first() =~= d@.skip(i as int));
        assert(before + (seq![n % 10] + doubled(d@.skip(i as int), carry as nat)) =~= out@
            + doubled(d@.skip(i as int), carry as nat));
    }
    assert(d@.skip(i as int) =~= Seq::<u8>::empty());
    let ghost before = out@;
    if carry > 0 {
        out.push(carry);
        assert(out@ =~= before + seq![carry]);
    } else {
        assert(out@ =~= before + Seq::<u8>::empty());
    }
    proof {
        lemma_doubled(d@, 0);
    }
    out
}

fn notation(n: u64) -> (out: Vec<u8>)
    requires
        n > 0,
    ensures
        is_notation(out@),
        number(out@) == n,
    decreases n,
{
    let low: u8 = (n % 10) as u8;
    let mut out: Vec<u8> = Vec::new();
    out.push(low);
    let ghost first = out@;
    if n >= 10 {
        let mut rest = notation(n / 10);
        let ghost tail = rest@;
        out.append(&mut rest);
        assert(out@ =~= first + tail);
        assert(out@.drop_first() =~= tail);
        assert(out@.last() == tail.last());
        assert forall|i: int| 0 <= i < out@.len() implies #[trigger] out@[i] < 10 by {
            if i > 0 {
                assert(out@[i] == tail[i - 1]);
            }
        }
    } else {
        assert(out@.drop_first() =~= Seq::<u8>::empty());
        assert(number(out@.drop_first()) == 0);
    }
    out
}

spec fn notation_text(d: Seq<u8>) -> Seq<char>
    decreases d.len(),
{
    if d.len() == 0 {
        Seq::empty()
    } else {
        notation_text(d.drop_first()).push(digit(d[0] as int))
    }
}

proof fn lemma_notation_text(d: Seq<u8>)
    requires
        is_notation(d),
    ensures
        notation_text(d) == decimal(number(d)),
        number(d) > 0,
    decreases d.len(),
{
    let rest = d.drop_first();
    assert(d[0] < 10);
    if d.len() == 1 {
        assert(rest =~= Seq::<u8>::empty());
        assert(number(rest) == 0);
        assert(notation_text(rest) =~= Seq::<char>::empty());
        assert(notation_text(d) =~= decimal(number(d)));
    } else {
        assert(forall|i: int| 0 <= i < rest.len() ==> #[trigger] rest[i] == d[i + 1]);
        lemma_notation_text(rest);
        assert(number(d) / 10 == number(rest));
        assert(number(d) % 10 == d[0]);
    }
}

fn push_notation(s: &mut String, d: &Vec<u8>)
    requires
        is_notation(d@),
    ensures
        final(s)@ == old(s)@ + decimal(number(d@)),
{
    let mut i: usize = d.len();
    assert(d@.skip(d@.len() as int) =~= Seq::<u8>::empty());
    assert(s@ =~= old(s)@ + notation_text(d@.skip(i as int)));
    while i > 0
        invariant
            i <= d.len(),
            is_notation(d@),
            s@ == old(s)@ + notation_text(d@.skip(i as int)),
        decreases i,
    {
        i = i - 1;
        assert(d@[i as int] < 10);
        s.push((48u8 + d[i]) as char);
        assert(d@.skip(i as int).drop_first() =~= d@.skip(i + 1));
        assert(s@ =~= old(s)@ + notation_text(d@.skip(i as int)));
    }
    assert(d@.skip(0) =~= d@);
    proof {
        lemma_notation_text(d@);
    }
}

/// A whole number has no tenths.
proof fn lemma_whole_tenths(m: int, e: int, f: int)
    requires
        1075 <= e,
        0 <= f < FRACTIONS,
        m == e * FRACTIONS + f,
    ensures
        nearest_tenths(scaled(m)) == 10 * (FRACTIONS + f) * pow2((e - 1075) as nat),
{
    lemma_scaled_below(e, f);
    lemma_pow2_adds((e - 1075) as nat, 1074);
    lemma_pow2_pos(1074);
    let unit = pow2(1074) as int;
    let p = pow2((e - 1075) as nat) as int;
    let n = scaled(m) * 10;
    assert(n == (10 * (FRACTIONS + f) * p) * unit) by (nonlinear_arith)
        requires
            n == ((FRACTIONS + f) * (p * unit)) * 10,
    ;
    lemma_fundamental_div_mod_converse(n as int, unit, 10 * (FRACTIONS + f) * p, 0);
}

/// The nearest number of tenths of `mantissa` / 2^`s`.
proof fn lemma_part_tenths(n: nat, mantissa: nat, k: nat, s: nat)
    requires
        n == mantissa * pow2(k),
        k + s == 1074,
    ensures
        ({
            let whole = (mantissa * 10) / pow2(s);
            let rest = (mantissa * 10) % pow2(s);
            nearest_tenths(n) == if 2 * rest > pow2(s) || (2 * rest == pow2(s) && whole % 2 == 1) {
                whole + 1
            } else {
                whole
            }
        }),
{
    let whole = ((mantissa * 10) / pow2(s)) as int;
    let rest = ((mantissa * 10) % pow2(s)) as int;
    let unit = pow2(1074) as int;
    let p = pow2(k) as int;
    let d = pow2(s) as int;
    lemma_pow2_adds(k, s);
    lemma_pow2_pos(k);
    lemma_pow2_pos(s);
    lemma_fundamental_div_mod((mantissa * 10) as int, d);
    assert(n * 10 == whole * unit + rest * p) by (nonlinear_arith)
        requires
            n == mantissa * p,
            unit == p * d,
            mantissa * 10 == d * whole + rest,
    ;
    assert(0 <= rest * p < unit) by (nonlinear_arith)
        requires
            0 <= rest < d,
            unit == p * d,
            p > 0,
    ;
    lemma_fundamental_div_mod_converse((n * 10) as int, unit, whole, rest * p);
    assert((2 * (rest * p) > unit) == (2 * rest > d)) by (nonlinear_arith)
        requires
            unit == p * d,
            p > 0,
    ;
    assert((2 * (rest * p) == unit) == (2 * rest == d)) by (nonlinear_arith)
        requires
            unit == p * d,
            p > 0,
    ;
}

/// A positive whole number with a zero behind the point.
fn push_whole(s: &mut String, m: u64)
    requires
        1075 * FRACTIONS <= m < INFINITE,
    ensures
        final(s)@ == old(s)@ + tenths_text(nearest_tenths(scaled(m as int))),
{
    let e: u64 = m / FRACTIONS;
    let f: u64 = m % FRACTIONS;
    let mut d = notation(FRACTIONS + f);
    let mut i: u64 = 1075;
    proof {
        lemma2_to64();
        assert((FRACTIONS + f) * pow2(0) == FRACTIONS + f) by (nonlinear_arith)
            requires
                pow2(0) == 1,
        ;
    }
    while i < e
        invariant
            1075 <= i <= e,
            f < FRACTIONS,
            is_notation(d@),
            number(d@) == (FRACTIONS + f) * pow2((i - 1075) as nat),
        decreases e - i,
    {
        proof {
            lemma_pow2_adds(1, (i - 1075) as nat);
            lemma2_to64();
            let p = pow2((i - 1075) as nat);
            assert(2 * ((FRACTIONS + f) * p) == (FRACTIONS + f) * (2 * p)) by (nonlinear_arith);
        }
        d = double(&d);
        i = i + 1;
    }
    let ghost before = s@;
    push_notation(s, &d);
    s.append(".0");
    proof {
        reveal_strlit(".0");
        lemma_fundamental_div_mod(m as int, FRACTIONS as int);
        lemma_whole_tenths(m as int, e as int, f as int);
        let v = number(d@) as int;
        let tenths = nearest_tenths(scaled(m as int));
        assert(10 * (FRACTIONS + f) * pow2((e - 1075) as nat) == 10 * v) by (nonlinear_arith)
            requires
                v == (FRACTIONS + f) * pow2((e - 1075) as nat),
        ;
        assert(tenths / 10 == v && tenths % 10 == 0);
        assert(s@ =~= before + tenths_text(tenths));
    }
}

/// A number below 2^53, to the nearest tenth.
fn push_part(s: &mut String, m: u64)
    requires
        m < 1075 * FRACTIONS,
    ensures
        final(s)@ == old(s)@ + tenths_text(nearest_tenths(scaled(m as int))),
{
    let e: u64 = m / FRACTIONS;
    let f: u64 = m % FRACTIONS;
    let mantissa: u64 = if e == 0 { f } else { FRACTIONS + f };
    let k: u64 = if e == 0 { 0 } else { e - 1 };
    let shift: u64 = 1074 - k;
    let ghost n = scaled(m as int);
    proof {
        lemma_fundamental_div_mod(m as int, FRACTIONS as int);
        lemma_scaled_below(e as int, f as int);
        lemma2_to64();
        lemma_part_tenths(n, mantissa as nat, k as nat, shift as nat);
    }
    let mut tenths: u64 = 0;
    if shift < 58 {
        let mut unit: u64 = 1;
        let mut i: u64 = 0;
        while i < shift
            invariant
                i <= shift < 58,
                unit == pow2(i as nat),
            decreases shift - i,
        {
            proof {
                lemma_pow2_adds(1, i as nat);
                lemma2_to64();
                lemma2_to64_rest();
                if i < 57 {
                    lemma_pow2_strictly_increases(i as nat, 57);
                }
            }
            unit = unit * 2;
            i = i + 1;
        }
        proof {
            lemma_pow2_pos(shift as nat);
        }
        let whole: u64 = (mantissa * 10) / unit;
        let rest: u64 = (mantissa * 10) % unit;
        tenths = whole;
        if rest > unit - rest || (rest == unit - rest && whole % 2 == 1) {
            assert(unit > 1) by {
                lemma2_to64();
            }
            tenths = whole + 1;
        }
    } else {
        proof {
            let d = pow2(shift as nat) as int;
            lemma2_to64();
            lemma2_to64_rest();
            if shift > 58 {
                lemma_pow2_strictly_increases(58, shift as nat);
            }
            lemma_fundamental_div_mod_converse(mantissa * 10, d, 0, mantissa * 10);
        }
    }
    assert(tenths == nearest_tenths(n));
    let ghost before = s@;
    let whole = crate::text::from_u64(tenths / 10);
    s.append(whole.as_str());
    s.push('.');
    s.push((48u8 + (tenths % 10) as u8) as char);
    assert(s@ =~= before + tenths_text(tenths as nat));
}

impl UsedPercent {
    /// The percentage with one digit behind the point.
    pub fn to_text(self) -> (r: String)
        ensures
            r@ == self.text(),
    {
        let negative = self.bits >= SIGN_BIT;
        let m: u64 = if negative { self.bits - SIGN_BIT } else { self.bits };
        if m > INFINITE {
            return "NaN".to_string();
        }
        let mut r = (if negative { "-" } else { "" }).to_string();
        if m == INFINITE {
            r.append("inf");
        } else if m >= 1075 * FRACTIONS {
            push_whole(&mut r, m);
        } else {
            push_part(&mut r, m);
        }
        r
    }
}

/// The tenths that a number is shown by are the nearest to it, and of two that are equally near the
/// even one.
pub proof fn lemma_nearest_tenths(n: nat)
    ensures
        ({
            let unit = pow2(1074) as int;
            let off = n * 10 - nearest_tenths(n) * unit;
            &&& -unit <= 2 * off <= unit
            &&& 2 * off == unit || 2 * off == -unit ==> nearest_tenths(n) % 2 == 0
        }),
{
    lemma_pow2_pos(1074);
    let unit = pow2(1074) as int;
    let whole = (n * 10) as int / unit;
    let rest = (n * 10) as int % unit;
    lemma_fundamental_div_mod((n * 10) as int, unit);
    assert(0 <= rest < unit);
    assert(n * 10 == unit * whole + rest);
    assert(whole * unit == unit * whole) by (nonlinear_arith);
    assert((whole + 1) * unit == unit * whole + unit) by (nonlinear_arith);
}

/// A percentage is shown by a sign where it is negative, whole digits, a point and one digit behind
/// it; what is no number, and what is infinite, by a word.
pub proof fn lemma_percent_texts(p: UsedPercent)
    requires
        !p.is_nan(),
        p.magnitude() < INFINITE,
    ensures
        ({
            let text = p.text();
            let n = text.len() as int;
            let tenths = nearest_tenths(scaled(p.magnitude()));
            let shown = decimal(tenths / 10) + seq!['.', digit((tenths % 10) as int)];
            &&& p.is_negative() ==> text == seq!['-'] + shown
            &&& !p.is_negative() ==> text == shown
        }),
{
    reveal_strlit("-");
    reveal_strlit("");
    assert("-"@ =~= seq!['-']);
    assert(""@ + tenths_text(nearest_tenths(scaled(p.magnitude()))) =~= tenths_text(
        nearest_tenths(scaled(p.magnitude())),
    ));
}

/// What is no number and what is infinite have their own words.
pub proof fn lemma_percent_words(p: UsedPercent)
    ensures
        p.is_nan() <==> (0x7ff0_0000_0000_0000 < p.bits < 0x8000_0000_0000_0000 || p.bits
            > 0xfff0_0000_0000_0000),
        p.is_nan() ==> p.text() == "NaN"@,
        p.bits == 0x7ff0_0000_0000_0000 ==> p.text() == "inf"@,
        p.bits == 0xfff0_0000_0000_0000 ==> p.text() == "-"@ + "inf"@,
{
    reveal_strlit("");
    assert(""@ + "inf"@ =~= "inf"@);
}

} // verus!
