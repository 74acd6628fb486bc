use vstd::prelude::*;
use vstd::arithmetic::power2::{pow2, lemma_pow2_unfold, lemma_pow2_adds, lemma_pow2_strictly_increases, lemma2_to64, lemma2_to64_rest};
use vstd::arithmetic::div_mod::lemma_fundamental_div_mod_converse;
use crate::text::push_char;
use core::cmp::Ordering;

verus! {

/// The IEEE-754 bit pattern of a double that is positive or negative zero.
pub open spec fn is_zero_bits(bits: u64) -> bool {
    bits == 0 || bits == 0x8000_0000_0000_0000
}

/// The IEEE-754 bit pattern of a double that is not a number: all exponent
/// bits set and a nonzero fraction.
pub open spec fn is_nan_bits(bits: u64) -> bool {
    (bits / 0x10_0000_0000_0000) % 0x800 == 0x7ff && bits % 0x10_0000_0000_0000 != 0
}

/// A double as the runtime sees it: its IEEE-754 bit pattern and the decimal
/// text that stands for it in a literal. The text is the standard decimal
/// rendering of the double (what `f64`'s `Display` writes); values are
/// compared and tested for emptiness by `bits`, and written out by `text`.
#[derive(Debug)]
pub struct Double {
    pub bits: u64,
    pub text: String,
}

impl Double {
    /// Pairs a bit pattern with its decimal text.
    pub fn new(bits: u64, text: String) -> (r: Double)
        ensures
            r.bits == bits,
            r.text == text,
    {
        Double { bits, text }
    }

    /// Whether the double is zero, of either sign.
    pub fn is_zero(&self) -> (r: bool)
        ensures
            r == is_zero_bits(self.bits),
    {
        self.bits == 0 || self.bits == 0x8000_0000_0000_0000
    }

    /// Whether the double is not a number.
    pub fn is_nan(&self) -> (r: bool)
        ensures
            r == is_nan_bits(self.bits),
    {
        (self.bits / 0x10_0000_0000_0000) % 0x800 == 0x7ff && self.bits % 0x10_0000_0000_0000 != 0
    }
}

impl Clone for Double {
    fn clone(&self) -> (r: Double)
        ensures
            r.bits == self.bits,
            r.text@ == self.text@,
    {
        Double { bits: self.bits, text: self.text.clone() }
    }
}

/// Floating-point equality: no NaN equals anything, the two zeros are equal,
/// and otherwise equal doubles have equal bit patterns.
pub open spec fn double_eq(a: u64, b: u64) -> bool {
    !is_nan_bits(a) && !is_nan_bits(b) && (a == b || (is_zero_bits(a) && is_zero_bits(b)))
}

/// The position of a double that is not a number on the number line, with
/// both zeros at 0: the magnitude bits, negated when the sign bit is set.
pub open spec fn double_key(bits: u64) -> int {
    if bits >= 0x8000_0000_0000_0000 {
        -(bits - 0x8000_0000_0000_0000)
    } else {
        bits as int
    }
}

/// Floating-point order: none where either side is not a number, else the
/// order of the two values on the number line.
pub open spec fn double_cmp(a: u64, b: u64) -> Option<Ordering> {
    if is_nan_bits(a) || is_nan_bits(b) {
        None
    } else if double_key(a) < double_key(b) {
        Some(Ordering::Less)
    } else if double_key(a) > double_key(b) {
        Some(Ordering::Greater)
    } else {
        Some(Ordering::Equal)
    }
}

fn key(bits: u64) -> (r: i64)
    ensures
        r == double_key(bits),
{
    if bits >= 0x8000_0000_0000_0000 {
        -((bits - 0x8000_0000_0000_0000) as i64)
    } else {
        bits as i64
    }
}

impl Double {
    /// Compares two doubles as floating-point numbers.
    pub fn compare(&self, other: &Double) -> (r: Option<Ordering>)
        ensures
            r == double_cmp(self.bits, other.bits),
    {
        if self.is_nan() || other.is_nan() {
            return None;
        }
        let a = key(self.bits);
        let b = key(other.bits);
        if a < b {
            Some(Ordering::Less)
        } else if a > b {
            Some(Ordering::Greater)
        } else {
            Some(Ordering::Equal)
        }
    }
}

impl PartialOrd for Double {
    fn partial_cmp(&self, other: &Double) -> (r: Option<Ordering>) {
        self.compare(other)
    }
}

impl vstd::std_specs::cmp::PartialOrdSpecImpl for Double {
    open spec fn obeys_partial_cmp_spec() -> bool {
        true
    }

    open spec fn partial_cmp_spec(&self, other: &Double) -> Option<Ordering> {
        double_cmp(self.bits, other.bits)
    }
}

impl PartialEq for Double {
    fn eq(&self, other: &Double) -> (r: bool) {
        !self.is_nan() && !other.is_nan() && (self.bits == other.bits || (self.is_zero()
            && other.is_zero()))
    }
}

impl vstd::std_specs::cmp::PartialEqSpecImpl for Double {
    open spec fn obeys_eq_spec() -> bool {
        true
    }

    open spec fn eq_spec(&self, other: &Double) -> bool {
        double_eq(self.bits, other.bits)
    }
}

/// The bit pattern of the double equal to the integer `n`, for `n` of at
/// most 53 bits: zero is all bits clear; otherwise the sign bit tells the
/// sign, and the biased exponent `e` and fraction `f` give
/// `(2^52 + f) * 2^(e - 1023) == |n| * 2^52`.
pub open spec fn represents_int(bits: u64, n: int) -> bool {
    if n == 0 {
        bits == 0
    } else {
        let sign = bits / 0x8000_0000_0000_0000;
        let e = (bits / 0x10_0000_0000_0000) % 0x800;
        let f = bits % 0x10_0000_0000_0000;
        &&& sign == (if n < 0 { 1int } else { 0int })
        &&& 1023 <= e <= 1075
        &&& (0x10_0000_0000_0000 + f) * pow2((e - 1023) as nat) == (if n < 0 { -n } else { n })
            * 0x10_0000_0000_0000
    }
}

/// How many doublings bring a positive `m` to at least `2^52`.
pub open spec fn shift(m: nat) -> nat
    decreases 0x10_0000_0000_0000 - m,
{
    if m == 0 || m >= 0x10_0000_0000_0000 {
        0
    } else if 2 * m >= 0x10_0000_0000_0000 {
        1
    } else {
        1 + shift(2 * m)
    }
}

/// The bit pattern of the double equal to the integer `n`, for `n` of at
/// most 53 bits.
pub open spec fn int_bits_of(n: int) -> u64 {
    if n == 0 {
        0
    } else {
        let a: nat = (if n < 0 { -n } else { n }) as nat;
        let k = shift(a);
        ((if n < 0 { 0x8000_0000_0000_0000int } else { 0int }) + (1075 - k)
            * 0x10_0000_0000_0000 + (a * pow2(k) - 0x10_0000_0000_0000)) as u64
    }
}

/// The decimal digit `d` as a character.
pub open spec fn digit_char(d: int) -> char {
    if d == 0 { '0' } else if d == 1 { '1' } else if d == 2 { '2' } else if d == 3 { '3' }
    else if d == 4 { '4' } else if d == 5 { '5' } else if d == 6 { '6' } else if d == 7 { '7' }
    else if d == 8 { '8' } else { '9' }
}

/// The decimal digits of `n`, most significant first, without leading zeros.
pub open spec fn digits(n: nat) -> Seq<char>
    decreases n,
{
    if n < 10 {
        seq![digit_char(n as int)]
    } else {
        digits(n / 10).push(digit_char((n % 10) as int))
    }
}

/// The decimal text of an integer: its digits, after a minus sign when it
/// is negative.
pub open spec fn decimal(n: int) -> Seq<char> {
    if n < 0 {
        seq!['-'] + digits((-n) as nat)
    } else {
        digits(n as nat)
    }
}

fn digit(d: u64) -> (c: char)
    requires
        d < 10,
    ensures
        c == digit_char(d as int),
{
    if d == 0 { '0' } else if d == 1 { '1' } else if d == 2 { '2' } else if d == 3 { '3' }
    else if d == 4 { '4' } else if d == 5 { '5' } else if d == 6 { '6' } else if d == 7 { '7' }
    else if d == 8 { '8' } else { '9' }
}

fn push_digits(out: &mut String, n: u64)
    ensures
        final(out)@ == old(out)@ + digits(n as nat),
    decreases n,
{
    if n >= 10 {
        push_digits(out, n / 10);
    }
    push_char(out, digit(n % 10));
    proof {
        if n >= 10 {
            assert(old(out)@ + digits(n as nat) == old(out)@ + digits((n / 10) as nat) + seq![digit_char((n % 10) as int)]);
        }
    }
}

/// The bit pattern of the double that equals `n`.
fn int_bits(n: i32) -> (r: u64)
    ensures
        r == int_bits_of(n as int),
        represents_int(r, n as int),
{
    if n == 0 {
        return 0;
    }
    let neg = n < 0;
    let abs: u64 = if neg { (-(n as i64)) as u64 } else { n as u64 };
    proof {
        lemma2_to64();
        lemma2_to64_rest();
    }
    let mut m: u64 = abs;
    let mut k: u64 = 0;
    while m < 0x10_0000_0000_0000
        invariant
            1 <= abs <= 0x8000_0000,
            k <= 52,
            m == abs * pow2(k as nat),
            0 < m < 0x20_0000_0000_0000,
            pow2(52) == 0x10_0000_0000_0000,
            k + shift(m as nat) == shift(abs as nat),
        decreases 52 - k,
    {
        proof {
            if k >= 52 {
                lemma_pow2_strictly_increases(51, k as nat);
                assert(abs * pow2(k as nat) >= pow2(k as nat)) by (nonlinear_arith)
                    requires abs >= 1, pow2(k as nat) > 0;
            }
            lemma_pow2_unfold((k + 1) as nat);
            assert(abs * pow2((k + 1) as nat) == 2 * (abs * pow2(k as nat))) by (nonlinear_arith)
                requires pow2((k + 1) as nat) == 2 * pow2(k as nat);
        }
        m = m * 2;
        k = k + 1;
    }
    let e: u64 = 1075 - k;
    let f: u64 = m - 0x10_0000_0000_0000;
    let sign: u64 = if neg { 1 } else { 0 };
    let r: u64 = sign * 0x8000_0000_0000_0000 + e * 0x10_0000_0000_0000 + f;
    proof {
        let d: int = 0x10_0000_0000_0000;
        lemma_fundamental_div_mod_converse(r as int, d, sign * 0x800 + e, f as int);
        lemma_fundamental_div_mod_converse((sign * 0x800 + e) as int, 0x800, sign as int, e as int);
        lemma_fundamental_div_mod_converse(r as int, 0x8000_0000_0000_0000, sign as int, e * d + f);
        lemma_pow2_adds(k as nat, (e - 1023) as nat);
        assert((d + f) * pow2((e - 1023) as nat) == abs * pow2(k as nat) * pow2((e - 1023) as nat));
        assert(abs * pow2(k as nat) * pow2((e - 1023) as nat) == abs * (pow2(k as nat) * pow2((e - 1023) as nat))) by (nonlinear_arith);
    }
    r
}

impl Double {
    /// The double equal to the integer `n`, with its decimal text.
    pub fn from_int(n: i32) -> (r: Double)
        ensures
            r.bits == int_bits_of(n as int),
            represents_int(r.bits, n as int),
            r.text@ == decimal(n as int),
    {
        let bits = int_bits(n);
        let mut text = String::new();
        let abs: u64 = if n < 0 {
            push_char(&mut text, '-');
            (-(n as i64)) as u64
        } else {
            n as u64
        };
        push_digits(&mut text, abs);
        Double { bits, text }
    }
}

} // verus!
