//! Floating-point numbers, carried by their bit patterns or as text.

use vstd::arithmetic::power2::*;
use vstd::prelude::*;

use crate::text::{self, char_is_digit, char_upper, chars_of};

verus! {

/// An IEEE 754 binary64 number by its bit pattern: sign, eleven exponent bits,
/// fifty-two fraction bits.
#[derive(Debug, Clone, Copy, Default)]
pub struct Binary64 {
    pub bits: u64,
}

/// An IEEE 754 binary32 number by its bit pattern.
#[derive(Debug, Clone, Copy, PartialEq, Eq, Default, Structural)]
pub struct Binary32 {
    pub bits: u32,
}

impl Binary64 {
    pub open spec fn negative(self) -> bool {
        self.bits >= 0x8000_0000_0000_0000
    }

    pub open spec fn exponent(self) -> int {
        (self.bits as int / 0x10_0000_0000_0000) % 0x800
    }

    pub open spec fn fraction(self) -> int {
        self.bits as int % 0x10_0000_0000_0000
    }

    /// Neither infinite nor not-a-number.
    pub open spec fn finite(self) -> bool {
        self.exponent() != 0x7ff
    }

    /// Not a number.
    pub open spec fn nan(self) -> bool {
        self.exponent() == 0x7ff && self.fraction() != 0
    }

    /// Zero, with either sign.
    pub open spec fn zero(self) -> bool {
        self.exponent() == 0 && self.fraction() == 0
    }

    /// The magnitude of a finite number as a multiple of the smallest positive
    /// one, which is two to the power of -1074.
    pub open spec fn magnitude(self) -> nat {
        if self.exponent() == 0 {
            self.fraction() as nat
        } else {
            ((0x10_0000_0000_0000 + self.fraction()) * pow2((self.exponent() - 1) as nat)) as nat
        }
    }

    /// Finite and greater than zero.
    pub open spec fn finite_positive(self) -> bool {
        self.finite() && !self.negative() && self.magnitude() > 0
    }

    /// Finite and at least one.
    pub open spec fn finite_at_least_one(self) -> bool {
        self.finite() && !self.negative() && self.magnitude() >= pow2(1074)
    }

    pub fn is_finite_positive(&self) -> (r: bool)
        ensures
            r == self.finite_positive(),
    {
        proof {
            let b = self.bits as int;
            if self.exponent() != 0 {
                lemma_pow2_pos((self.exponent() - 1) as nat);
                assert((0x10_0000_0000_0000 + self.fraction()) * pow2((self.exponent() - 1) as nat) > 0)
                    by (nonlinear_arith)
                    requires
                        self.fraction() >= 0,
                        pow2((self.exponent() - 1) as nat) > 0,
                ;
            }
        }
        0 < self.bits && self.bits < 0x7ff0_0000_0000_0000
    }

    pub fn is_finite_at_least_one(&self) -> (r: bool)
        ensures
            r == self.finite_at_least_one(),
    {
        proof {
            lemma_at_least_one(*self);
        }
        0x3ff0_0000_0000_0000 <= self.bits && self.bits < 0x7ff0_0000_0000_0000
    }
}

/// Equality of numbers: the two zeros are equal, and what is not a number equals
/// nothing.
pub open spec fn same_number(x: Binary64, y: Binary64) -> bool {
    !x.nan() && !y.nan() && (x.bits == y.bits || (x.zero() && y.zero()))
}

impl PartialEq for Binary64 {
    fn eq(&self, other: &Binary64) -> (r: bool) {
        let x: u64 = self.bits % 0x8000_0000_0000_0000;
        let y: u64 = other.bits % 0x8000_0000_0000_0000;
        x <= 0x7ff0_0000_0000_0000 && y <= 0x7ff0_0000_0000_0000 && (self.bits == other.bits || (x
            == 0 && y == 0))
    }
}

impl vstd::std_specs::cmp::PartialEqSpecImpl for Binary64 {
    open spec fn obeys_eq_spec() -> bool {
        true
    }

    open spec fn eq_spec(&self, other: &Binary64) -> bool {
        same_number(*self, *other)
    }
}

/// The numbers from one on are those with an exponent field of at least 1023.
proof fn lemma_at_least_one(x: Binary64)
    ensures
        x.magnitude() >= pow2(1074) <==> x.exponent() >= 1023,
{
    let e = x.exponent();
    let f = x.fraction();
    lemma2_to64();
    lemma2_to64_rest();
    assert(pow2(52) == 0x10_0000_0000_0000);
    if e == 0 {
        lemma_pow2_strictly_increases(52, 1074);
    } else if e >= 1023 {
        let p = pow2((e - 1) as nat);
        lemma_pow2_adds(52, 1022);
        if e > 1023 {
            lemma_pow2_strictly_increases(1022, (e - 1) as nat);
        }
        assert((0x10_0000_0000_0000 + f) * p >= 0x10_0000_0000_0000 * pow2(1022)) by (nonlinear_arith)
            requires
                f >= 0,
                p >= pow2(1022),
        ;
    } else {
        let p = pow2((e - 1) as nat);
        lemma_pow2_adds(53, 1021);
        if e < 1022 {
            lemma_pow2_strictly_increases((e - 1) as nat, 1021);
        }
        assert(pow2(53) == 0x20_0000_0000_0000);
        lemma_pow2_pos(1021);
        assert((0x10_0000_0000_0000 + f) * p < 0x20_0000_0000_0000 * pow2(1021)) by (nonlinear_arith)
            requires
                0 <= f < 0x10_0000_0000_0000,
                0 < pow2(1021),
                p <= pow2(1021),
        ;
    }
}

// ---------------------------------------------------------------------------
// Numbers as text
// ---------------------------------------------------------------------------

/// Decimal digits with at most one point among them, and at least one digit.
pub open spec fn is_mantissa(s: Seq<char>) -> bool {
    &&& forall|i: int| 0 <= i < s.len() ==> text::is_digit(#[trigger] s[i]) || s[i] == '.'
    &&& exists|i: int| 0 <= i < s.len() && text::is_digit(#[trigger] s[i])
    &&& forall|i: int, j: int|
        0 <= i < s.len() && 0 <= j < s.len() && #[trigger] s[i] == '.' && #[trigger] s[j] == '.'
            ==> i == j
}

/// `s` without one leading sign.
pub open spec fn strip_sign(s: Seq<char>) -> Seq<char> {
    if s.len() > 0 && (s[0] == '+' || s[0] == '-') {
        s.drop_first()
    } else {
        s
    }
}

/// Decimal digits behind an optional sign.
pub open spec fn is_exponent(s: Seq<char>) -> bool {
    strip_sign(s).len() > 0 && text::all_digits(strip_sign(s))
}

/// `s` is a mantissa, an `e` and an exponent, with the `e` at position `i`.
pub open spec fn scientific_at(s: Seq<char>, i: int) -> bool {
    &&& 0 <= i < s.len()
    &&& s[i] == 'e' || s[i] == 'E'
    &&& is_mantissa(s.take(i))
    &&& is_exponent(s.skip(i + 1))
}

pub open spec fn same_ignoring_case(s: Seq<char>, t: Seq<char>) -> bool {
    s.len() == t.len() && forall|i: int|
        0 <= i < s.len() ==> text::upper_char(#[trigger] s[i]) == text::upper_char(t[i])
}

/// The notation of a floating-point number: an optional sign, and a decimal number
/// with an optional exponent, or one of `inf`, `infinity` and `nan` in any case.
pub open spec fn is_float_notation(s: Seq<char>) -> bool {
    let b = strip_sign(s);
    ||| is_mantissa(b)
    ||| exists|i: int| scientific_at(b, i)
    ||| same_ignoring_case(b, "inf"@)
    ||| same_ignoring_case(b, "infinity"@)
    ||| same_ignoring_case(b, "nan"@)
}

fn check_mantissa(x: &Vec<char>, a: usize, b: usize) -> (r: bool)
    requires
        a <= b <= x.len(),
    ensures
        r == is_mantissa(x@.subrange(a as int, b as int)),
{
    let ghost s = x@.subrange(a as int, b as int);
    let mut digits = false;
    let mut points = false;
    for i in a..b
        invariant
            a <= b <= x.len(),
            s == x@.subrange(a as int, b as int),
            forall|j: int| 0 <= j < i - a ==> text::is_digit(#[trigger] s[j]) || s[j] == '.',
            digits <==> exists|j: int| 0 <= j < i - a && text::is_digit(#[trigger] s[j]),
            points <==> exists|j: int| 0 <= j < i - a && #[trigger] s[j] == '.',
            forall|j: int, k: int|
                0 <= j < i - a && 0 <= k < i - a && #[trigger] s[j] == '.' && #[trigger] s[k] == '.'
                    ==> j == k,
    {
        let c = x[i];
        assert(s[i - a] == c);
        if char_is_digit(c) {
            digits = true;
        } else if c == '.' && !points {
            points = true;
        } else {
            return false;
        }
    }
    digits
}

fn check_exponent(x: &Vec<char>, a: usize) -> (r: bool)
    requires
        a <= x.len(),
    ensures
        r == is_exponent(x@.skip(a as int)),
{
    let n: usize = x.len();
    let ghost s = x@.skip(a as int);
    let mut i: usize = a;
    if i < n && (x[i] == '+' || x[i] == '-') {
        i = i + 1;
    }
    let first: usize = i;
    let ghost d = strip_sign(s);
    assert(d =~= x@.skip(first as int));
    if first == n {
        return false;
    }
    for k in first..n
        invariant
            n == x.len(),
            first < n,
            d == strip_sign(s),
            s == x@.skip(a as int),
            d == x@.skip(first as int),
            forall|j: int| 0 <= j < k - first ==> text::is_digit(#[trigger] d[j]),
    {
        assert(d[k - first] == x@[k as int]);
        if !char_is_digit(x[k]) {
            return false;
        }
    }
    true
}

fn check_word(x: &Vec<char>, a: usize, word: &str) -> (r: bool)
    requires
        a <= x.len(),
    ensures
        r == same_ignoring_case(x@.skip(a as int), word@),
{
    let w = chars_of(word);
    if x.len() - a != w.len() {
        return false;
    }
    for i in 0..w.len()
        invariant
            w@ == word@,
            a <= x.len(),
            x.len() - a == w.len(),
            forall|j: int|
                0 <= j < i ==> text::upper_char(#[trigger] x@.skip(a as int)[j])
                    == text::upper_char(w@[j]),
    {
        assert(x@.skip(a as int)[i as int] == x@[a + i]);
        if char_upper(x[a + i]) != char_upper(w[i]) {
            return false;
        }
    }
    true
}

/// A mantissa holds no `e`, so only the first one can start the exponent.
proof fn lemma_scientific_first(s: Seq<char>, i: int, j: int)
    requires
        scientific_at(s, j),
        0 <= i <= j,
        s[i] == 'e' || s[i] == 'E',
    ensures
        i == j,
{
    if i < j {
        assert(s.take(j)[i] == s[i]);
    }
}

fn check_float(s: &str) -> (r: bool)
    ensures
        r == is_float_notation(s@),
{
    let x = chars_of(s);
    let n: usize = x.len();
    let start: usize = if n > 0 && (x[0] == '+' || x[0] == '-') {
        1
    } else {
        0
    };
    let ghost b = strip_sign(s@);
    assert(b =~= x@.subrange(start as int, n as int));
    assert(b =~= x@.skip(start as int));
    if check_mantissa(&x, start, n) {
        return true;
    }
    if check_word(&x, start, "inf") || check_word(&x, start, "infinity") || check_word(
        &x,
        start,
        "nan",
    ) {
        return true;
    }
    let mut i: usize = start;
    while i < n && x[i] != 'e' && x[i] != 'E'
        invariant
            n == x.len(),
            start <= i <= n,
            forall|j: int| start <= j < i ==> x@[j] != 'e' && x@[j] != 'E',
        decreases n - i,
    {
        i = i + 1;
    }
    if i == n {
        assert forall|j: int| !scientific_at(b, j) by {
            if 0 <= j < b.len() {
                assert(b[j] == x@[start + j]);
            }
        }
        return false;
    }
    let ghost k = i - start;
    assert(b[k] == x@[i as int]);
    assert(b.take(k) =~= x@.subrange(start as int, i as int));
    assert(b.skip(k + 1) =~= x@.skip(i + 1));
    let found = check_mantissa(&x, start, i) && check_exponent(&x, i + 1);
    proof {
        if exists|j: int| scientific_at(b, j) {
            let j = choose|j: int| scientific_at(b, j);
            assert(b[j] == x@[start + j]);
            lemma_scientific_first(b, k, j);
        }
        if found {
            assert(scientific_at(b, k));
        }
    }
    found
}

/// The text of a floating-point number.
#[derive(Debug)]
pub struct FloatText {
    pub text: String,
}

impl View for FloatText {
    type V = Seq<char>;

    open spec fn view(&self) -> Seq<char> {
        self.text@
    }
}

impl FloatText {
    pub open spec fn wf(self) -> bool {
        is_float_notation(self@)
    }

    /// Takes a text that writes a floating-point number.
    pub fn parse(s: &str) -> (r: Option<FloatText>)
        ensures
            r is Some <==> is_float_notation(s@),
            r matches Some(f) ==> f@ == s@,
    {
        if check_float(s) {
            Some(FloatText { text: s.to_string() })
        } else {
            None
        }
    }

    /// The number zero.
    pub fn zero() -> (r: FloatText)
        ensures
            r@ == "0"@,
            r.wf(),
    {
        proof {
            reveal_strlit("0");
            assert(text::is_digit("0"@[0]));
            assert(is_mantissa("0"@));
        }
        FloatText { text: "0".to_string() }
    }

    pub fn as_str(&self) -> (r: &str)
        ensures
            r@ == self@,
    {
        self.text.as_str()
    }
}

impl Clone for FloatText {
    fn clone(&self) -> (r: Self)
        ensures
            r == *self,
    {
        FloatText { text: self.text.clone() }
    }
}

/// The finite numbers above zero are those with a bit pattern above that of zero and
/// below that of infinity; the finite ones from one on have at least the pattern of one.
pub proof fn numbers_are_ordered_as_their_bits(x: &Binary64, positive: bool, at_least_one: bool)
    requires
        call_ensures(Binary64::is_finite_positive, (x,), positive),
        call_ensures(Binary64::is_finite_at_least_one, (x,), at_least_one),
    ensures
        positive <==> 0 < x.bits < 0x7ff0_0000_0000_0000,
        at_least_one <==> 0x3ff0_0000_0000_0000 <= x.bits < 0x7ff0_0000_0000_0000,
{
    finite_numbers_by_bits(*x);
}

/// Finite and positive, or at least one, by the bit pattern.
pub proof fn finite_numbers_by_bits(x: Binary64)
    ensures
        x.finite_positive() <==> 0 < x.bits < 0x7ff0_0000_0000_0000,
        x.finite_at_least_one() <==> 0x3ff0_0000_0000_0000 <= x.bits < 0x7ff0_0000_0000_0000,
{
    lemma_at_least_one(x);
    if x.exponent() != 0 {
        lemma_pow2_pos((x.exponent() - 1) as nat);
        assert((0x10_0000_0000_0000 + x.fraction()) * pow2((x.exponent() - 1) as nat) > 0)
            by (nonlinear_arith)
            requires
                x.fraction() >= 0,
                pow2((x.exponent() - 1) as nat) > 0,
        ;
    }
}

proof fn lemma_decimal_is_mantissa(a: nat, b: nat)
    ensures
        is_mantissa(text::decimal(a)),
        is_mantissa(text::decimal(a).push('.') + text::decimal(b)),
        text::decimal(a)[0] != '+' && text::decimal(a)[0] != '-',
{
    text::decimal_writes_its_number(a);
    text::decimal_writes_its_number(b);
    let x = text::decimal(a);
    let y = text::decimal(b);
    assert(text::is_digit(x[0]));
    let s = x.push('.') + y;
    assert forall|i: int| 0 <= i < s.len() implies (text::is_digit(#[trigger] s[i]) || s[i] == '.')
        && (s[i] == '.' <==> i == x.len()) by {
        if i < x.len() {
            assert(s[i] == x[i]);
        } else if i > x.len() {
            assert(s[i] == y[i - x.len() - 1]);
        }
    }
    assert(s[0] == x[0]);
}

/// A decimal number, with or without a fraction and a sign, is taken as it is written.
pub proof fn decimal_numbers_are_taken(s: &str, a: nat, b: nat, r: Option<FloatText>)
    requires
        call_ensures(FloatText::parse, (s,), r),
        s@ == text::decimal(a) || s@ == text::decimal(a).push('.') + text::decimal(b) || s@ == seq![
            '-',
        ] + (text::decimal(a).push('.') + text::decimal(b)) || s@ == seq!['+'] + (text::decimal(
            a,
        ).push('.') + text::decimal(b)),
    ensures
        r matches Some(f) && f@ == s@,
{
    lemma_decimal_is_mantissa(a, b);
    text::decimal_writes_its_number(a);
    let d = text::decimal(a).push('.') + text::decimal(b);
    assert(d[0] == text::decimal(a)[0]);
    if s@ == seq!['-'] + d || s@ == seq!['+'] + d {
        assert(s@.drop_first() =~= d);
    }
}

/// Nothing is taken from a text that is empty, or that holds white space or a character
/// that no number is written with.
pub proof fn other_texts_are_no_numbers(s: &str, i: int, r: Option<FloatText>)
    requires
        call_ensures(FloatText::parse, (s,), r),
        s@.len() == 0 || 0 <= i < s@.len() && !text::is_digit(s@[i]) && s@[i] != '.' && s@[i] != '+'
            && s@[i] != '-' && !text::is_upper(s@[i]) && !text::is_lower(s@[i]),
    ensures
        r is None,
{
    let b = strip_sign(s@);
    reveal_strlit("inf");
    reveal_strlit("infinity");
    reveal_strlit("nan");
    if s@.len() == 0 {
        assert forall|j: int| !scientific_at(b, j) by {}
    } else {
        let signed = s@[0] == '+' || s@[0] == '-';
        let k: int = if signed {
            i - 1
        } else {
            i
        };
        let c = s@[i];
        assert(b[k] == c);
        assert(text::upper_char(c) == c);
        assert forall|j: int| !scientific_at(b, j) by {
            if scientific_at(b, j) {
                if k < j {
                    assert(b.take(j)[k] == c);
                } else if k > j {
                    let e = b.skip(j + 1);
                    assert(e[k - j - 1] == c);
                    if e[0] == '+' || e[0] == '-' {
                        assert(strip_sign(e)[k - j - 2] == c);
                    }
                }
            }
        }
        if same_ignoring_case(b, "inf"@) {
            assert(text::upper_char("inf"@[k]) == c);
        }
        if same_ignoring_case(b, "infinity"@) {
            assert(text::upper_char("infinity"@[k]) == c);
        }
        if same_ignoring_case(b, "nan"@) {
            assert(text::upper_char("nan"@[k]) == c);
        }
    }
}

/// Two numbers are equal where their bits are, but what is not a number equals nothing,
/// itself included, and the two zeros are equal.
pub proof fn numbers_are_equal_by_their_bits(x: &Binary64, y: &Binary64, r: bool)
    requires
        call_ensures(<Binary64 as PartialEq>::eq, (x, y), r),
    ensures
        ({
            let (a, b) = (x.bits % 0x8000_0000_0000_0000, y.bits % 0x8000_0000_0000_0000);
            let nan = a > 0x7ff0_0000_0000_0000 || b > 0x7ff0_0000_0000_0000;
            &&& nan ==> !r
            &&& !nan ==> (r <==> x.bits == y.bits || (a == 0 && b == 0))
        }),
{
}

} // verus!
