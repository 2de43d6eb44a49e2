//! Exact numbers for sensor values.
//!
//! A measured value is kept as the decimal that the sensor reported
//! ([`Decimal`]); a value derived from it by a unit conversion is a fraction
//! ([`Ratio`]). Both denote a real number, and every contract in this crate
//! that speaks of a temperature or a humidity speaks of that real number.

use vstd::arithmetic::div_mod::lemma_fundamental_div_mod_converse;
use vstd::prelude::*;

verus! {

/// The largest number of decimal places that a [`Decimal`] can have.
pub const MAX_PLACES: u8 = 18;

/// Ten to the power `n`.
pub open spec fn pow10(n: nat) -> int
    decreases n,
{
    if n == 0 {
        1
    } else {
        10 * pow10((n - 1) as nat)
    }
}

/// Powers of ten are positive and grow with the exponent.
pub proof fn lemma_pow10_grows(a: nat, b: nat)
    requires
        a <= b,
    ensures
        0 < pow10(a) <= pow10(b),
    decreases b,
{
    if b == 0 {
    } else if a == b {
        lemma_pow10_grows(0, (b - 1) as nat);
    } else {
        lemma_pow10_grows(a, (b - 1) as nat);
    }
}

/// The value of the largest power of ten that a [`Decimal`] divides by.
pub proof fn lemma_pow10_max()
    ensures
        pow10(MAX_PLACES as nat) == 1_000_000_000_000_000_000,
{
    reveal_with_fuel(pow10, 19);
}

/// Ten to the power `n`, for the exponents a [`Decimal`] can have.
pub fn power_of_ten(n: u8) -> (r: u64)
    requires
        n <= MAX_PLACES,
    ensures
        r == pow10(n as nat),
        0 < r <= 1_000_000_000_000_000_000,
{
    let mut r: u64 = 1;
    let mut i: u8 = 0;
    while i < n
        invariant
            i <= n <= MAX_PLACES,
            r == pow10(i as nat),
        decreases n - i,
    {
        proof {
            lemma_pow10_grows((i + 1) as nat, MAX_PLACES as nat);
            lemma_pow10_max();
        }
        r = r * 10;
        i = i + 1;
    }
    proof {
        lemma_pow10_grows(n as nat, MAX_PLACES as nat);
        lemma_pow10_max();
    }
    r
}

/// The mathematical content of a [`Decimal`]: the number `units / 10^places`.
pub struct DecimalView {
    pub units: int,
    pub places: nat,
}

impl DecimalView {
    /// The real number that the decimal denotes.
    pub open spec fn value(self) -> real {
        self.units as real / pow10(self.places) as real
    }
}

/// A decimal number with at most [`MAX_PLACES`] digits after the point.
#[derive(Clone, Copy, Debug, PartialEq, Eq)]
pub struct Decimal {
    units: i64,
    places: u8,
}

impl View for Decimal {
    type V = DecimalView;

    closed spec fn view(&self) -> DecimalView {
        DecimalView { units: self.units as int, places: self.places as nat }
    }
}

impl Decimal {
    #[verifier::type_invariant]
    spec fn well_formed(self) -> bool {
        self.places <= MAX_PLACES
    }

    /// The decimal `units / 10^places`, where `places` is within the limit.
    pub fn new(units: i64, places: u8) -> (r: Option<Decimal>)
        ensures
            r is Some <==> places <= MAX_PLACES,
            r is Some ==> r.unwrap()@ == (DecimalView { units: units as int, places: places as nat }),
    {
        if places <= MAX_PLACES {
            Some(Decimal { units, places })
        } else {
            None
        }
    }

    /// The numerator over `10^places`.
    pub fn units(&self) -> (r: i64)
        ensures
            r == self@.units,
    {
        self.units
    }

    /// The number of digits after the decimal point.
    pub fn places(&self) -> (r: u8)
        ensures
            r == self@.places,
            r <= MAX_PLACES,
    {
        proof {
            use_type_invariant(self);
        }
        self.places
    }

    /// The same number as a fraction.
    pub fn to_ratio(&self) -> (r: Ratio)
        ensures
            r.value() == self@.value(),
    {
        let scale = power_of_ten(self.places());
        Ratio::fraction(self.units as i128, scale as i128)
    }

    /// The fraction `(mul * self + add) / div`.
    pub(crate) fn affine(&self, mul: u8, add: i16, div: u8) -> (r: Ratio)
        requires
            div > 0,
        ensures
            r.value() == (mul as real * self@.value() + add as real) / div as real,
    {
        let scale = power_of_ten(self.places());
        let ghost u = self.units as real;
        let ghost p = scale as real;
        assert(-1_000_000_000_000_000_000_000_000 <= (mul as i128) * (self.units as i128)
            <= 1_000_000_000_000_000_000_000_000) by (nonlinear_arith)
            requires
                0 <= mul <= 255,
                -0x8000_0000_0000_0000 <= self.units <= 0x8000_0000_0000_0000,
        ;
        assert(-1_000_000_000_000_000_000_000_000 <= (add as i128) * (scale as i128)
            <= 1_000_000_000_000_000_000_000_000) by (nonlinear_arith)
            requires
                -32768 <= add <= 32767,
                0 < scale <= 1_000_000_000_000_000_000,
        ;
        assert(0 < (div as i128) * (scale as i128) <= 1_000_000_000_000_000_000_000_000)
            by (nonlinear_arith)
            requires
                0 < div <= 255,
                0 < scale <= 1_000_000_000_000_000_000,
        ;
        let num: i128 = (mul as i128) * (self.units as i128) + (add as i128) * (scale as i128);
        let den: i128 = (div as i128) * (scale as i128);
        proof {
            let m = mul as real;
            let a = add as real;
            let d = div as real;
            assert(num as real == m * u + a * p) by (nonlinear_arith)
                requires
                    num == mul * self.units + add * scale,
                    m == mul as real,
                    a == add as real,
                    u == self.units as real,
                    p == scale as real,
            ;
            assert(den as real == d * p) by (nonlinear_arith)
                requires
                    den == div * scale,
                    d == div as real,
                    p == scale as real,
            ;
            assert((m * u + a * p) / (d * p) == (m * (u / p) + a) / d) by (nonlinear_arith)
                requires
                    p > 0real,
                    d > 0real,
            ;
        }
        Ratio::fraction(num, den)
    }
}

/// The integer nearest to `x`; a tie goes to the even neighbour.
pub open spec fn round_half_even(x: real) -> int {
    let below = x.floor();
    let rest = x - below as real;
    if rest + rest < 1real {
        below
    } else if rest + rest > 1real {
        below + 1
    } else if below % 2 == 0 {
        below
    } else {
        below + 1
    }
}

/// Rounding moves a number by at most one half.
pub proof fn lemma_round_half_even_is_nearest(x: real)
    ensures
        x - 1real / 2real <= round_half_even(x) as real <= x + 1real / 2real,
{
}

/// The quotient of two integers, as a real number, lies between the integer
/// quotient and its successor, at the distance that the remainder gives.
pub proof fn lemma_floor_of_quotient(n: int, d: int)
    requires
        d > 0,
    ensures
        (n as real / d as real).floor() == n / d,
        n as real / d as real - (n / d) as real == (n % d) as real / d as real,
{
    let q = n / d;
    let r = n % d;
    assert(n == q * d + r && 0 <= r < d) by (nonlinear_arith)
        requires
            d > 0,
            q == n / d,
            r == n % d,
    ;
    let x = n as real / d as real;
    assert(n as real == q as real * d as real + r as real) by (nonlinear_arith)
        requires
            n == q * d + r,
    ;
    assert(x == q as real + r as real / d as real) by (nonlinear_arith)
        requires
            x == n as real / d as real,
            n as real == q as real * d as real + r as real,
            d as real > 0real,
    ;
    assert(0real <= (r as real) / (d as real) && (r as real) / (d as real) < 1real)
        by (nonlinear_arith)
        requires
            0real <= r as real,
            (r as real) < d as real,
    ;
}

/// A fraction `num / den` with a positive denominator.
#[derive(Clone, Copy, Debug)]
pub struct Ratio {
    num: i128,
    den: i128,
}

impl Ratio {
    #[verifier::type_invariant]
    spec fn well_formed(self) -> bool {
        &&& 0 < self.den <= 1_000_000_000_000_000_000_000_000
        &&& -2_000_000_000_000_000_000_000_000 <= self.num <= 2_000_000_000_000_000_000_000_000
    }

    /// The numerator, in spec code.
    pub closed spec fn num(self) -> int {
        self.num as int
    }

    /// The denominator, in spec code.
    pub closed spec fn den(self) -> int {
        self.den as int
    }

    /// The real number that the fraction denotes.
    pub open spec fn value(self) -> real {
        self.num() as real / self.den() as real
    }

    fn fraction(num: i128, den: i128) -> (r: Ratio)
        requires
            0 < den <= 1_000_000_000_000_000_000_000_000,
            -2_000_000_000_000_000_000_000_000 <= num <= 2_000_000_000_000_000_000_000_000,
        ensures
            r.num() == num,
            r.den() == den,
    {
        Ratio { num, den }
    }

    /// The numerator.
    pub fn numerator(&self) -> (r: i128)
        ensures
            r == self.num(),
    {
        self.num
    }

    /// The denominator, which is positive.
    pub fn denominator(&self) -> (r: i128)
        ensures
            r == self.den(),
            r > 0,
    {
        proof {
            use_type_invariant(self);
        }
        self.den
    }

    /// The number of tenths nearest to the value; a tie goes to the even
    /// number of tenths.
    pub fn tenths(&self) -> (t: i128)
        ensures
            t == round_half_even(self.value() * 10real),
    {
        proof {
            use_type_invariant(self);
        }
        let d: i128 = self.den;
        let n: i128 = 10 * self.num;
        let mut q: i128;
        let r: i128;
        if n >= 0 {
            q = n / d;
            r = n % d;
        } else {
            let m: i128 = -n;
            let q0: i128 = m / d;
            let r0: i128 = m % d;
            assert(m == q0 * d + r0) by (nonlinear_arith)
                requires
                    d > 0,
                    m >= 0,
                    q0 == m / d,
                    r0 == m % d,
            ;
            if r0 == 0 {
                q = -q0;
                r = 0;
            } else {
                q = -q0 - 1;
                r = d - r0;
            }
            assert(n == q * d + r) by (nonlinear_arith)
                requires
                    n == -m,
                    m == q0 * d + r0,
                    (q == -q0 && r == 0 && r0 == 0) || (q == -q0 - 1 && r == d - r0),
            ;
        }
        proof {
            assert(n == q * d + r && 0 <= r < d) by (nonlinear_arith)
                requires
                    d > 0,
                    n >= 0 ==> q == n / d && r == n % d,
                    n < 0 ==> n == q * d + r && 0 <= r < d,
            ;
            lemma_fundamental_div_mod_converse(n as int, d as int, q as int, r as int);
            lemma_floor_of_quotient(n as int, d as int);
            let x = self.value() * 10real;
            assert(x == n as real / d as real) by (nonlinear_arith)
                requires
                    x == (self.num as real / d as real) * 10real,
                    n as real == 10real * self.num as real,
                    d as real > 0real,
            ;
            let rest = x - q as real;
            assert(rest == r as real / d as real);
            assert((rest + rest < 1real) <==> (2 * r < d)) by (nonlinear_arith)
                requires
                    rest == r as real / d as real,
                    d as real > 0real,
                    (2 * r < d) <==> (r as real + r as real) < d as real,
            ;
            assert((rest + rest > 1real) <==> (2 * r > d)) by (nonlinear_arith)
                requires
                    rest == r as real / d as real,
                    d as real > 0real,
                    (2 * r > d) <==> (r as real + r as real) > d as real,
            ;
        }
        if 2 * r > d || (2 * r == d && q % 2 != 0) {
            q = q + 1;
        }
        q
    }
}

} // verus!
