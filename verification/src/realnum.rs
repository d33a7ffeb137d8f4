//! Exact model of the real scalars that appear in documents and schema
//! bounds. A real is carried as the 64-bit pattern the loader produced for
//! it (sign, biased exponent, mantissa) and is interpreted as the exact
//! binary rational it denotes, measured in units of the smallest subnormal
//! step: `scaled` below is that integer. All comparisons and the range and
//! divisibility checks of the numeric validators are defined over `scaled`,
//! so they are exact integer arithmetic, never rounded.
use vstd::prelude::*;

use vstd::arithmetic::power2::{
    lemma_pow2_adds, lemma_pow2_pos, lemma_pow2_strictly_increases, lemma_pow2_unfold, pow2,
};
use vstd::arithmetic::mul::{
    lemma_mul_equality_converse, lemma_mul_inequality, lemma_mul_is_associative,
    lemma_mul_is_commutative, lemma_mul_is_distributive_sub_other_way, lemma_mul_strict_inequality,
    lemma_mul_upper_bound,
};
use vstd::arithmetic::div_mod::{lemma_fundamental_div_mod, lemma_mod_multiples_basic};

verus! {

/// The mantissa width divisor: 2^52.
pub const MANT_DIV: u64 = 0x10_0000_0000_0000;

/// The exponent field range: 2^11.
pub const EXPO_RANGE: u64 = 0x800;

/// The sign bit: 2^63.
pub const SIGN_BIT: u64 = 0x8000_0000_0000_0000;

/// A real scalar, held as its 64-bit sign/exponent/mantissa pattern.
#[derive(Debug, Clone, Copy, PartialEq, Eq, Structural)]
pub struct Real {
    pub bits: u64,
}

/// The magnitude denoted by an exponent field and a mantissa field, in
/// units of the smallest subnormal step: a zero exponent marks a subnormal
/// with value `m`, any other exponent a normal with value `(m + 2^52) *
/// 2^(e-1)`.
pub open spec fn field_mag(e: nat, m: nat) -> nat {
    if e == 0 {
        m
    } else {
        ((m + MANT_DIV) * pow2((e - 1) as nat)) as nat
    }
}

impl Real {
    /// Wraps a loader-produced bit pattern.
    pub fn from_bits(bits: u64) -> (r: Real)
        ensures
            r.bits == bits,
    {
        Real { bits }
    }

    /// The raw bit pattern.
    pub fn bits(&self) -> (r: u64)
        ensures
            r == self.bits,
    {
        self.bits
    }

    /// Whether the sign bit is set.
    pub open spec fn negative(self) -> bool {
        self.bits >= SIGN_BIT
    }

    /// The exponent field.
    pub open spec fn expo(self) -> nat {
        (((self.bits / MANT_DIV) % EXPO_RANGE) as nat)
    }

    /// The mantissa field.
    pub open spec fn mant(self) -> nat {
        ((self.bits % MANT_DIV) as nat)
    }

    /// The magnitude of this real in smallest-step units.
    pub open spec fn mag(self) -> nat {
        field_mag(self.expo(), self.mant())
    }

    /// The exact value of this real, in units of the smallest subnormal
    /// step. This is the number line on which every numeric constraint of
    /// the engine is stated.
    pub open spec fn scaled(self) -> int {
        if self.negative() {
            -(self.mag() as int)
        } else {
            self.mag() as int
        }
    }

    /// Extracts the exponent field.
    fn expo_exec(&self) -> (r: u64)
        ensures
            r == self.expo(),
            r < EXPO_RANGE,
    {
        (self.bits / MANT_DIV) % EXPO_RANGE
    }

    /// Extracts the mantissa field.
    fn mant_exec(&self) -> (r: u64)
        ensures
            r == self.mant(),
            r < MANT_DIV,
    {
        self.bits % MANT_DIV
    }

    /// Whether the sign bit is set.
    fn negative_exec(&self) -> (r: bool)
        ensures
            r == self.negative(),
    {
        self.bits >= SIGN_BIT
    }

    /// Whether this real denotes zero (either signed zero pattern).
    pub fn is_zero(&self) -> (r: bool)
        ensures
            r == (self.scaled() == 0),
    {
        let e = self.expo_exec();
        let m = self.mant_exec();
        proof {
            lemma_mag_zero(self.expo(), self.mant());
        }
        e == 0 && m == 0
    }

    /// Exact `<=` on the denoted values.
    pub fn le(&self, other: &Real) -> (r: bool)
        ensures
            r == (self.scaled() <= other.scaled()),
    {
        let sa = self.negative_exec();
        let sb = other.negative_exec();
        let ea = self.expo_exec();
        let eb = other.expo_exec();
        let ma = self.mant_exec();
        let mb = other.mant_exec();
        proof {
            lemma_mag_compare(self.expo(), self.mant(), other.expo(), other.mant());
            lemma_mag_zero(self.expo(), self.mant());
            lemma_mag_zero(other.expo(), other.mant());
        }
        if sa && !sb {
            true
        } else if !sa && sb {
            ea == 0 && ma == 0 && eb == 0 && mb == 0
        } else if !sa {
            ea < eb || (ea == eb && ma <= mb)
        } else {
            eb < ea || (eb == ea && mb <= ma)
        }
    }

    /// Exact `<` on the denoted values.
    pub fn lt(&self, other: &Real) -> (r: bool)
        ensures
            r == (self.scaled() < other.scaled()),
    {
        !other.le(self)
    }

    /// The exact value, computed when the exponent field is small enough
    /// for the smallest-step count to fit a machine word.
    fn scaled_small(&self) -> (r: i128)
        requires
            self.expo() <= 54,
        ensures
            r == self.scaled(),
    {
        let e = self.expo_exec();
        let m = self.mant_exec();
        let mag: i128 = if e == 0 {
            m as i128
        } else {
            let p = pow2_exec(e - 1);
            proof {
                lemma_mul_upper_bound(
                    (m + MANT_DIV) as int,
                    0x20_0000_0000_0000,
                    p as int,
                    0x20_0000_0000_0000,
                );
            }
            (m as i128 + MANT_DIV as i128) * p
        };
        assert(mag == self.mag());
        if self.negative_exec() {
            -mag
        } else {
            mag
        }
    }

    /// Whether the distance from `self` up to `upper` exceeds one smallest
    /// positive normal step, the unit by which an exclusive/exclusive real
    /// range must be wider than a point to contain a value.
    pub fn gap_exceeds_unit(&self, upper: &Real) -> (r: bool)
        ensures
            r == (upper.scaled() - self.scaled() > MANT_DIV),
    {
        if !self.lt(upper) {
            return false;
        }
        let el = self.expo_exec();
        let eu = upper.expo_exec();
        if el >= 55 || eu >= 55 {
            proof {
                lemma_gap_big(*self, *upper);
            }
            true
        } else {
            proof {
                lemma_small_mag(*self);
                lemma_small_mag(*upper);
                vstd::arithmetic::power2::lemma2_to64_rest();
                lemma_pow2_adds(53, 53);
            }
            let sl = self.scaled_small();
            let su = upper.scaled_small();
            su - sl > MANT_DIV as i128
        }
    }

    /// Splits the magnitude into an odd factor and a power of two:
    /// `mag == r.0 * 2^(r.1)` with `r.0` odd, or `r.0 == 0` for a zero
    /// magnitude.
    fn odd_decompose(&self) -> (r: (u64, u64))
        ensures
            r.0 == 0 ==> self.mag() == 0,
            r.0 != 0 ==> r.0 % 2 == 1 && self.mag() == r.0 * pow2(r.1 as nat),
{
        let e = self.expo_exec();
        let m = self.mant_exec();
        let mut f: u64 = if e == 0 {
            m
        } else {
            m + MANT_DIV
        };
        let mut sh: u64 = if e == 0 {
            0
        } else {
            e - 1
        };
        if f == 0 {
            return (0, 0);
        }
        proof {
            vstd::arithmetic::power2::lemma2_to64();
            assert(pow2(0) == 1);
            lemma_mag_fits(*self);
            if e != 0 {
                assert(self.mag() == f * pow2(sh as nat));
            } else {
                assert(self.mag() == f * pow2(0)) by (nonlinear_arith)
                    requires
                        self.mag() == f,
                        pow2(0) == 1,
                ;
            }
        }
        while f % 2 == 0
            invariant
                1 <= f,
                sh <= 2100,
                self.mag() == f * pow2(sh as nat),
                f * pow2(sh as nat) < pow2(2100),
            decreases f,
        {
            let half = f / 2;
            proof {
                lemma_pow2_unfold((sh + 1) as nat);
                assert(f == half * 2);
                assert(half * (2 * pow2(sh as nat)) == (half * 2) * pow2(sh as nat))
                    by (nonlinear_arith);
                assert(half * pow2((sh + 1) as nat) == f * pow2(sh as nat));
                lemma_pow2_pos((sh + 1) as nat);
                lemma_mul_inequality(1, half as int, pow2((sh + 1) as nat) as int);
                if sh + 1 > 2100 {
                    lemma_pow2_strictly_increases(2100, (sh + 1) as nat);
                    lemma_mul_inequality(
                        pow2(2100) as int,
                        pow2((sh + 1) as nat) as int,
                        half as int,
                    );
                    assert(half * pow2((sh + 1) as nat) >= pow2((sh + 1) as nat)) by {
                        lemma_mul_is_commutative(half as int, pow2((sh + 1) as nat) as int);
                    }
                    assert(false);
                }
            }
            f = half;
            sh = sh + 1;
        }
        (f, sh)
    }

    /// Whether `self` is an exact integer multiple of `modulus`.
    pub fn is_multiple_of(&self, modulus: &Real) -> (r: bool)
        requires
            modulus.scaled() != 0,
        ensures
            r == divides(modulus.scaled(), self.scaled()),
    {
        let (a, i) = self.odd_decompose();
        let (b, j) = modulus.odd_decompose();
        if a == 0 {
            proof {
                assert(self.scaled() == 0 * modulus.scaled()) by (nonlinear_arith)
                    requires
                        self.scaled() == 0,
                ;
            }
            return true;
        }
        proof {
            lemma_mag_zero(modulus.expo(), modulus.mant());
            if b == 0 {
                assert(modulus.scaled() == 0);
            }
        }
        let r = i >= j && a % b == 0;
        proof {
            lemma_multiple_characterization(
                self.scaled(),
                a as int,
                i as nat,
                modulus.mag() as int,
                b as int,
                j as nat,
            );
            if modulus.negative() {
                lemma_divides_neg(modulus.mag() as int, self.scaled());
            }
        }
        r
    }
}

/// Whether `x` is an integer multiple of `d`.
pub open spec fn divides(d: int, x: int) -> bool {
    exists|k: int| x == #[trigger] (k * d)
}

/// Divisibility does not depend on the divisor's sign.
pub proof fn lemma_divides_neg(d: int, x: int)
    ensures
        divides(d, x) <==> divides(-d, x),
{
    if divides(d, x) {
        let k = choose|k: int| x == #[trigger] (k * d);
        assert(x == (-k) * (-d)) by (nonlinear_arith)
            requires
                x == k * d,
        ;
    }
    if divides(-d, x) {
        let k = choose|k: int| x == #[trigger] (k * (-d));
        assert(x == (-k) * d) by (nonlinear_arith)
            requires
                x == k * (-d),
        ;
    }
}

/// A magnitude is below 2^2100.
proof fn lemma_mag_fits(x: Real)
    ensures
        x.mag() < pow2(2100),
{
    vstd::arithmetic::power2::lemma2_to64_rest();
    if x.expo() == 0 {
        lemma_pow2_strictly_increases(53, 2100);
        assert(x.mag() < pow2(53));
    } else {
        lemma_pow2_pos((x.expo() - 1) as nat);
        if x.expo() - 1 < 2046 {
            lemma_pow2_strictly_increases((x.expo() - 1) as nat, 2046);
        }
        lemma_mul_upper_bound(
            (x.mant() + MANT_DIV) as int,
            pow2(53) as int,
            pow2((x.expo() - 1) as nat) as int,
            pow2(2046) as int,
        );
        lemma_pow2_adds(53, 2046);
        lemma_pow2_strictly_increases(2099, 2100);
    }
}

/// For a big exponent the magnitude is at least 2^106 and is a multiple of
/// 2^54; for a small exponent it is at most 2^106 - 2^53. Together these
/// bound the gap between any two reals on opposite sides of the boundary.
proof fn lemma_gap_big(l: Real, u: Real)
    requires
        l.scaled() < u.scaled(),
        l.expo() >= 55 || u.expo() >= 55,
    ensures
        u.scaled() - l.scaled() > MANT_DIV,
{
    vstd::arithmetic::power2::lemma2_to64_rest();
    lemma_pow2_adds(52, 54);
    lemma_pow2_adds(53, 53);
    if l.expo() >= 55 && u.expo() >= 55 {
        lemma_scaled_multiple(l);
        lemma_scaled_multiple(u);
        let kl = choose|k: int| l.scaled() == #[trigger] (k * pow2(54));
        let ku = choose|k: int| u.scaled() == #[trigger] (k * pow2(54));
        lemma_pow2_pos(54);
        assert(kl < ku) by (nonlinear_arith)
            requires
                kl * pow2(54) < ku * pow2(54),
                pow2(54) > 0,
        ;
        lemma_mul_is_distributive_sub_other_way(pow2(54) as int, ku, kl);
        lemma_mul_inequality(1, ku - kl, pow2(54) as int);
        assert(u.scaled() - l.scaled() >= pow2(54));
    } else if u.expo() >= 55 {
        // l is small: |l.scaled()| <= 2^106 - 2^53.
        lemma_big_mag(u);
        lemma_small_mag(l);
        if u.negative() {
            assert(u.scaled() <= -pow2(106));
            assert(false);
        } else {
            assert(u.scaled() >= pow2(106));
            assert(u.scaled() - l.scaled() >= pow2(53));
        }
    } else {
        lemma_big_mag(l);
        lemma_small_mag(u);
        if l.negative() {
            assert(l.scaled() <= -pow2(106));
            assert(u.scaled() - l.scaled() >= pow2(53));
        } else {
            assert(l.scaled() >= pow2(106));
            assert(false);
        }
    }
    assert(pow2(53) > MANT_DIV);
}

/// A magnitude with exponent field at least 55 is at least 2^106.
proof fn lemma_big_mag(x: Real)
    requires
        x.expo() >= 55,
    ensures
        x.mag() >= pow2(106),
{
    lemma_pow2_pos((x.expo() - 1) as nat);
    vstd::arithmetic::power2::lemma2_to64_rest();
    if x.expo() - 1 > 54 {
        lemma_pow2_strictly_increases(54, (x.expo() - 1) as nat);
    }
    lemma_mul_inequality(
        pow2(54) as int,
        pow2((x.expo() - 1) as nat) as int,
        MANT_DIV as int,
    );
    lemma_mul_inequality(
        MANT_DIV as int,
        (x.mant() + MANT_DIV) as int,
        pow2((x.expo() - 1) as nat) as int,
    );
    lemma_mul_is_commutative(pow2(54) as int, MANT_DIV as int);
    lemma_mul_is_commutative(pow2((x.expo() - 1) as nat) as int, MANT_DIV as int);
    lemma_pow2_adds(52, 54);
}

/// A magnitude with exponent field at most 54 is at most 2^106 - 2^53.
proof fn lemma_small_mag(x: Real)
    requires
        x.expo() <= 54,
    ensures
        x.mag() <= pow2(106) - pow2(53),
{
    vstd::arithmetic::power2::lemma2_to64_rest();
    lemma_pow2_adds(53, 53);
    if x.expo() == 0 {
        assert(x.mag() < pow2(52));
        lemma_pow2_strictly_increases(52, 106);
        lemma_pow2_strictly_increases(53, 105);
        lemma_pow2_adds(52, 54);
        lemma_pow2_strictly_increases(52, 105);
        assert(pow2(106) == 2 * pow2(105)) by {
            lemma_pow2_unfold(106);
        }
        assert(pow2(53) < pow2(105));
        assert(x.mag() <= pow2(106) - pow2(53));
    } else {
        lemma_pow2_pos((x.expo() - 1) as nat);
        if x.expo() - 1 < 53 {
            lemma_pow2_strictly_increases((x.expo() - 1) as nat, 53);
        }
        lemma_mul_upper_bound(
            (x.mant() + MANT_DIV) as int,
            (pow2(53) - 1) as int,
            pow2((x.expo() - 1) as nat) as int,
            pow2(53) as int,
        );
        lemma_mul_is_distributive_sub_other_way(pow2(53) as int, pow2(53) as int, 1);
    }
}

/// The value of a real with a big exponent is a multiple of 2^54.
proof fn lemma_scaled_multiple(x: Real)
    requires
        x.expo() >= 55,
    ensures
        exists|k: int| x.scaled() == #[trigger] (k * pow2(54)),
        x.scaled() >= pow2(106) || x.scaled() <= -pow2(106),
{
    lemma_big_mag(x);
    lemma_pow2_adds(((x.expo() - 1) as nat - 54) as nat, 54);
    let c = (x.mant() + MANT_DIV) as int;
    let p_low = pow2(((x.expo() - 1) as nat - 54) as nat) as int;
    lemma_mul_is_associative(c, p_low, pow2(54) as int);
    assert(x.mag() == (c * p_low) * pow2(54));
    if x.negative() {
        assert(x.scaled() == (-(c * p_low)) * pow2(54)) by (nonlinear_arith)
            requires
                x.scaled() == -(x.mag() as int),
                x.mag() == (c * p_low) * pow2(54),
        ;
    }
}

/// For positive `X == a * 2^i` (`a` odd) and `W == b * 2^j` (`b` odd),
/// `W` divides `X` exactly when `i >= j` and `b` divides `a`; the sign of
/// the dividend does not matter.
proof fn lemma_multiple_characterization(sv: int, a: int, i: nat, sw: int, b: int, j: nat)
    requires
        sv == a * pow2(i) || sv == -(a * pow2(i)),
        a >= 1,
        a % 2 == 1,
        sw == b * pow2(j),
        b >= 1,
        b % 2 == 1,
    ensures
        divides(sw, sv) <==> (i >= j && a % b == 0),
{
    lemma_pow2_pos(i);
    lemma_pow2_pos(j);
    let x = a * pow2(i);
    assert(x >= 1) by (nonlinear_arith)
        requires
            a >= 1,
            pow2(i) >= 1,
            x == a * pow2(i),
    ;
    assert(sw >= 1) by (nonlinear_arith)
        requires
            b >= 1,
            pow2(j) >= 1,
            sw == b * pow2(j),
    ;
    if i >= j && a % b == 0 {
        // Construct the quotient: x == ((a / b) * 2^(i - j)) * sw.
        lemma_fundamental_div_mod(a, b);
        let q = a / b;
        lemma_pow2_adds((i - j) as nat, j);
        let k = q * pow2((i - j) as nat);
        assert(x == k * sw) by (nonlinear_arith)
            requires
                a == b * q,
                pow2(i) == pow2((i - j) as nat) * pow2(j),
                x == a * pow2(i),
                sw == b * pow2(j),
                k == q * pow2((i - j) as nat),
        ;
        if sv == x {
            assert(divides(sw, sv));
        } else {
            assert(sv == (-k) * sw) by (nonlinear_arith)
                requires
                    sv == -x,
                    x == k * sw,
            ;
            assert(divides(sw, sv));
        }
    }
    if divides(sw, sv) {
        let k0 = choose|k: int| sv == #[trigger] (k * sw);
        // Pass to magnitudes: x == |k0| * sw.
        let k = if sv == x {
            k0
        } else {
            -k0
        };
        assert(x == k * sw) by (nonlinear_arith)
            requires
                sv == k0 * sw,
                sv == x || sv == -x,
                k == k0 || k == -k0,
                (sv == x ==> k == k0) && (sv != x ==> sv == -x && k == -k0),
        ;
        assert(k >= 1) by (nonlinear_arith)
            requires
                x == k * sw,
                x >= 1,
                sw >= 1,
        ;
        if i < j {
            // Then a == (k * b * 2^(j-i-1)) * 2, contradicting oddness.
            lemma_pow2_adds(i, (j - i) as nat);
            assert(a * pow2(i) == (k * (b * pow2((j - i) as nat))) * pow2(i))
                by (nonlinear_arith)
                requires
                    a * pow2(i) == k * (b * pow2(j)),
                    pow2(j) == pow2(i) * pow2((j - i) as nat),
            ;
            lemma_mul_is_commutative(a, pow2(i) as int);
            lemma_mul_is_commutative(k * (b * pow2((j - i) as nat)), pow2(i) as int);
            lemma_mul_equality_converse(pow2(i) as int, a, k * (b * pow2((j - i) as nat)));
            lemma_pow2_unfold((j - i) as nat);
            let t = k * (b * pow2((j - i - 1) as nat));
            assert(a == t * 2) by (nonlinear_arith)
                requires
                    a == k * (b * pow2((j - i) as nat)),
                    pow2((j - i) as nat) == 2 * pow2((j - i - 1) as nat),
                    t == k * (b * pow2((j - i - 1) as nat)),
            ;
            lemma_mod_multiples_basic(t, 2);
            assert(false);
        }
        // i >= j: cancel 2^j, then strip the remaining twos.
        lemma_pow2_adds((i - j) as nat, j);
        assert((a * pow2((i - j) as nat)) * pow2(j) == (k * b) * pow2(j)) by (nonlinear_arith)
            requires
                a * pow2(i) == k * (b * pow2(j)),
                pow2(i) == pow2((i - j) as nat) * pow2(j),
        ;
        lemma_mul_is_commutative(a * pow2((i - j) as nat), pow2(j) as int);
        lemma_mul_is_commutative(k * b, pow2(j) as int);
        lemma_mul_equality_converse(pow2(j) as int, a * pow2((i - j) as nat), k * b);
        lemma_odd_factor_divides(a, b, (i - j) as nat, k);
    }
}

/// If `a * 2^d == k * b` with `b` odd, then `b` divides `a`.
proof fn lemma_odd_factor_divides(a: int, b: int, d: nat, k: int)
    requires
        a >= 1,
        b >= 1,
        b % 2 == 1,
        a * pow2(d) == k * b,
    ensures
        a % b == 0,
    decreases d,
{
    if d == 0 {
        vstd::arithmetic::power2::lemma2_to64();
        assert(a == k * b) by (nonlinear_arith)
            requires
                a * pow2(0) == k * b,
                pow2(0) == 1,
        ;
        lemma_mod_multiples_basic(k, b);
    } else {
        // a * 2^d is even, so k * b is even; b is odd, so k is even.
        lemma_pow2_unfold(d);
        if k % 2 == 1 {
            lemma_odd_times_odd(k, b);
            let t = a * pow2((d - 1) as nat);
            assert(k * b == t * 2) by (nonlinear_arith)
                requires
                    a * pow2(d) == k * b,
                    pow2(d) == 2 * pow2((d - 1) as nat),
                    t == a * pow2((d - 1) as nat),
            ;
            lemma_mod_multiples_basic(t, 2);
            assert(false);
        }
        lemma_fundamental_div_mod(k, 2);
        let k2 = k / 2;
        assert(a * pow2((d - 1) as nat) == k2 * b) by (nonlinear_arith)
            requires
                a * pow2(d) == k * b,
                pow2(d) == 2 * pow2((d - 1) as nat),
                k == 2 * k2,
        ;
        lemma_odd_factor_divides(a, b, (d - 1) as nat, k2);
    }
}

/// The product of two odd numbers is odd.
proof fn lemma_odd_times_odd(p: int, q: int)
    requires
        p % 2 == 1,
        q % 2 == 1,
    ensures
        (p * q) % 2 == 1,
{
    lemma_fundamental_div_mod(p, 2);
    lemma_fundamental_div_mod(q, 2);
    let p2 = p / 2;
    let q2 = q / 2;
    let t = 2 * p2 * q2 + p2 + q2;
    assert(p * q == t * 2 + 1) by (nonlinear_arith)
        requires
            p == 2 * p2 + 1,
            q == 2 * q2 + 1,
            t == 2 * p2 * q2 + p2 + q2,
    ;
    lemma_mod_multiples_basic(t, 2);
    lemma_fundamental_div_mod(p * q, 2);
    assert((t * 2 + 1) % 2 == 1) by {
        vstd::arithmetic::div_mod::lemma_add_mod_noop(t * 2, 1, 2);
    }
}

/// Computes 2^k for a small exponent.
fn pow2_exec(k: u64) -> (r: i128)
    requires
        k <= 53,
    ensures
        r == pow2(k as nat),
        1 <= r <= 0x20_0000_0000_0000,
{
    proof {
        vstd::arithmetic::power2::lemma2_to64();
        vstd::arithmetic::power2::lemma2_to64_rest();
    }
    let mut p: i128 = 1;
    let mut j: u64 = 0;
    while j < k
        invariant
            0 <= j <= k <= 53,
            p == pow2(j as nat),
            p <= 0x20_0000_0000_0000,
        decreases k - j,
    {
        proof {
            lemma_pow2_unfold((j + 1) as nat);
            if j + 1 < 53 {
                lemma_pow2_strictly_increases((j + 1) as nat, 53);
            }
            vstd::arithmetic::power2::lemma2_to64_rest();
        }
        p = p * 2;
        j = j + 1;
    }
    proof {
        lemma_pow2_pos(k as nat);
    }
    p
}

/// A magnitude is zero exactly when both fields are zero.
proof fn lemma_mag_zero(e: nat, m: nat)
    ensures
        (field_mag(e, m) == 0) <==> (e == 0 && m == 0),
{
    if e != 0 {
        lemma_pow2_pos((e - 1) as nat);
        lemma_mul_inequality(1, pow2((e - 1) as nat) as int, (m + MANT_DIV) as int);
        assert(field_mag(e, m) >= (m + MANT_DIV) * 1) by (nonlinear_arith)
            requires
                field_mag(e, m) == (m + MANT_DIV) * pow2((e - 1) as nat),
                pow2((e - 1) as nat) >= 1,
        ;
    }
}

/// Field pairs compare on magnitude exactly as they compare
/// lexicographically (exponent first, then mantissa), provided the mantissa
/// fields are in range.
proof fn lemma_mag_compare(e1: nat, m1: nat, e2: nat, m2: nat)
    requires
        m1 < MANT_DIV,
        m2 < MANT_DIV,
    ensures
        (e1 < e2 || (e1 == e2 && m1 < m2)) <==> field_mag(e1, m1) < field_mag(e2, m2),
        (e1 == e2 && m1 == m2) <==> field_mag(e1, m1) == field_mag(e2, m2),
{
    if e1 < e2 || (e1 == e2 && m1 < m2) {
        lemma_mag_lex_lt(e1, m1, e2, m2);
    }
    if e2 < e1 || (e2 == e1 && m2 < m1) {
        lemma_mag_lex_lt(e2, m2, e1, m1);
    }
}

/// Strict lexicographic order of the fields gives strict magnitude order.
proof fn lemma_mag_lex_lt(e1: nat, m1: nat, e2: nat, m2: nat)
    requires
        m1 < MANT_DIV,
        m2 < MANT_DIV,
        e1 < e2 || (e1 == e2 && m1 < m2),
    ensures
        field_mag(e1, m1) < field_mag(e2, m2),
{
    if e1 == e2 {
        if e1 == 0 {
        } else {
            lemma_pow2_pos((e1 - 1) as nat);
            lemma_mul_strict_inequality(
                (m1 + MANT_DIV) as int,
                (m2 + MANT_DIV) as int,
                pow2((e1 - 1) as nat) as int,
            );
        }
    } else {
        // e1 < e2, so e2 >= 1 and field_mag(e2, m2) >= 2^52 * 2^(e2-1).
        lemma_pow2_pos((e2 - 1) as nat);
        lemma_mul_inequality(
            MANT_DIV as int,
            (m2 + MANT_DIV) as int,
            pow2((e2 - 1) as nat) as int,
        );
        if e1 == 0 {
            // field_mag(e1, m1) = m1 < 2^52 <= 2^52 * 2^(e2-1).
            lemma_mul_inequality(1, pow2((e2 - 1) as nat) as int, MANT_DIV as int);
            assert(MANT_DIV * pow2((e2 - 1) as nat) == pow2((e2 - 1) as nat) * MANT_DIV)
                by (nonlinear_arith);
            assert(MANT_DIV * 1 <= MANT_DIV * pow2((e2 - 1) as nat)) by (nonlinear_arith)
                requires
                    pow2((e2 - 1) as nat) >= 1,
            ;
        } else {
            // field_mag(e1, m1) < 2^53 * 2^(e1-1) = 2^(e1+52) <= 2^(e2+51)
            //                   = 2^52 * 2^(e2-1).
            vstd::arithmetic::power2::lemma2_to64_rest();
            assert(MANT_DIV + MANT_DIV == pow2(53));
            assert(MANT_DIV == pow2(52));
            lemma_pow2_pos((e1 - 1) as nat);
            lemma_mul_strict_inequality(
                (m1 + MANT_DIV) as int,
                (MANT_DIV + MANT_DIV) as int,
                pow2((e1 - 1) as nat) as int,
            );
            lemma_pow2_pos((e1 - 1) as nat);
            lemma_pow2_adds(53, (e1 - 1) as nat);
            lemma_pow2_adds(52, (e2 - 1) as nat);
            if e1 + 52 < e2 + 51 {
                lemma_pow2_strictly_increases((e1 + 52) as nat, (e2 + 51) as nat);
            }
            assert(field_mag(e2, m2) >= pow2(52) * pow2((e2 - 1) as nat));
        }
    }
}

} // verus!
