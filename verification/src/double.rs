//! Binary64 numbers as bit patterns.
//!
//! Coordinates and averages travel through the library as the 64 bits of an
//! IEEE 754 double. Every statement about their size is made over the decoded
//! sign, exponent and significand, in exact integer arithmetic.

use vstd::arithmetic::power2::*;
use vstd::prelude::*;

verus! {

/// Two to the 52nd: the weight of the hidden bit of a significand.
pub const HIDDEN_BIT: u64 = 0x10_0000_0000_0000;

/// Two to the 63rd: the weight of the sign bit.
pub const SIGN_BIT: u64 = 0x8000_0000_0000_0000;

/// The pattern of 180.0.
pub const LONGITUDE_LIMIT: u64 = 0x4066_8000_0000_0000;

/// The pattern of 90.0.
pub const LATITUDE_LIMIT: u64 = 0x4056_8000_0000_0000;

/// A double-precision number, held as its bit pattern.
#[derive(Clone, Copy, Debug, PartialEq, Eq, Structural)]
pub struct Double {
    pub bits: u64,
}

impl Double {
    /// The sign bit is set.
    pub open spec fn negative(self) -> bool {
        self.bits >= SIGN_BIT
    }

    /// The eleven exponent bits, as stored.
    pub open spec fn biased_exponent(self) -> nat {
        (self.bits / HIDDEN_BIT % 2048) as nat
    }

    /// The fifty-two fraction bits.
    pub open spec fn fraction(self) -> nat {
        (self.bits % HIDDEN_BIT) as nat
    }

    /// Neither an infinity nor a NaN.
    pub open spec fn is_finite(self) -> bool {
        self.biased_exponent() < 2047
    }

    /// The integer `m` of a finite number `± m · 2^e`.
    pub open spec fn significand(self) -> nat {
        if self.biased_exponent() == 0 {
            self.fraction()
        } else {
            HIDDEN_BIT as nat + self.fraction()
        }
    }

    /// The exponent `e` of a finite number `± m · 2^e`.
    pub open spec fn scale(self) -> int {
        if self.biased_exponent() == 0 {
            -1074
        } else {
            self.biased_exponent() - 1075
        }
    }

    /// The number is finite and its absolute value is at most `whole`.
    pub open spec fn magnitude_at_most(self, whole: nat) -> bool {
        &&& self.is_finite()
        &&& if self.scale() <= 0 {
            self.significand() <= whole * pow2((-self.scale()) as nat)
        } else {
            self.significand() * pow2(self.scale() as nat) <= whole
        }
    }

    /// The number is finite and its value is exactly `whole`.
    pub open spec fn is_whole(self, whole: nat) -> bool {
        &&& self.is_finite()
        &&& !self.negative()
        &&& if self.scale() <= 0 {
            self.significand() == whole * pow2((-self.scale()) as nat)
        } else {
            self.significand() * pow2(self.scale() as nat) == whole
        }
    }

    /// A number from its bit pattern.
    pub fn from_bits(bits: u64) -> (r: Double)
        ensures
            r.bits == bits,
    {
        Double { bits }
    }

    /// The bit pattern of the number.
    pub fn to_bits(self) -> (r: u64)
        ensures
            r == self.bits,
    {
        self.bits
    }

    /// Positive zero.
    pub fn zero() -> (r: Double)
        ensures
            r.bits == 0,
            r.is_whole(0),
    {
        Double { bits: 0 }
    }

    /// Whether the number lies in `[-180, 180]`.
    pub fn is_longitude(self) -> (r: bool)
        ensures
            r == self.magnitude_at_most(180),
    {
        proof {
            lemma_longitude_pattern(self);
        }
        self.bits % SIGN_BIT <= LONGITUDE_LIMIT
    }

    /// Whether the number lies in `[-90, 90]`.
    pub fn is_latitude(self) -> (r: bool)
        ensures
            r == self.magnitude_at_most(90),
    {
        proof {
            lemma_latitude_pattern(self);
        }
        self.bits % SIGN_BIT <= LATITUDE_LIMIT
    }
}

/// The binade of a quotient in `[1, 8)`: the `k` with `2^k <= total / count < 2^(k+1)`.
pub open spec fn mean_binade(total: nat, count: nat) -> nat {
    if total < 2 * count {
        0
    } else if total < 4 * count {
        1
    } else {
        2
    }
}

/// The quotient `total / count`, rounded to the nearest double, ties to the
/// even significand. Meant for `count <= total < 8 * count`.
pub open spec fn mean_of(total: nat, count: nat) -> Double {
    let k = mean_binade(total, count);
    let scaled = total * pow2((52 - k) as nat);
    let m = scaled / count;
    let rest = scaled % count;
    let carry: nat = if 2 * rest > count || (2 * rest == count && m % 2 == 1) {
        1
    } else {
        0
    };
    Double { bits: ((1022 + k) * HIDDEN_BIT + m + carry) as u64 }
}

/// The mean of `count` ratings that add up to `total`, as the nearest double.
pub fn mean(total: u64, count: u64) -> (r: Double)
    requires
        0 < count <= total,
        total < 8 * count,
    ensures
        r == mean_of(total as nat, count as nat),
{
    let wide_total: u128 = total as u128;
    let wide_count: u128 = count as u128;
    let k: u64 = if wide_total < 2 * wide_count {
        0
    } else if wide_total < 4 * wide_count {
        1
    } else {
        2
    };
    let weight: u128 = if k == 0 {
        0x10_0000_0000_0000
    } else if k == 1 {
        0x8_0000_0000_0000
    } else {
        0x4_0000_0000_0000
    };
    proof {
        lemma2_to64_rest();
        assert(weight == pow2((52 - k) as nat));
        lemma_quotient_in_binade(total as nat, count as nat);
        assert(wide_total * weight < 0x1_0000_0000_0000_0000 * 0x10_0000_0000_0000)
            by (nonlinear_arith)
            requires
                wide_total < 0x1_0000_0000_0000_0000,
                weight <= 0x10_0000_0000_0000,
        ;
    }
    let scaled: u128 = wide_total * weight;
    let m: u128 = scaled / wide_count;
    let rest: u128 = scaled % wide_count;
    let carry: u64 = if 2 * rest > wide_count || (2 * rest == wide_count && m % 2 == 1) {
        1
    } else {
        0
    };
    let low: u64 = m as u64;
    Double { bits: (1022 + k) * HIDDEN_BIT + low + carry }
}

/// Scaled into its binade, the quotient has a significand with the hidden bit and
/// no more.
pub proof fn lemma_quotient_in_binade(total: nat, count: nat)
    requires
        0 < count <= total,
        total < 8 * count,
    ensures
        ({
            let k = mean_binade(total, count);
            let m = total * pow2((52 - k) as nat) / count;
            HIDDEN_BIT <= m < 2 * HIDDEN_BIT
        }),
{
    let k = mean_binade(total, count);
    let weight = pow2((52 - k) as nat);
    let scaled = total * weight;
    let m = scaled / count;
    lemma2_to64_rest();
    vstd::arithmetic::div_mod::lemma_fundamental_div_mod(scaled as int, count as int);
    let rest = scaled % count;
    assert(scaled == count * m + rest);
    assert(0 <= rest < count);
    assert(HIDDEN_BIT == 0x10_0000_0000_0000);
    assert(scaled >= 0x10_0000_0000_0000 * count && scaled < 0x20_0000_0000_0000 * count) by {
        if k == 0 {
            assert(weight == 0x10_0000_0000_0000);
            assert(scaled == total * 0x10_0000_0000_0000);
        } else if k == 1 {
            assert(weight == 0x8_0000_0000_0000);
            assert(scaled == total * 0x8_0000_0000_0000);
        } else {
            assert(weight == 0x4_0000_0000_0000);
            assert(scaled == total * 0x4_0000_0000_0000);
        }
    }
    assert(m >= 0x10_0000_0000_0000) by (nonlinear_arith)
        requires
            count * m + rest >= 0x10_0000_0000_0000 * count,
            rest < count,
            count > 0,
    ;
    assert(m < 0x20_0000_0000_0000) by (nonlinear_arith)
        requires
            count * m + rest < 0x20_0000_0000_0000 * count,
            rest >= 0,
            count > 0,
    ;
}

/// The mean is a finite, positive double in `[1, 8]`, and it lies within half
/// a unit in the last place of the quotient: with `step` the weight of the last
/// place in units of `2^-52`, twice the distance is at most one `step`.
pub proof fn lemma_mean_is_nearest(total: nat, count: nat)
    requires
        0 < count <= total,
        total < 8 * count,
    ensures
        ({
            let d = mean_of(total, count);
            let step = pow2((d.scale() + 52) as nat);
            let held = d.significand() * step * count;
            let exact = total * pow2(52);
            &&& d.is_finite()
            &&& !d.negative()
            &&& -52 <= d.scale() <= -49
            &&& 2 * (held - exact) <= step * count
            &&& 2 * (exact - held) <= step * count
        }),
{
    let k = mean_binade(total, count);
    let weight = pow2((52 - k) as nat);
    let scaled = total * weight;
    let m = scaled / count;
    let rest = scaled % count;
    let carry: nat = if 2 * rest > count || (2 * rest == count && m % 2 == 1) {
        1
    } else {
        0
    };
    let d = mean_of(total, count);
    lemma2_to64();
    lemma2_to64_rest();
    lemma_quotient_in_binade(total, count);
    vstd::arithmetic::div_mod::lemma_fundamental_div_mod(scaled as int, count as int);
    assert(scaled == count * m + rest);
    let sum = (1022 + k) * HIDDEN_BIT + m + carry;
    assert(sum < 0x8000_0000_0000_0000);
    assert(d.bits == sum);
    let whole = m + carry;
    // the pattern's fields, with and without a carry into the next binade
    let e: nat = if whole == 2 * HIDDEN_BIT {
        1024 + k
    } else {
        1023 + k
    };
    let f: nat = if whole == 2 * HIDDEN_BIT {
        0
    } else {
        (whole - HIDDEN_BIT) as nat
    };
    assert(sum == e * HIDDEN_BIT + f);
    assert(d.bits / HIDDEN_BIT == e && d.bits % HIDDEN_BIT == f) by {
        vstd::arithmetic::div_mod::lemma_fundamental_div_mod_converse(
            sum as int,
            HIDDEN_BIT as int,
            e as int,
            f as int,
        );
    }
    assert(d.biased_exponent() == e);
    assert(d.fraction() == f);
    let step = pow2((d.scale() + 52) as nat);
    let held = d.significand() * step * count;
    let exact = total * pow2(52);
    // both sides in units of 2^-52: held = whole * 2^k * count, exact = scaled * 2^k
    let unit = pow2(k);
    assert(weight * unit == pow2(52)) by {
        lemma_pow2_adds((52 - k) as nat, k);
    }
    assert(exact == scaled * unit) by (nonlinear_arith)
        requires
            exact == total * pow2(52),
            scaled == total * weight,
            weight * unit == pow2(52),
    ;
    assert(d.significand() * step == whole * unit) by {
        if whole == 2 * HIDDEN_BIT {
            assert(step == pow2((k + 1) as nat));
            lemma_pow2_unfold((k + 1) as nat);
            assert(HIDDEN_BIT * (2 * unit) == (2 * HIDDEN_BIT) * unit) by (nonlinear_arith);
        } else {
            assert(step == unit);
        }
    }
    assert(held == whole * unit * count);
    assert(unit > 0) by {
        lemma_pow2_pos(k);
    }
    assert(step <= 2 * unit && step >= unit) by {
        lemma_pow2_unfold((k + 1) as nat);
    }
    assert(2 * (held - exact) <= unit * count && 2 * (exact - held) <= unit * count)
        by (nonlinear_arith)
        requires
            held == whole * unit * count,
            exact == scaled * unit,
            scaled == count * m + rest,
            whole == m + carry,
            0 <= rest < count,
            unit > 0,
            carry == 0 ==> 2 * rest <= count,
            carry == 1 ==> 2 * rest >= count,
            carry == 0 || carry == 1,
    ;
    assert(unit * count <= step * count) by (nonlinear_arith)
        requires
            unit <= step,
            count > 0,
    ;
}

/// Where the quotient is a whole number, the mean is that number, exactly.
pub proof fn lemma_mean_is_exact(rate: nat, count: nat)
    requires
        1 <= rate <= 7,
        count > 0,
    ensures
        mean_of(rate * count, count).is_whole(rate),
{
    let total = rate * count;
    let k = mean_binade(total, count);
    let weight = pow2((52 - k) as nat);
    lemma2_to64();
    lemma2_to64_rest();
    assert(total >= count && total < 8 * count) by (nonlinear_arith)
        requires
            total == rate * count,
            1 <= rate <= 7,
            count > 0,
    ;
    assert(rate >= 2 ==> total >= 2 * count) by (nonlinear_arith)
        requires
            total == rate * count,
            count > 0,
    ;
    assert(rate >= 4 ==> total >= 4 * count) by (nonlinear_arith)
        requires
            total == rate * count,
            count > 0,
    ;
    assert(rate < 2 ==> total < 2 * count) by (nonlinear_arith)
        requires
            total == rate * count,
            count > 0,
    ;
    assert(rate < 4 ==> total < 4 * count) by (nonlinear_arith)
        requires
            total == rate * count,
            count > 0,
    ;
    let scaled = total * weight;
    assert(scaled == (rate * weight) * count) by (nonlinear_arith)
        requires
            scaled == total * weight,
            total == rate * count,
    ;
    vstd::arithmetic::div_mod::lemma_fundamental_div_mod_converse(
        scaled as int,
        count as int,
        (rate * weight) as int,
        0,
    );
    let m = rate * weight;
    assert(scaled / count == m && scaled % count == 0);
    let d = mean_of(total, count);
    let sum = (1022 + k) * HIDDEN_BIT + m;
    assert(HIDDEN_BIT <= m < 2 * HIDDEN_BIT) by {
        if k == 0 {
            assert(rate == 1 && m == rate * 0x10_0000_0000_0000);
        } else if k == 1 {
            assert(2 <= rate <= 3 && m == rate * 0x8_0000_0000_0000);
        } else {
            assert(4 <= rate <= 7 && m == rate * 0x4_0000_0000_0000);
        }
    }
    assert(d.bits == sum);
    let e: nat = 1023 + k;
    let f: nat = (m - HIDDEN_BIT) as nat;
    vstd::arithmetic::div_mod::lemma_fundamental_div_mod_converse(
        sum as int,
        HIDDEN_BIT as int,
        e as int,
        f as int,
    );
    assert(d.biased_exponent() == e);
    assert(d.fraction() == f);
    assert(d.scale() == k - 52);
    assert(d.significand() == rate * pow2((52 - k) as nat));
}

/// Among patterns, order without the sign bit is order of magnitude: a number
/// is at most `whole` in absolute value exactly when its pattern, sign bit
/// cleared, is at most the pattern of `whole`.
pub proof fn lemma_pattern_bounds(d: Double, limit: u64, whole: nat)
    requires
        limit < SIGN_BIT,
        (Double { bits: limit }).is_whole(whole),
        1 <= (Double { bits: limit }).biased_exponent() <= 1075,
    ensures
        d.bits % SIGN_BIT <= limit <==> d.magnitude_at_most(whole),
{
    let l = Double { bits: limit };
    let e = d.biased_exponent();
    let le = l.biased_exponent();
    let low: u64 = d.bits % SIGN_BIT;
    assert(low / HIDDEN_BIT == e && low % HIDDEN_BIT == d.fraction()) by {
        lemma_fields(d.bits);
    }
    assert(limit == le * HIDDEN_BIT + l.fraction());
    assert(low == e * HIDDEN_BIT + d.fraction());
    let gap: nat = (1075 - le) as nat;
    assert(l.significand() == whole * pow2(gap));
    lemma_pow2_pos(gap);
    lemma2_to64();
    lemma2_to64_rest();
    if e == 2047 {
        assert(low > limit);
    } else if e == le {
    } else if e < le {
        // below the limit's binade: under twice the weight of the hidden bit
        let far: nat = (-d.scale()) as nat;
        assert(low < limit);
        assert(l.significand() >= HIDDEN_BIT);
        if far == gap {
            // a subnormal under the smallest normal binade
            assert(d.significand() < HIDDEN_BIT);
        } else {
            lemma_pow2_strictly_increases(gap, far);
            lemma_pow2_unfold(far);
            lemma_pow2_unfold((gap + 1) as nat);
            if far > gap + 1 {
                lemma_pow2_strictly_increases((gap + 1) as nat, far);
            }
            assert(pow2(far) >= 2 * pow2(gap));
            assert(whole * pow2(far) >= whole * (2 * pow2(gap))) by (nonlinear_arith)
                requires
                    pow2(far) >= 2 * pow2(gap),
            ;
            assert(whole * (2 * pow2(gap)) == 2 * (whole * pow2(gap))) by (nonlinear_arith);
            assert(d.significand() < 2 * HIDDEN_BIT);
        }
    } else {
        // above the limit's binade
        assert(low > limit);
        assert(d.significand() >= HIDDEN_BIT);
        assert(l.significand() < 2 * HIDDEN_BIT);
        if d.scale() <= 0 {
            let near: nat = (-d.scale()) as nat;
            assert(near < gap);
            lemma_pow2_strictly_increases(near, gap);
            lemma_pow2_unfold(gap);
            lemma_pow2_unfold((near + 1) as nat);
            if gap > near + 1 {
                lemma_pow2_strictly_increases((near + 1) as nat, gap);
            }
            assert(pow2(gap) >= 2 * pow2(near));
            assert(whole * pow2(gap) >= whole * (2 * pow2(near))) by (nonlinear_arith)
                requires
                    pow2(gap) >= 2 * pow2(near),
            ;
            assert(whole * (2 * pow2(near)) == 2 * (whole * pow2(near))) by (nonlinear_arith);
        } else {
            let up: nat = d.scale() as nat;
            lemma_pow2_pos(up);
            lemma_pow2_unfold(up);
            assert(pow2(up) >= 2);
            assert(d.significand() * pow2(up) >= 2 * d.significand()) by (nonlinear_arith)
                requires
                    pow2(up) >= 2,
            ;
            assert(whole <= whole * pow2(gap)) by (nonlinear_arith)
                requires
                    pow2(gap) >= 1,
            ;
        }
    }
}

/// A number lies in `[-180, 180]` exactly when its pattern, sign bit cleared,
/// is at most that of 180.
pub proof fn lemma_longitude_pattern(d: Double)
    ensures
        d.bits % SIGN_BIT <= LONGITUDE_LIMIT <==> d.magnitude_at_most(180),
{
    lemma2_to64_rest();
    assert((Double { bits: LONGITUDE_LIMIT }).biased_exponent() == 1030);
    assert((Double { bits: LONGITUDE_LIMIT }).significand() == 180 * pow2(45));
    lemma_pattern_bounds(d, LONGITUDE_LIMIT, 180);
}

/// A number lies in `[-90, 90]` exactly when its pattern, sign bit cleared, is
/// at most that of 90.
pub proof fn lemma_latitude_pattern(d: Double)
    ensures
        d.bits % SIGN_BIT <= LATITUDE_LIMIT <==> d.magnitude_at_most(90),
{
    lemma2_to64_rest();
    assert((Double { bits: LATITUDE_LIMIT }).biased_exponent() == 1029);
    assert((Double { bits: LATITUDE_LIMIT }).significand() == 90 * pow2(46));
    lemma_pattern_bounds(d, LATITUDE_LIMIT, 90);
}

/// Clearing the sign bit leaves exponent and fraction as they were.
proof fn lemma_fields(bits: u64)
    ensures
        (bits % SIGN_BIT) / HIDDEN_BIT == bits / HIDDEN_BIT % 2048,
        (bits % SIGN_BIT) % HIDDEN_BIT == bits % HIDDEN_BIT,
        bits / HIDDEN_BIT % 2048 < 2048,
{
    assert((bits % 0x8000_0000_0000_0000u64) / 0x10_0000_0000_0000u64 == bits
        / 0x10_0000_0000_0000u64 % 2048u64) by (bit_vector);
    assert((bits % 0x8000_0000_0000_0000u64) % 0x10_0000_0000_0000u64 == bits
        % 0x10_0000_0000_0000u64) by (bit_vector);
}

} // verus!
