//! The gamma power law in exact arithmetic.
//!
//! For an exponent `n / d` the corrected level of `v` is the integer part of
//! `255 * (v / 255)^(n / d)`. Raising to the power `d` and clearing
//! fractions states this without roots or fractions, which is how it is
//! stated here. What holds of every table that follows the law exactly is
//! proved below; a table evaluated in floating point follows it as closely
//! as its arithmetic does.

use crate::color::{lemma_luminance_is_byte, luminance_of, Rgb};
use crate::gamma::{identity_table, table_fault, CurveError, LEVELS};
use crate::natural::Natural;
use crate::mapper::{corrected_luminance, lemma_lower_response_is_darker};
use crate::palette::rank_of;
use vstd::arithmetic::div_mod::{
    lemma_fundamental_div_mod, lemma_mod_multiples_basic, lemma_mod_self_0, lemma_small_mod,
};
use vstd::arithmetic::power::{
    lemma0_pow, lemma_pow0, lemma_pow_adds, lemma_pow_distributes, lemma_pow_multiplies,
    lemma_pow_positive, pow,
};
use vstd::prelude::*;

verus! {

/// Whether `corrected` is the integer part of
/// `255 * (level / 255)^(numerator / denominator)`.
pub open spec fn is_corrected(level: int, corrected: int, numerator: nat, denominator: nat) -> bool {
    &&& pow(corrected, denominator) * pow(255, numerator) <= pow(level, numerator) * pow(
        255,
        denominator,
    )
    &&& pow(level, numerator) * pow(255, denominator) < pow(corrected + 1, denominator) * pow(
        255,
        numerator,
    )
}

/// Whether a table is the response of the exponent
/// `numerator / denominator`.
pub open spec fn is_power_law(table: Seq<u8>, numerator: nat, denominator: nat) -> bool {
    &&& table.len() == LEVELS
    &&& forall|level: int|
        0 <= level < LEVELS ==> is_corrected(
            level,
            (#[trigger] table[level]) as int,
            numerator,
            denominator,
        )
}

/// A power of a number that is not negative is not negative.
proof fn lemma_pow_nonnegative(base: int, exponent: nat)
    requires
        0 <= base,
    ensures
        0 <= pow(base, exponent),
    decreases exponent,
{
    reveal(pow);
    if exponent > 0 {
        lemma_pow_nonnegative(base, (exponent - 1) as nat);
        assert(0 <= base * pow(base, (exponent - 1) as nat)) by (nonlinear_arith)
            requires
                0 <= base,
                0 <= pow(base, (exponent - 1) as nat),
        ;
    }
}

/// Powers keep the order of their bases.
proof fn lemma_pow_base_ordered(smaller: int, larger: int, exponent: nat)
    requires
        0 <= smaller <= larger,
    ensures
        0 <= pow(smaller, exponent) <= pow(larger, exponent),
    decreases exponent,
{
    reveal(pow);
    if exponent > 0 {
        lemma_pow_base_ordered(smaller, larger, (exponent - 1) as nat);
        let s = pow(smaller, (exponent - 1) as nat);
        let l = pow(larger, (exponent - 1) as nat);
        assert(0 <= smaller * s <= larger * l) by (nonlinear_arith)
            requires
                0 <= smaller <= larger,
                0 <= s <= l,
        ;
    }
}

/// Powers above the zeroth keep the strict order of their bases.
proof fn lemma_pow_base_strictly_ordered(smaller: int, larger: int, exponent: nat)
    requires
        0 <= smaller < larger,
        0 < exponent,
    ensures
        pow(smaller, exponent) < pow(larger, exponent),
{
    reveal(pow);
    lemma_pow_base_ordered(smaller, larger, (exponent - 1) as nat);
    lemma_pow_positive(larger, (exponent - 1) as nat);
    let s = pow(smaller, (exponent - 1) as nat);
    let l = pow(larger, (exponent - 1) as nat);
    assert(smaller * s < larger * l) by (nonlinear_arith)
        requires
            0 <= smaller < larger,
            0 <= s <= l,
            0 < l,
    ;
}

/// An exponent has one response: at each level at most one value is the
/// corrected one.
pub proof fn lemma_corrected_is_unique(
    level: int,
    first: int,
    second: int,
    numerator: nat,
    denominator: nat,
)
    requires
        0 <= first,
        0 <= second,
        is_corrected(level, first, numerator, denominator),
        is_corrected(level, second, numerator, denominator),
    ensures
        first == second,
{
    lemma_not_above(level, first, second, numerator, denominator);
    lemma_not_above(level, second, first, numerator, denominator);
}

/// Of two values that are both the corrected one, neither is above the
/// other.
proof fn lemma_not_above(level: int, first: int, second: int, numerator: nat, denominator: nat)
    requires
        0 <= first,
        0 <= second,
        is_corrected(level, first, numerator, denominator),
        is_corrected(level, second, numerator, denominator),
    ensures
        second <= first,
{
    if first < second {
        lemma_pow_base_ordered(first + 1, second, denominator);
        lemma_pow_positive(255, numerator);
        let low = pow(first + 1, denominator);
        let high = pow(second, denominator);
        let scale = pow(255, numerator);
        assert(low * scale <= high * scale) by (nonlinear_arith)
            requires
                low <= high,
                0 < scale,
        ;
    }
}

/// The response of exponent one leaves every level where it is.
pub proof fn lemma_identity_is_power_law(denominator: nat)
    requires
        0 < denominator,
    ensures
        is_power_law(identity_table(), denominator, denominator),
{
    assert forall|level: int| 0 <= level < LEVELS implies is_corrected(
        level,
        (#[trigger] identity_table()[level]) as int,
        denominator,
        denominator,
    ) by {
        lemma_pow_base_strictly_ordered(level, level + 1, denominator);
        lemma_pow_positive(255, denominator);
        let here = pow(level, denominator);
        let next = pow(level + 1, denominator);
        let scale = pow(255, denominator);
        assert(here * scale < next * scale) by (nonlinear_arith)
            requires
                here < next,
                0 < scale,
        ;
    }
}

/// The response of a positive exponent keeps black at black and white at
/// white, so it is taken as a gamma curve.
pub proof fn lemma_positive_exponent_is_taken(table: Seq<u8>, numerator: nat, denominator: nat)
    requires
        0 < numerator,
        0 < denominator,
        is_power_law(table, numerator, denominator),
    ensures
        table_fault(table) is None,
{
    let black = table[0] as int;
    let white = table[255] as int;
    assert(is_corrected(0, black, numerator, denominator));
    assert(is_corrected(255, white, numerator, denominator));
    lemma0_pow(numerator);
    lemma_pow_positive(255, numerator);
    lemma_pow_positive(255, denominator);
    if black > 0 {
        lemma_pow_positive(black, denominator);
        assert(0 < pow(black, denominator) * pow(255, numerator)) by (nonlinear_arith)
            requires
                0 < pow(black, denominator),
                0 < pow(255, numerator),
        ;
        assert(pow(0, numerator) * pow(255, denominator) == 0) by (nonlinear_arith)
            requires
                pow(0, numerator) == 0,
        ;
    }
    if white < 255 {
        lemma_pow_base_ordered(white + 1, 255, denominator);
        let low = pow(white + 1, denominator);
        let full = pow(255, denominator);
        let scale = pow(255, numerator);
        assert(low * scale <= scale * full) by (nonlinear_arith)
            requires
                low <= full,
                0 < scale,
        ;
    }
}

/// The response of exponent zero sends black to white, so it is refused as
/// a gamma curve.
pub proof fn lemma_zero_exponent_is_refused(table: Seq<u8>, denominator: nat)
    requires
        0 < denominator,
        is_power_law(table, 0, denominator),
    ensures
        table[0] == 255,
        table_fault(table) == Some(CurveError::BlackPoint),
{
    let black = table[0] as int;
    assert(is_corrected(0, black, 0, denominator));
    lemma_pow0(0);
    lemma_pow0(255);
    if black < 255 {
        lemma_pow_base_ordered(black + 1, 255, denominator);
    }
}

/// The same response is described by an exponent and by the same exponent
/// with numerator and denominator multiplied alike.
pub proof fn lemma_exponent_scales(
    level: int,
    corrected: int,
    numerator: nat,
    denominator: nat,
    factor: nat,
)
    requires
        0 <= level,
        0 <= corrected,
        0 < factor,
        is_corrected(level, corrected, numerator, denominator),
    ensures
        is_corrected(
            level,
            corrected,
            (numerator * factor) as nat,
            (denominator * factor) as nat,
        ),
{
    let scale_n = pow(255, numerator);
    let scale_d = pow(255, denominator);
    let low = pow(corrected, denominator) * scale_n;
    let mid = pow(level, numerator) * scale_d;
    let high = pow(corrected + 1, denominator) * scale_n;
    lemma_pow_nonnegative(corrected, denominator);
    lemma_pow_nonnegative(level, numerator);
    lemma_pow_positive(255, numerator);
    lemma_pow_positive(255, denominator);
    assert(0 <= low) by (nonlinear_arith)
        requires
            low == pow(corrected, denominator) * scale_n,
            0 <= pow(corrected, denominator),
            0 < scale_n,
    ;
    assert(0 <= mid) by (nonlinear_arith)
        requires
            mid == pow(level, numerator) * scale_d,
            0 <= pow(level, numerator),
            0 < scale_d,
    ;
    lemma_pow_base_ordered(low, mid, factor);
    lemma_pow_base_strictly_ordered(mid, high, factor);
    lemma_product_power(corrected, denominator, numerator, factor);
    lemma_product_power(level, numerator, denominator, factor);
    lemma_product_power(corrected + 1, denominator, numerator, factor);
}

/// `(base^e * 255^f)^k` is `base^(e k) * 255^(f k)`.
proof fn lemma_product_power(base: int, exponent: nat, scale_exponent: nat, factor: nat)
    ensures
        pow(pow(base, exponent) * pow(255, scale_exponent), factor) == pow(
            base,
            (exponent * factor) as nat,
        ) * pow(255, (scale_exponent * factor) as nat),
{
    lemma_pow_distributes(pow(base, exponent), pow(255, scale_exponent), factor);
    lemma_pow_multiplies(base, exponent, factor);
    lemma_pow_multiplies(255, scale_exponent, factor);
}

/// Of two exponents over one denominator, the higher corrects every level
/// to at most what the lower corrects it to.
proof fn lemma_higher_is_lower(
    level: int,
    by_lower: int,
    by_higher: int,
    lower: nat,
    higher: nat,
    denominator: nat,
)
    requires
        0 <= level <= 255,
        0 <= by_lower,
        0 <= by_higher,
        lower <= higher,
        0 < denominator,
        is_corrected(level, by_lower, lower, denominator),
        is_corrected(level, by_higher, higher, denominator),
    ensures
        by_higher <= by_lower,
{
    if lower == higher {
        lemma_corrected_is_unique(level, by_lower, by_higher, lower, denominator);
    } else if by_higher > by_lower {
        let delta = (higher - lower) as nat;
        let next = pow(by_lower + 1, denominator);
        let reached = pow(by_higher, denominator);
        let scale_lower = pow(255, lower);
        let scale_higher = pow(255, higher);
        let scale_delta = pow(255, delta);
        let scale_d = pow(255, denominator);
        let level_lower = pow(level, lower);
        let level_higher = pow(level, higher);
        let level_delta = pow(level, delta);
        lemma_pow_base_ordered(by_lower + 1, by_higher, denominator);
        lemma_pow_positive(by_lower + 1, denominator);
        lemma_pow_positive(255, lower);
        lemma_pow_positive(255, higher);
        lemma_pow_positive(255, denominator);
        lemma_pow_adds(level, delta, lower);
        lemma_pow_adds(255, delta, lower);
        lemma_pow_base_ordered(level, 255, delta);
        assert(next * scale_higher <= reached * scale_higher) by (nonlinear_arith)
            requires
                next <= reached,
                0 < scale_higher,
        ;
        if level == 0 {
            lemma0_pow(higher);
            assert(level_higher * scale_d == 0) by (nonlinear_arith)
                requires
                    level_higher == 0,
            ;
            assert(0 < next * scale_higher) by (nonlinear_arith)
                requires
                    0 < next,
                    0 < scale_higher,
            ;
        } else {
            lemma_pow_positive(level, delta);
            assert(level_higher * scale_d == level_delta * (level_lower * scale_d))
                by (nonlinear_arith)
                requires
                    level_higher == level_delta * level_lower,
            ;
            assert(level_delta * (level_lower * scale_d) < level_delta * (next * scale_lower))
                by (nonlinear_arith)
                requires
                    level_lower * scale_d < next * scale_lower,
                    0 < level_delta,
            ;
            assert(0 <= next * scale_lower) by (nonlinear_arith)
                requires
                    0 < next,
                    0 < scale_lower,
            ;
            assert(level_delta * (next * scale_lower) <= scale_delta * (next * scale_lower))
                by (nonlinear_arith)
                requires
                    level_delta <= scale_delta,
                    0 <= next * scale_lower,
            ;
            assert(scale_delta * (next * scale_lower) == next * scale_higher) by (nonlinear_arith)
                requires
                    scale_higher == scale_delta * scale_lower,
            ;
        }
    }
}

/// Raising the exponent never brightens: of the responses of two
/// exponents, that of the higher corrects every level to at most what that
/// of the lower does, and so shows every colour with a glyph at least as
/// dark. With the identity as the response of exponent one, an exponent
/// above one darkens and an exponent below one lightens.
pub proof fn lemma_higher_exponent_is_darker(
    by_lower: Seq<u8>,
    lower_numerator: nat,
    lower_denominator: nat,
    by_higher: Seq<u8>,
    higher_numerator: nat,
    higher_denominator: nat,
    color: Rgb,
)
    requires
        0 < lower_denominator,
        0 < higher_denominator,
        lower_numerator * higher_denominator <= higher_numerator * lower_denominator,
        is_power_law(by_lower, lower_numerator, lower_denominator),
        is_power_law(by_higher, higher_numerator, higher_denominator),
    ensures
        corrected_luminance(color, by_higher) <= corrected_luminance(color, by_lower),
        rank_of(corrected_luminance(color, by_higher)) <= rank_of(
            corrected_luminance(color, by_lower),
        ),
{
    lemma_luminance_is_byte(color);
    let level = luminance_of(color);
    let low = by_lower[level] as int;
    let high = by_higher[level] as int;
    lemma_exponent_scales(level, low, lower_numerator, lower_denominator, higher_denominator);
    lemma_exponent_scales(level, high, higher_numerator, higher_denominator, lower_denominator);
    assert(lower_denominator * higher_denominator == higher_denominator * lower_denominator)
        by (nonlinear_arith);
    assert(0 < lower_denominator * higher_denominator) by (nonlinear_arith)
        requires
            0 < lower_denominator,
            0 < higher_denominator,
    ;
    lemma_higher_is_lower(
        level,
        low,
        high,
        (lower_numerator * higher_denominator) as nat,
        (higher_numerator * lower_denominator) as nat,
        (lower_denominator * higher_denominator) as nat,
    );
    lemma_lower_response_is_darker(color, by_higher, by_lower);
}

/// The greatest common divisor.
pub open spec fn gcd(a: nat, b: nat) -> nat
    decreases b,
{
    if b == 0 {
        a
    } else {
        gcd(b, a % b)
    }
}

/// An exponent in lowest terms.
pub open spec fn lowest_terms(numerator: nat, denominator: nat) -> (nat, nat) {
    (numerator / gcd(numerator, denominator), denominator / gcd(numerator, denominator))
}

/// The greatest common divisor divides both.
pub proof fn lemma_gcd_divides(a: nat, b: nat)
    requires
        0 < a || 0 < b,
    ensures
        0 < gcd(a, b),
        a % gcd(a, b) == 0,
        b % gcd(a, b) == 0,
    decreases b,
{
    if b == 0 {
        lemma_mod_self_0(a as int);
        lemma_small_mod(0, a);
    } else {
        let rest = a % b;
        lemma_gcd_divides(b, rest);
        let g = gcd(b, rest) as int;
        lemma_fundamental_div_mod(a as int, b as int);
        lemma_fundamental_div_mod(b as int, g);
        lemma_fundamental_div_mod(rest as int, g);
        let times = (a / b) as int;
        let b_parts = (b as int) / g;
        let rest_parts = (rest as int) / g;
        let whole = b_parts * times + rest_parts;
        assert(a == whole * g) by (nonlinear_arith)
            requires
                a == b * times + rest,
                b == g * b_parts,
                rest == g * rest_parts,
                whole == b_parts * times + rest_parts,
        ;
        lemma_mod_multiples_basic(whole, g);
    }
}

/// The greatest common divisor of two machine words.
pub fn gcd_of(a: u32, b: u32) -> (divisor: u32)
    ensures
        divisor == gcd(a as nat, b as nat),
{
    let mut first: u32 = a;
    let mut second: u32 = b;
    while second != 0
        invariant
            gcd(first as nat, second as nat) == gcd(a as nat, b as nat),
        decreases second,
    {
        let rest: u32 = first % second;
        first = second;
        second = rest;
    }
    first
}

/// `start * base^exponent`.
fn scaled_power(start: &Natural, base: u32, exponent: u32) -> (product: Natural)
    requires
        start.wf(),
    ensures
        product.wf(),
        product@ == start@ * pow(base as int, exponent as nat),
{
    let mut product = start.times(1);
    let mut done: u32 = 0;
    proof {
        lemma_pow0(base as int);
    }
    while done < exponent
        invariant
            done <= exponent,
            product.wf(),
            product@ == start@ * pow(base as int, done as nat),
        decreases exponent - done,
    {
        let ghost before = product@;
        product = product.times(base);
        proof {
            reveal(pow);
            let lower = pow(base as int, done as nat);
            assert(pow(base as int, (done + 1) as nat) == base * lower);
            assert(before * base == start@ * (base * lower)) by (nonlinear_arith)
                requires
                    before == start@ * lower,
            ;
        }
        done = done + 1;
    }
    product
}

/// Whatever the level, 256 is above its corrected value.
proof fn lemma_beyond_white(level: int, numerator: nat, denominator: nat)
    requires
        0 <= level <= 255,
        0 < denominator,
    ensures
        pow(level, numerator) * pow(255, denominator) < pow(256, denominator) * pow(255, numerator),
{
    lemma_pow_base_ordered(level, 255, numerator);
    lemma_pow_base_strictly_ordered(255, 256, denominator);
    lemma_pow_positive(255, numerator);
    lemma_pow_positive(255, denominator);
    let raised = pow(level, numerator);
    let full = pow(255, numerator);
    let scale = pow(255, denominator);
    let beyond = pow(256, denominator);
    assert(raised * scale <= full * scale) by (nonlinear_arith)
        requires
            raised <= full,
            0 < scale,
    ;
    assert(full * scale < beyond * full) by (nonlinear_arith)
        requires
            scale < beyond,
            0 < full,
    ;
}

/// The response of the exponent `numerator / denominator`, each entry
/// found by exact comparison: entry `v` is the largest `c` with
/// `c^d * 255^n <= v^n * 255^d`.
pub fn power_table(numerator: u32, denominator: u32) -> (table: Vec<u8>)
    requires
        0 < denominator,
    ensures
        is_power_law(table@, numerator as nat, denominator as nat),
{
    let ghost n = numerator as nat;
    let ghost d = denominator as nat;
    let one = Natural::one();
    let scale_n = scaled_power(&one, 255, numerator);
    let scale_d = scaled_power(&one, 255, denominator);
    let mut candidates: Vec<Natural> = Vec::new();
    let mut value: u32 = 0;
    while value <= 256
        invariant
            value <= 257,
            n == numerator,
            d == denominator,
            scale_n.wf(),
            scale_n@ == pow(255, n),
            candidates@.len() == value,
            forall|c: int|
                0 <= c < value ==> (#[trigger] candidates@[c]).wf() && candidates@[c]@ == pow(
                    255,
                    n,
                ) * pow(c, d),
        decreases 257 - value,
    {
        let candidate = scaled_power(&scale_n, value, denominator);
        let ghost earlier = candidates@;
        candidates.push(candidate);
        proof {
            assert forall|c: int| 0 <= c < value + 1 implies (#[trigger] candidates@[c]).wf()
                && candidates@[c]@ == pow(255, n) * pow(c, d) by {
                if c < value {
                    assert(candidates@[c] == earlier[c]);
                }
            }
        }
        value = value + 1;
    }
    let mut table: Vec<u8> = Vec::new();
    let mut level: u32 = 0;
    while level < 256
        invariant
            level <= 256,
            0 < d,
            n == numerator,
            d == denominator,
            scale_d.wf(),
            scale_d@ == pow(255, d),
            candidates@.len() == 257,
            forall|c: int|
                0 <= c < 257 ==> (#[trigger] candidates@[c]).wf() && candidates@[c]@ == pow(255, n)
                    * pow(c, d),
            table@.len() == level,
            forall|v: int|
                0 <= v < level ==> is_corrected(v, (#[trigger] table@[v]) as int, n, d),
        decreases 256 - level,
    {
        let target = scaled_power(&scale_d, level, numerator);
        let mut corrected: usize = 0;
        proof {
            lemma0_pow(d);
            assert(candidates@[0]@ == 0) by (nonlinear_arith)
                requires
                    candidates@[0]@ == pow(255, n) * pow(0, d),
                    pow(0, d) == 0,
            ;
            lemma_pow_nonnegative(level as int, n);
            lemma_pow_positive(255, d);
            assert(0 <= target@) by (nonlinear_arith)
                requires
                    target@ == pow(255, d) * pow(level as int, n),
                    0 <= pow(level as int, n),
                    0 < pow(255, d),
            ;
        }
        while corrected < 255 && candidates[corrected + 1].at_most(&target)
            invariant
                corrected <= 255,
                candidates@.len() == 257,
                target.wf(),
                forall|c: int| 0 <= c < 257 ==> (#[trigger] candidates@[c]).wf(),
                candidates@[corrected as int]@ <= target@,
            decreases 255 - corrected,
        {
            corrected = corrected + 1;
        }
        proof {
            let c = corrected as int;
            let below = pow(c, d);
            let above = pow(c + 1, d);
            let raised = pow(level as int, n);
            let scale_num = pow(255, n);
            let scale_den = pow(255, d);
            assert(candidates@[c]@ == scale_num * below);
            assert(below * scale_num <= raised * scale_den) by (nonlinear_arith)
                requires
                    scale_num * below <= scale_den * raised,
            ;
            if corrected < 255 {
                assert(candidates@[c + 1]@ == scale_num * above);
                assert(raised * scale_den < above * scale_num) by (nonlinear_arith)
                    requires
                        scale_den * raised < scale_num * above,
                ;
            } else {
                lemma_beyond_white(level as int, n, d);
            }
        }
        table.push(corrected as u8);
        level = level + 1;
    }
    table
}

/// A response in lowest terms is the response of every exponent of the
/// same ratio.
pub proof fn lemma_power_law_scales(table: Seq<u8>, numerator: nat, denominator: nat, factor: nat)
    requires
        0 < factor,
        is_power_law(table, numerator, denominator),
    ensures
        is_power_law(table, (numerator * factor) as nat, (denominator * factor) as nat),
{
    assert forall|level: int| 0 <= level < LEVELS implies is_corrected(
        level,
        (#[trigger] table[level]) as int,
        (numerator * factor) as nat,
        (denominator * factor) as nat,
    ) by {
        lemma_exponent_scales(level, table[level] as int, numerator, denominator, factor);
    }
}

/// An exponent has one response: two tables that both follow its law are
/// the same table.
pub proof fn lemma_power_law_is_unique(
    first: Seq<u8>,
    second: Seq<u8>,
    numerator: nat,
    denominator: nat,
)
    requires
        is_power_law(first, numerator, denominator),
        is_power_law(second, numerator, denominator),
    ensures
        first == second,
{
    assert forall|level: int| 0 <= level < LEVELS implies first[level] == second[level] by {
        lemma_corrected_is_unique(
            level,
            first[level] as int,
            second[level] as int,
            numerator,
            denominator,
        );
    }
    assert(first =~= second);
}

} // verus!
