//! Natural numbers of any size, as far as exact evaluation of a power law
//! needs them: multiplication by a machine word and comparison.

use vstd::arithmetic::power::{lemma_pow_increases, lemma_pow_positive, pow};
use vstd::prelude::*;

verus! {

/// The base of the limbs: 2^32.
pub const BASE: u64 = 0x1_0000_0000;

/// The number written by limbs in base 2^32, least significant first.
pub open spec fn value_of(limbs: Seq<u32>) -> int
    decreases limbs.len(),
{
    if limbs.len() == 0 {
        0
    } else {
        value_of(limbs.drop_last()) + limbs.last() * pow(BASE as int, (limbs.len() - 1) as nat)
    }
}

/// Limbs without a zero in the most significant place: each number is
/// written in one way.
pub open spec fn is_trimmed(limbs: Seq<u32>) -> bool {
    limbs.len() > 0 ==> limbs.last() != 0
}

/// The number written by `width` limbs is below `BASE^width`.
pub proof fn lemma_value_bounds(limbs: Seq<u32>)
    ensures
        0 <= value_of(limbs) < pow(BASE as int, limbs.len()),
    decreases limbs.len(),
{
    reveal(pow);
    if limbs.len() > 0 {
        lemma_value_bounds(limbs.drop_last());
        let place = pow(BASE as int, (limbs.len() - 1) as nat);
        lemma_pow_positive(BASE as int, (limbs.len() - 1) as nat);
        assert(0 <= limbs.last() * place <= (BASE - 1) * place) by (nonlinear_arith)
            requires
                0 <= limbs.last() <= BASE - 1,
                0 < place,
        ;
        assert((BASE - 1) * place + place == BASE * place) by (nonlinear_arith);
    }
}

/// A number written with a most significant limb that is not zero is at
/// least the place value of that limb.
pub proof fn lemma_value_reaches_top(limbs: Seq<u32>)
    requires
        limbs.len() > 0,
        limbs.last() != 0,
    ensures
        pow(BASE as int, (limbs.len() - 1) as nat) <= value_of(limbs),
{
    lemma_value_bounds(limbs.drop_last());
    let place = pow(BASE as int, (limbs.len() - 1) as nat);
    lemma_pow_positive(BASE as int, (limbs.len() - 1) as nat);
    assert(place <= limbs.last() * place) by (nonlinear_arith)
        requires
            1 <= limbs.last(),
            0 < place,
    ;
}

/// One more limb adds its value at its place.
pub proof fn lemma_value_push(limbs: Seq<u32>, limb: u32)
    ensures
        value_of(limbs.push(limb)) == value_of(limbs) + limb * pow(BASE as int, limbs.len()),
{
    assert(limbs.push(limb).drop_last() =~= limbs);
}

/// The first `count + 1` limbs are the first `count` and the limb after
/// them.
pub proof fn lemma_value_take(limbs: Seq<u32>, count: int)
    requires
        0 <= count < limbs.len(),
    ensures
        value_of(limbs.take(count + 1)) == value_of(limbs.take(count)) + limbs[count] * pow(
            BASE as int,
            count as nat,
        ),
{
    assert(limbs.take(count + 1).drop_last() =~= limbs.take(count));
}

/// A natural number.
pub struct Natural {
    limbs: Vec<u32>,
}

impl View for Natural {
    type V = int;

    closed spec fn view(&self) -> int {
        value_of(self.limbs@)
    }
}

impl Natural {
    /// Whether the number is written in the one way it is kept in.
    pub closed spec fn wf(&self) -> bool {
        is_trimmed(self.limbs@)
    }

    /// The number one.
    pub fn one() -> (number: Natural)
        ensures
            number.wf(),
            number@ == 1,
    {
        let mut limbs: Vec<u32> = Vec::new();
        limbs.push(1);
        proof {
            lemma_value_push(Seq::<u32>::empty(), 1);
            reveal(pow);
        }
        Natural { limbs }
    }

    /// The product of this number and a machine word.
    pub fn times(&self, factor: u32) -> (product: Natural)
        requires
            self.wf(),
        ensures
            product.wf(),
            product@ == self@ * factor,
    {
        let mut limbs: Vec<u32> = Vec::new();
        if factor == 0 {
            assert(self@ * 0 == 0) by (nonlinear_arith);
            return Natural { limbs };
        }
        let ghost digits = self.limbs@;
        let mut carry: u64 = 0;
        let mut index: usize = 0;
        while index < self.limbs.len()
            invariant
                digits == self.limbs@,
                1 <= factor,
                index <= digits.len(),
                limbs@.len() == index,
                carry < BASE,
                value_of(limbs@) + carry * pow(BASE as int, index as nat) == value_of(
                    digits.take(index as int),
                ) * factor,
                index > 0 && carry == 0 ==> limbs@.last() >= digits[index - 1],
            decreases digits.len() - index,
        {
            let digit = self.limbs[index];
            proof {
                assert(digit * factor + carry < BASE * BASE) by (nonlinear_arith)
                    requires
                        0 <= digit < BASE,
                        0 <= factor < BASE,
                        0 <= carry < BASE,
                ;
            }
            let total: u64 = digit as u64 * factor as u64 + carry;
            let low: u32 = (total % BASE) as u32;
            let high: u64 = total / BASE;
            proof {
                let place = pow(BASE as int, index as nat);
                let before = value_of(limbs@);
                let lower = value_of(digits.take(index as int));
                lemma_value_push(limbs@, low);
                lemma_value_take(digits, index as int);
                reveal(pow);
                assert(pow(BASE as int, (index + 1) as nat) == BASE * place);
                assert(before + low * place + high * (BASE * place) == (lower + digit * place)
                    * factor) by (nonlinear_arith)
                    requires
                        before + carry * place == lower * factor,
                        low + high * BASE == digit * factor + carry,
                ;
                assert(high == 0 ==> low >= digit) by (nonlinear_arith)
                    requires
                        low + high * BASE == digit * factor + carry,
                        1 <= factor,
                        0 <= carry,
                        0 <= digit,
                ;
            }
            limbs.push(low);
            carry = high;
            index = index + 1;
        }
        proof {
            assert(digits.take(index as int) =~= digits);
        }
        if carry > 0 {
            proof {
                lemma_value_push(limbs@, carry as u32);
            }
            limbs.push(carry as u32);
        } else {
            assert(carry * pow(BASE as int, index as nat) == 0) by (nonlinear_arith)
                requires
                    carry == 0,
            ;
        }
        Natural { limbs }
    }

    /// Whether this number is at most the other.
    pub fn at_most(&self, other: &Natural) -> (holds: bool)
        requires
            self.wf(),
            other.wf(),
        ensures
            holds == (self@ <= other@),
    {
        let ghost mine = self.limbs@;
        let ghost theirs = other.limbs@;
        let width = self.limbs.len();
        if width != other.limbs.len() {
            proof {
                lemma_value_bounds(mine);
                lemma_value_bounds(theirs);
                if mine.len() < theirs.len() {
                    lemma_value_reaches_top(theirs);
                    lemma_pow_increases(BASE as nat, mine.len(), (theirs.len() - 1) as nat);
                } else {
                    lemma_value_reaches_top(mine);
                    lemma_pow_increases(BASE as nat, theirs.len(), (mine.len() - 1) as nat);
                }
            }
            return width < other.limbs.len();
        }
        let mut index: usize = width;
        proof {
            assert(mine.take(index as int) =~= mine);
            assert(theirs.take(index as int) =~= theirs);
        }
        while index > 0
            invariant
                mine == self.limbs@,
                theirs == other.limbs@,
                mine.len() == theirs.len(),
                index <= mine.len(),
                value_of(mine) - value_of(theirs) == value_of(mine.take(index as int)) - value_of(
                    theirs.take(index as int),
                ),
            decreases index,
        {
            index = index - 1;
            let left = self.limbs[index];
            let right = other.limbs[index];
            proof {
                lemma_value_take(mine, index as int);
                lemma_value_take(theirs, index as int);
                lemma_value_bounds(mine.take(index as int));
                lemma_value_bounds(theirs.take(index as int));
                let place = pow(BASE as int, index as nat);
                lemma_pow_positive(BASE as int, index as nat);
                if left < right {
                    assert(left * place + place <= right * place) by (nonlinear_arith)
                        requires
                            left + 1 <= right,
                            0 < place,
                    ;
                }
                if left > right {
                    assert(right * place + place <= left * place) by (nonlinear_arith)
                        requires
                            right + 1 <= left,
                            0 < place,
                    ;
                }
            }
            if left != right {
                return left < right;
            }
        }
        true
    }
}

} // verus!
