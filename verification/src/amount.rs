//! Stateless validation and checked arithmetic for stroop amounts.

use vstd::prelude::*;

use crate::types::Error;

verus! {

/// Largest amount accepted for a single milestone or deposit, in stroops.
pub const MAX_SINGLE_AMOUNT_STROOPS: i128 = 100_000_000_000_000_000;

/// The error a single amount is rejected with, if any.
pub open spec fn single_amount_error(amount: int) -> Option<Error> {
    if amount <= 0 {
        Some(Error::AmountMustBePositive)
    } else if amount > MAX_SINGLE_AMOUNT_STROOPS {
        Some(Error::InvalidMilestoneAmount)
    } else {
        None
    }
}

/// The error of the first rejected amount of `s`, if any.
pub open spec fn amounts_error(s: Seq<i128>) -> Option<Error>
    decreases s.len(),
{
    if s.len() == 0 {
        None
    } else {
        match amounts_error(s.drop_last()) {
            Some(e) => Some(e),
            None => single_amount_error(s.last() as int),
        }
    }
}

/// Mathematical sum of a sequence of amounts.
pub open spec fn sum_amounts(s: Seq<i128>) -> int
    decreases s.len(),
{
    if s.len() == 0 {
        0
    } else {
        sum_amounts(s.drop_last()) + s.last()
    }
}

/// `Ok(())` or the error of `e`.
pub open spec fn as_result(e: Option<Error>) -> Result<(), Error> {
    match e {
        Some(err) => Err(err),
        None => Ok(()),
    }
}

pub open spec fn in_i128(x: int) -> bool {
    i128::MIN <= x <= i128::MAX
}

/// Rejects non-positive amounts and amounts above [`MAX_SINGLE_AMOUNT_STROOPS`].
pub fn validate_single_amount(amount: i128) -> (r: Result<(), Error>)
    ensures
        r == as_result(single_amount_error(amount as int)),
{
    if amount <= 0 {
        return Err(Error::AmountMustBePositive);
    }
    if amount > MAX_SINGLE_AMOUNT_STROOPS {
        return Err(Error::InvalidMilestoneAmount);
    }
    Ok(())
}

/// Validates every amount in order and returns their sum.
pub fn validate_amount_array(amounts: &[i128]) -> (r: Result<i128, Error>)
    ensures
        match amounts_error(amounts@) {
            Some(e) => r == Err::<i128, Error>(e),
            None => r == Ok::<i128, Error>(sum_amounts(amounts@) as i128) && 0 <= sum_amounts(
                amounts@,
            ) <= i128::MAX,
        },
{
    let mut total: i128 = 0;
    let mut i: usize = 0;
    while i < amounts.len()
        invariant
            i <= amounts@.len(),
            amounts_error(amounts@.take(i as int)) is None,
            total == sum_amounts(amounts@.take(i as int)),
            0 <= total <= i * MAX_SINGLE_AMOUNT_STROOPS,
        decreases amounts@.len() - i,
    {
        let amount = amounts[i];
        proof {
            assert(amounts@.take(i + 1).drop_last() =~= amounts@.take(i as int));
        }
        match validate_single_amount(amount) {
            Err(e) => {
                proof {
                    lemma_amounts_error_prefix(amounts@, i as int + 1);
                }
                return Err(e);
            },
            Ok(()) => {},
        }
        total = total + amount;
        i = i + 1;
    }
    proof {
        assert(amounts@.take(i as int) =~= amounts@);
        assert(i <= usize::MAX);
        assert(total <= i128::MAX);
    }
    Ok(total)
}

/// A rejected prefix makes the whole sequence rejected with the same error.
pub proof fn lemma_amounts_error_prefix(s: Seq<i128>, n: int)
    requires
        0 <= n <= s.len(),
        amounts_error(s.take(n)) is Some,
    ensures
        amounts_error(s) == amounts_error(s.take(n)),
    decreases s.len() - n,
{
    if n < s.len() {
        assert(s.take(n + 1).drop_last() =~= s.take(n));
        lemma_amounts_error_prefix(s, n + 1);
    } else {
        assert(s.take(n) =~= s);
    }
}

/// A sequence with no rejected amount holds only valid amounts.
pub proof fn lemma_amounts_valid(s: Seq<i128>)
    requires
        amounts_error(s) is None,
    ensures
        forall|j: int| 0 <= j < s.len() ==> single_amount_error(#[trigger] s[j] as int) is None,
    decreases s.len(),
{
    if s.len() > 0 {
        lemma_amounts_valid(s.drop_last());
        assert forall|j: int| 0 <= j < s.len() implies single_amount_error(#[trigger] s[j] as int)
            is None by {
            if j < s.len() - 1 {
                assert(s.drop_last()[j] == s[j]);
            }
        }
    }
}

/// Rejects invalid amounts, then a total above `max_total`.
pub fn validate_milestone_amounts(amounts: &[i128], max_total: i128) -> (r: Result<(), Error>)
    ensures
        r == match amounts_error(amounts@) {
            Some(e) => Err(e),
            None => if sum_amounts(amounts@) > max_total {
                Err(Error::InvalidMilestoneAmount)
            } else {
                Ok(())
            },
        },
{
    let total = validate_amount_array(amounts)?;
    if total > max_total {
        return Err(Error::InvalidMilestoneAmount);
    }
    Ok(())
}

/// Validates every amount in order and returns their sum.
pub fn accumulate_amounts(amounts: &[i128]) -> (r: Result<i128, Error>)
    ensures
        r == match amounts_error(amounts@) {
            Some(e) => Err(e),
            None => Ok(sum_amounts(amounts@) as i128),
        },
{
    validate_amount_array(amounts)
}

/// `a + b`, or `None` when the sum leaves the `i128` range.
pub fn safe_add_amounts(a: i128, b: i128) -> (r: Option<i128>)
    ensures
        r == if in_i128(a + b) {
            Some((a + b) as i128)
        } else {
            None
        },
{
    a.checked_add(b)
}

/// `a - b`, or `None` when the difference leaves the `i128` range.
pub fn safe_subtract_amounts(a: i128, b: i128) -> (r: Option<i128>)
    ensures
        r == if in_i128(a - b) {
            Some((a - b) as i128)
        } else {
            None
        },
{
    a.checked_sub(b)
}

/// The outcome of depositing `deposit` on top of `current` against capacity `cap`.
pub open spec fn deposit_result(deposit: int, current: int, cap: int) -> Result<(), Error> {
    match single_amount_error(deposit) {
        Some(e) => Err(e),
        None => if !in_i128(current + deposit) {
            Err(Error::PotentialOverflow)
        } else if current + deposit > cap {
            Err(Error::InvalidMilestoneAmount)
        } else {
            Ok(())
        },
    }
}

/// Validates a deposit: a valid single amount whose addition to `current`
/// neither overflows nor exceeds `cap`.
pub fn validate_deposit_amount(deposit: i128, current: i128, cap: i128) -> (r: Result<(), Error>)
    ensures
        r == deposit_result(deposit as int, current as int, cap as int),
{
    validate_single_amount(deposit)?;
    let sum = match current.checked_add(deposit) {
        Some(s) => s,
        None => return Err(Error::PotentialOverflow),
    };
    if sum > cap {
        return Err(Error::InvalidMilestoneAmount);
    }
    Ok(())
}

/// `funded - released - refunded`, with each subtraction checked.
pub fn checked_available_balance(funded_amount: i128, released_amount: i128, refunded_amount: i128)
    -> (r: Result<i128, Error>)
    ensures
        r == if !in_i128(funded_amount - released_amount) || !in_i128(
            funded_amount - released_amount - refunded_amount,
        ) {
            Err::<i128, Error>(Error::AccountingInvariantViolated)
        } else {
            Ok((funded_amount - released_amount - refunded_amount) as i128)
        },
{
    let balance = match funded_amount.checked_sub(released_amount) {
        Some(b) => b,
        None => return Err(Error::AccountingInvariantViolated),
    };
    match balance.checked_sub(refunded_amount) {
        Some(b) => Ok(b),
        None => Err(Error::AccountingInvariantViolated),
    }
}

} // verus!
