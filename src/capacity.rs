//! Scripts that look only at capacities and counts of records.
use crate::codec::{le_u64_at, read_u64_le};
use crate::error::Error;
use vstd::prelude::*;

verus! {

/// The exact total capacity the consumed records must hold.
pub const REQUIRED_CAPACITY_TOTAL: u64 = 50_000_000_000;

/// The number of consumed records a fixed count type requires.
pub const REQUIRED_INPUT_COUNT: u64 = 3;

/// The number of produced records a fixed count type requires.
pub const REQUIRED_OUTPUT_COUNT: u64 = 5;

/// The sum of the capacities.
pub open spec fn capacity_total(capacities: Seq<u64>) -> int
    decreases capacities.len(),
{
    if capacities.len() == 0 {
        0
    } else {
        capacity_total(capacities.drop_last()) + capacities.last()
    }
}

/// How many capacities equal `amount`.
pub open spec fn count_equal(capacities: Seq<u64>, amount: u64) -> int
    decreases capacities.len(),
{
    if capacities.len() == 0 {
        0
    } else {
        count_equal(capacities.drop_last(), amount) + if capacities.last() == amount {
            1int
        } else {
            0int
        }
    }
}

/// The lock that opens only when the consumed capacities sum to exactly
/// the required total.
pub open spec fn ckb500_outcome(input_capacities: Seq<u64>) -> Result<(), Error> {
    if capacity_total(input_capacities) == REQUIRED_CAPACITY_TOTAL {
        Ok(())
    } else {
        Err(Error::Unauthorized)
    }
}

/// The lock that opens when some consumed record holds exactly the capacity
/// its eight-byte argument names.
pub open spec fn icclock_outcome(args: Seq<u8>, input_capacities: Seq<u64>) -> Result<(), Error> {
    if args.len() != 8 {
        Err(Error::ArgsLength)
    } else if exists|i: int|
        0 <= i < input_capacities.len() && #[trigger] input_capacities[i] == le_u64_at(args, 0) {
        Ok(())
    } else {
        Err(Error::Unauthorized)
    }
}

/// The lock that opens when at least `count` produced records, and at least
/// one, hold exactly `amount`; the arguments start with `amount` and `count`.
pub open spec fn occlock_outcome(args: Seq<u8>, output_capacities: Seq<u64>) -> Result<(), Error> {
    if args.len() < 16 {
        Err(Error::ArgsLength)
    } else {
        let found = count_equal(output_capacities, le_u64_at(args, 0));
        if found >= 1 && found >= le_u64_at(args, 8) {
            Ok(())
        } else {
            Err(Error::Unauthorized)
        }
    }
}

/// The type that requires exactly three consumed records.
pub open spec fn ic3type_outcome(input_count: int) -> Result<(), Error> {
    if input_count == REQUIRED_INPUT_COUNT {
        Ok(())
    } else {
        Err(Error::Unauthorized)
    }
}

/// The type that requires as many consumed records as its eight-byte
/// argument names, or three without arguments.
pub open spec fn icctype_outcome(args: Seq<u8>, input_count: int) -> Result<(), Error> {
    if args.len() != 0 && args.len() != 8 {
        Err(Error::ArgsLength)
    } else if input_count == (if args.len() == 8 {
        le_u64_at(args, 0)
    } else {
        REQUIRED_INPUT_COUNT
    }) {
        Ok(())
    } else {
        Err(Error::Unauthorized)
    }
}

/// The type that requires exactly five produced records.
pub open spec fn oc5type_outcome(output_count: int) -> Result<(), Error> {
    if output_count == REQUIRED_OUTPUT_COUNT {
        Ok(())
    } else {
        Err(Error::Unauthorized)
    }
}

/// A prefix never sums to more than the whole.
proof fn lemma_capacity_total_prefix(capacities: Seq<u64>, n: int)
    requires
        0 <= n <= capacities.len(),
    ensures
        capacity_total(capacities.subrange(0, n)) <= capacity_total(capacities),
    decreases capacities.len() - n,
{
    if n < capacities.len() {
        assert(capacities.subrange(0, n + 1).drop_last() =~= capacities.subrange(0, n));
        lemma_capacity_total_prefix(capacities, n + 1);
    } else {
        assert(capacities.subrange(0, n) =~= capacities);
    }
}

/// A prefix never holds more matches than the whole.
proof fn lemma_count_equal_prefix(capacities: Seq<u64>, amount: u64, n: int)
    requires
        0 <= n <= capacities.len(),
    ensures
        count_equal(capacities.subrange(0, n), amount) <= count_equal(capacities, amount),
    decreases capacities.len() - n,
{
    if n < capacities.len() {
        assert(capacities.subrange(0, n + 1).drop_last() =~= capacities.subrange(0, n));
        lemma_count_equal_prefix(capacities, amount, n + 1);
    } else {
        assert(capacities.subrange(0, n) =~= capacities);
    }
}

/// Validates a spend of the exact-total lock.
pub fn validate_ckb500(input_capacities: &Vec<u64>) -> (r: Result<(), Error>)
    ensures
        r == ckb500_outcome(input_capacities@),
{
    let mut total: u64 = 0;
    let mut i: usize = 0;
    while i < input_capacities.len()
        invariant
            i <= input_capacities@.len(),
            total == capacity_total(input_capacities@.subrange(0, i as int)),
            total <= REQUIRED_CAPACITY_TOTAL,
        decreases input_capacities@.len() - i,
    {
        proof {
            assert(input_capacities@.subrange(0, i as int + 1).drop_last()
                =~= input_capacities@.subrange(0, i as int));
        }
        if input_capacities[i] > REQUIRED_CAPACITY_TOTAL - total {
            proof {
                lemma_capacity_total_prefix(input_capacities@, i as int + 1);
            }
            return Err(Error::Unauthorized);
        }
        total = total + input_capacities[i];
        i = i + 1;
    }
    assert(input_capacities@.subrange(0, i as int) =~= input_capacities@);
    if total == REQUIRED_CAPACITY_TOTAL {
        Ok(())
    } else {
        Err(Error::Unauthorized)
    }
}

/// Validates a spend of the capacity-match lock.
pub fn validate_icclock(args: &Vec<u8>, input_capacities: &Vec<u64>) -> (r: Result<(), Error>)
    ensures
        r == icclock_outcome(args@, input_capacities@),
{
    if args.len() != 8 {
        return Err(Error::ArgsLength);
    }
    let amount = read_u64_le(args, 0);
    let mut i: usize = 0;
    while i < input_capacities.len()
        invariant
            i <= input_capacities@.len(),
            args@.len() == 8,
            amount == le_u64_at(args@, 0),
            forall|k: int| 0 <= k < i ==> input_capacities@[k] != amount,
        decreases input_capacities@.len() - i,
    {
        if input_capacities[i] == amount {
            assert(input_capacities@[i as int] == le_u64_at(args@, 0));
            return Ok(());
        }
        i = i + 1;
    }
    Err(Error::Unauthorized)
}

/// Validates a spend of the capacity-count lock.
pub fn validate_occlock(args: &Vec<u8>, output_capacities: &Vec<u64>) -> (r: Result<(), Error>)
    ensures
        r == occlock_outcome(args@, output_capacities@),
{
    if args.len() < 16 {
        return Err(Error::ArgsLength);
    }
    let amount = read_u64_le(args, 0);
    let count = read_u64_le(args, 8);
    let mut found: u64 = 0;
    let mut i: usize = 0;
    while i < output_capacities.len()
        invariant
            i <= output_capacities@.len(),
            args@.len() >= 16,
            amount == le_u64_at(args@, 0),
            count == le_u64_at(args@, 8),
            found == count_equal(output_capacities@.subrange(0, i as int), amount),
            found <= i,
            !(found >= 1 && found >= count),
        decreases output_capacities@.len() - i,
    {
        proof {
            assert(output_capacities@.subrange(0, i as int + 1).drop_last()
                =~= output_capacities@.subrange(0, i as int));
        }
        if output_capacities[i] == amount {
            found = found + 1;
            if found >= count {
                proof {
                    lemma_count_equal_prefix(output_capacities@, amount, i as int + 1);
                }
                return Ok(());
            }
        }
        i = i + 1;
    }
    assert(output_capacities@.subrange(0, i as int) =~= output_capacities@);
    Err(Error::Unauthorized)
}

/// Validates a transaction for the fixed input-count type.
pub fn validate_ic3type(input_count: usize) -> (r: Result<(), Error>)
    ensures
        r == ic3type_outcome(input_count as int),
{
    if input_count as u64 == REQUIRED_INPUT_COUNT {
        Ok(())
    } else {
        Err(Error::Unauthorized)
    }
}

/// Validates a transaction for the configurable input-count type.
pub fn validate_icctype(args: &Vec<u8>, input_count: usize) -> (r: Result<(), Error>)
    ensures
        r == icctype_outcome(args@, input_count as int),
{
    if args.len() != 0 && args.len() != 8 {
        return Err(Error::ArgsLength);
    }
    let required = if args.len() == 8 {
        read_u64_le(args, 0)
    } else {
        REQUIRED_INPUT_COUNT
    };
    if input_count as u64 == required {
        Ok(())
    } else {
        Err(Error::Unauthorized)
    }
}

/// Validates a transaction for the fixed output-count type.
pub fn validate_oc5type(output_count: usize) -> (r: Result<(), Error>)
    ensures
        r == oc5type_outcome(output_count as int),
{
    if output_count as u64 == REQUIRED_OUTPUT_COUNT {
        Ok(())
    } else {
        Err(Error::Unauthorized)
    }
}

} // verus!
