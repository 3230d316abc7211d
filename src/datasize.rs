//! Scripts that bound the size of the records they produce.
use crate::codec::{le_u32_at, read_u32_le, views};
use crate::error::Error;
use vstd::prelude::*;

verus! {

/// The most bytes a record of the fixed-limit type may hold.
pub const MAX_DATA_SIZE: usize = 10;

/// Every record holds at most `limit` bytes.
pub open spec fn all_within(after: Seq<Seq<u8>>, limit: int) -> bool {
    forall|i: int| 0 <= i < after.len() ==> #[trigger] after[i].len() <= limit
}

/// The fixed-limit type: no produced record over ten bytes.
pub open spec fn data10_outcome(after: Seq<Seq<u8>>) -> Result<(), Error> {
    if all_within(after, MAX_DATA_SIZE as int) {
        Ok(())
    } else {
        Err(Error::DataLimitExceeded)
    }
}

/// The capped type: its four-byte argument is the most bytes a produced
/// record may hold.
pub open spec fn datacap_outcome(args: Seq<u8>, after: Seq<Seq<u8>>) -> Result<(), Error> {
    if args.len() != 4 {
        Err(Error::ArgsLength)
    } else if all_within(after, le_u32_at(args, 0) as int) {
        Ok(())
    } else {
        Err(Error::DataLimitExceeded)
    }
}

/// Records checked in order against a minimum and a maximum size: the
/// first one out of range decides the error.
pub open spec fn range_outcome(after: Seq<Seq<u8>>, minimum: int, maximum: int) -> Result<(), Error>
    decreases after.len(),
{
    if after.len() == 0 {
        Ok(())
    } else {
        match range_outcome(after.drop_last(), minimum, maximum) {
            Err(e) => Err(e),
            Ok(_) => if after.last().len() < minimum {
                Err(Error::DataMinimumNotMet)
            } else if after.last().len() > maximum {
                Err(Error::DataLimitExceeded)
            } else {
                Ok(())
            },
        }
    }
}

/// The ranged type: its arguments are a four-byte minimum and a four-byte
/// maximum size for each produced record.
pub open spec fn datarange_outcome(args: Seq<u8>, after: Seq<Seq<u8>>) -> Result<(), Error> {
    if args.len() != 8 {
        Err(Error::ArgsLength)
    } else {
        range_outcome(after, le_u32_at(args, 0) as int, le_u32_at(args, 4) as int)
    }
}

/// Checks that no record holds more than `limit` bytes.
fn check_within(after: &Vec<Vec<u8>>, limit: usize) -> (r: bool)
    ensures
        r == all_within(views(after@), limit as int),
{
    let mut i: usize = 0;
    while i < after.len()
        invariant
            i <= after@.len(),
            forall|k: int| 0 <= k < i ==> #[trigger] views(after@)[k].len() <= limit,
        decreases after@.len() - i,
    {
        if after[i].len() > limit {
            assert(views(after@)[i as int].len() > limit);
            return false;
        }
        i = i + 1;
    }
    true
}

/// Validates the records the fixed-limit type produces.
pub fn validate_data10(after: &Vec<Vec<u8>>) -> (r: Result<(), Error>)
    ensures
        r == data10_outcome(views(after@)),
{
    if check_within(after, MAX_DATA_SIZE) {
        Ok(())
    } else {
        Err(Error::DataLimitExceeded)
    }
}

/// Validates the records the capped type produces.
pub fn validate_datacap(args: &Vec<u8>, after: &Vec<Vec<u8>>) -> (r: Result<(), Error>)
    ensures
        r == datacap_outcome(args@, views(after@)),
{
    if args.len() != 4 {
        return Err(Error::ArgsLength);
    }
    let limit = read_u32_le(args, 0);
    if check_within(after, limit as usize) {
        Ok(())
    } else {
        Err(Error::DataLimitExceeded)
    }
}

/// Once a prefix of the records is out of range, the whole is too.
proof fn lemma_range_error_persists(after: Seq<Seq<u8>>, minimum: int, maximum: int, n: int)
    requires
        0 <= n <= after.len(),
        range_outcome(after.subrange(0, n), minimum, maximum) is Err,
    ensures
        range_outcome(after, minimum, maximum) == range_outcome(after.subrange(0, n), minimum, maximum),
    decreases after.len() - n,
{
    if n < after.len() {
        assert(after.subrange(0, n + 1).drop_last() =~= after.subrange(0, n));
        lemma_range_error_persists(after, minimum, maximum, n + 1);
    } else {
        assert(after.subrange(0, n) =~= after);
    }
}

/// Validates the records the ranged type produces.
pub fn validate_datarange(args: &Vec<u8>, after: &Vec<Vec<u8>>) -> (r: Result<(), Error>)
    ensures
        r == datarange_outcome(args@, views(after@)),
{
    if args.len() != 8 {
        return Err(Error::ArgsLength);
    }
    let minimum = read_u32_le(args, 0);
    let maximum = read_u32_le(args, 4);
    let ghost records = views(after@);
    let mut i: usize = 0;
    while i < after.len()
        invariant
            i <= after@.len(),
            records == views(after@),
            args@.len() == 8,
            minimum == le_u32_at(args@, 0),
            maximum == le_u32_at(args@, 4),
            range_outcome(records.subrange(0, i as int), minimum as int, maximum as int) == Ok::<
                (),
                Error,
            >(()),
        decreases after@.len() - i,
    {
        proof {
            assert(records.subrange(0, i as int + 1).drop_last() =~= records.subrange(0, i as int));
            assert(records.subrange(0, i as int + 1).last() == after@[i as int]@);
        }
        let size = after[i].len();
        if size < minimum as usize {
            proof {
                lemma_range_error_persists(records, minimum as int, maximum as int, i as int + 1);
            }
            return Err(Error::DataMinimumNotMet);
        }
        if size > maximum as usize {
            proof {
                lemma_range_error_persists(records, minimum as int, maximum as int, i as int + 1);
            }
            return Err(Error::DataLimitExceeded);
        }
        i = i + 1;
    }
    assert(records.subrange(0, i as int) =~= records);
    Ok(())
}

} // verus!
