//! The fungible-token family: amounts may move and burn, but not grow,
//! unless the owner signs.
use crate::codec::{bytes_equal, le_u128_at, read_u128_le, views};
use crate::error::Error;
use vstd::prelude::*;

verus! {

/// Length of a lock-ownership digest, and of the arguments naming the owner.
pub const LOCK_HASH_LEN: usize = 32;

/// Width of an amount field: a little-endian `u128`.
pub const AMOUNT_LEN: usize = 16;

/// Some consumed record is locked by the owner the arguments name.
pub open spec fn is_owner(args: Seq<u8>, lock_hashes: Seq<Seq<u8>>) -> bool {
    exists|i: int| 0 <= i < lock_hashes.len() && #[trigger] lock_hashes[i] == args
}

/// Whether owner mode is on; the arguments must be one lock digest.
pub open spec fn owner_mode(args: Seq<u8>, lock_hashes: Seq<Seq<u8>>) -> Result<bool, Error> {
    if args.len() != LOCK_HASH_LEN {
        Err(Error::ArgsLength)
    } else {
        Ok(is_owner(args, lock_hashes))
    }
}

/// The total amount held by `data`, summed in order: a record shorter than
/// an amount field is an encoding error, and a running total past
/// `u128::MAX` is an overflow.
pub open spec fn token_amount(data: Seq<Seq<u8>>) -> Result<int, Error>
    decreases data.len(),
{
    if data.len() == 0 {
        Ok(0)
    } else {
        match token_amount(data.drop_last()) {
            Err(e) => Err(e),
            Ok(total) => if data.last().len() < AMOUNT_LEN {
                Err(Error::Encoding)
            } else if total + le_u128_at(data.last(), 0) > u128::MAX {
                Err(Error::AmountOverflow)
            } else {
                Ok(total + le_u128_at(data.last(), 0))
            },
        }
    }
}

/// The verdict of the token script: the owner may do anything; anyone else
/// may not produce more than is consumed.
pub open spec fn sudt_outcome(
    args: Seq<u8>,
    input_lock_hashes: Seq<Seq<u8>>,
    before: Seq<Seq<u8>>,
    after: Seq<Seq<u8>>,
) -> Result<(), Error> {
    match owner_mode(args, input_lock_hashes) {
        Err(e) => Err(e),
        Ok(true) => Ok(()),
        Ok(false) => match token_amount(before) {
            Err(e) => Err(e),
            Ok(consumed) => match token_amount(after) {
                Err(e) => Err(e),
                Ok(produced) => if consumed < produced {
                    Err(Error::Amount)
                } else {
                    Ok(())
                },
            },
        },
    }
}

/// Determines whether owner mode is on: some consumed record's lock digest
/// equals the arguments.
pub fn check_owner_mode(args: &Vec<u8>, input_lock_hashes: &Vec<Vec<u8>>) -> (r: Result<
    bool,
    Error,
>)
    ensures
        r == owner_mode(args@, views(input_lock_hashes@)),
{
    if args.len() != LOCK_HASH_LEN {
        return Err(Error::ArgsLength);
    }
    let mut i: usize = 0;
    while i < input_lock_hashes.len()
        invariant
            i <= input_lock_hashes@.len(),
            args@.len() == LOCK_HASH_LEN,
            forall|k: int| 0 <= k < i ==> views(input_lock_hashes@)[k] != args@,
        decreases input_lock_hashes@.len() - i,
    {
        if bytes_equal(&input_lock_hashes[i], args) {
            assert(views(input_lock_hashes@)[i as int] == args@);
            return Ok(true);
        }
        i = i + 1;
    }
    Ok(false)
}

/// Sums the amounts held by the records.
pub fn determine_token_amount(data: &Vec<Vec<u8>>) -> (r: Result<u128, Error>)
    ensures
        match r {
            Ok(total) => token_amount(views(data@)) == Ok::<int, Error>(total as int),
            Err(e) => token_amount(views(data@)) == Err::<int, Error>(e),
        },
{
    let mut total: u128 = 0;
    let mut i: usize = 0;
    while i < data.len()
        invariant
            i <= data@.len(),
            token_amount(views(data@).subrange(0, i as int)) == Ok::<int, Error>(total as int),
        decreases data@.len() - i,
    {
        let ghost prefix = views(data@).subrange(0, i as int + 1);
        proof {
            assert(prefix.drop_last() =~= views(data@).subrange(0, i as int));
            assert(prefix.last() == data@[i as int]@);
        }
        if data[i].len() < AMOUNT_LEN {
            proof {
                lemma_token_amount_error_persists(views(data@), i as int + 1);
            }
            return Err(Error::Encoding);
        }
        let amount = read_u128_le(&data[i], 0);
        if amount > u128::MAX - total {
            proof {
                lemma_token_amount_error_persists(views(data@), i as int + 1);
            }
            return Err(Error::AmountOverflow);
        }
        total = total + amount;
        i = i + 1;
    }
    assert(views(data@).subrange(0, data@.len() as int) =~= views(data@));
    Ok(total)
}

/// Once a prefix of the records fails to sum, the whole does too.
proof fn lemma_token_amount_error_persists(data: Seq<Seq<u8>>, n: int)
    requires
        0 <= n <= data.len(),
        token_amount(data.subrange(0, n)) is Err,
    ensures
        token_amount(data) == token_amount(data.subrange(0, n)),
    decreases data.len() - n,
{
    if n < data.len() {
        let next = data.subrange(0, n + 1);
        assert(next.drop_last() =~= data.subrange(0, n));
        lemma_token_amount_error_persists(data, n + 1);
    } else {
        assert(data.subrange(0, n) =~= data);
    }
}

/// Validates a transaction of the token script. `input_lock_hashes` are the
/// lock digests of all consumed records; `before` and `after` are the data
/// of the script's own consumed and produced records.
pub fn validate_sudt(
    args: &Vec<u8>,
    input_lock_hashes: &Vec<Vec<u8>>,
    before: &Vec<Vec<u8>>,
    after: &Vec<Vec<u8>>,
) -> (r: Result<(), Error>)
    ensures
        r == sudt_outcome(args@, views(input_lock_hashes@), views(before@), views(after@)),
{
    if check_owner_mode(args, input_lock_hashes)? {
        return Ok(());
    }
    let consumed = determine_token_amount(before)?;
    let produced = determine_token_amount(after)?;
    if consumed < produced {
        return Err(Error::Amount);
    }
    Ok(())
}

/// A total that sums is never negative.
pub proof fn lemma_token_amount_nonnegative(data: Seq<Seq<u8>>)
    ensures
        token_amount(data) matches Ok(total) ==> total >= 0,
    decreases data.len(),
{
    if data.len() > 0 {
        lemma_token_amount_nonnegative(data.drop_last());
    }
}

/// With the owner's lock among the consumed records, any transaction is
/// accepted, whatever amounts it consumes and produces.
pub proof fn lemma_owner_bypass(
    args: Seq<u8>,
    input_lock_hashes: Seq<Seq<u8>>,
    before: Seq<Seq<u8>>,
    after: Seq<Seq<u8>>,
    owner: int,
)
    requires
        args.len() == LOCK_HASH_LEN,
        0 <= owner < input_lock_hashes.len(),
        input_lock_hashes[owner] == args,
    ensures
        sudt_outcome(args, input_lock_hashes, before, after) == Ok::<(), Error>(()),
{
    assert(is_owner(args, input_lock_hashes));
}

/// Burning every consumed amount, producing nothing, is accepted as long
/// as the consumed amounts can be read and summed.
pub proof fn lemma_burn_all_accepted(
    args: Seq<u8>,
    input_lock_hashes: Seq<Seq<u8>>,
    before: Seq<Seq<u8>>,
)
    requires
        args.len() == LOCK_HASH_LEN,
        token_amount(before) is Ok,
    ensures
        sudt_outcome(args, input_lock_hashes, before, Seq::empty()) == Ok::<(), Error>(()),
{
    lemma_token_amount_nonnegative(before);
}

} // verus!
