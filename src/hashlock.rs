//! The hash lock: spending needs a witness whose digest the arguments hold.
use crate::codec::bytes_equal;
use crate::error::Error;
use vstd::prelude::*;

verus! {

/// Length of the digest the arguments begin with.
pub const DIGEST_LEN: usize = 32;

/// The largest witness the script can load.
pub const WITNESS_SIZE_LIMIT: usize = 1024;

/// The unkeyed, unsalted, unpersonalised 32-byte BLAKE2b digest of `data`.
pub uninterp spec fn blake2b_256_of(data: Seq<u8>) -> Seq<u8>;

/// Relies on blake2b_ref's `Blake2bBuilder::new(32).build()`, then
/// `Blake2b::update` and `Blake2b::finalize`: a 32-byte digest that depends
/// on the bytes alone.
#[verifier::external_body]
fn blake2b_256(data: &Vec<u8>) -> (r: Vec<u8>)
    ensures
        r@ == blake2b_256_of(data@),
        r@.len() == DIGEST_LEN,
{
    let mut digest = [0u8; 32];
    let mut hasher = blake2b_ref::Blake2bBuilder::new(32).build();
    hasher.update(data.as_slice());
    hasher.finalize(&mut digest);
    digest.to_vec()
}

/// The verdict given the witness digest: the arguments must start with it.
pub open spec fn digest_outcome(args: Seq<u8>, digest: Seq<u8>) -> Result<(), Error> {
    if args.len() < DIGEST_LEN {
        Err(Error::ArgsLength)
    } else if args.subrange(0, DIGEST_LEN as int) == digest {
        Ok(())
    } else {
        Err(Error::Unauthorized)
    }
}

/// The verdict of the hash lock on its arguments and on the first witness
/// of its group (`None` when there is none).
pub open spec fn hashlock_outcome(args: Seq<u8>, witness: Option<Seq<u8>>) -> Result<(), Error> {
    if args.len() < DIGEST_LEN {
        Err(Error::ArgsLength)
    } else {
        match witness {
            None => Err(Error::WitnessLoadFailure),
            Some(w) => if w.len() > WITNESS_SIZE_LIMIT {
                Err(Error::WitnessLoadFailure)
            } else {
                digest_outcome(args, blake2b_256_of(w))
            },
        }
    }
}

/// The bytes of an optional witness.
pub open spec fn witness_view(witness: Option<Vec<u8>>) -> Option<Seq<u8>> {
    match witness {
        Some(w) => Some(w@),
        None => None,
    }
}

/// Checks a witness digest against the digest the arguments start with.
pub fn check_preimage_digest(args: &Vec<u8>, digest: &Vec<u8>) -> (r: Result<(), Error>)
    ensures
        r == digest_outcome(args@, digest@),
{
    if args.len() < DIGEST_LEN {
        return Err(Error::ArgsLength);
    }
    let mut expected: Vec<u8> = Vec::new();
    let mut i: usize = 0;
    while i < DIGEST_LEN
        invariant
            i <= DIGEST_LEN,
            DIGEST_LEN <= args@.len(),
            expected@ =~= args@.subrange(0, i as int),
        decreases DIGEST_LEN - i,
    {
        expected.push(args[i]);
        i = i + 1;
    }
    if bytes_equal(&expected, digest) {
        Ok(())
    } else {
        Err(Error::Unauthorized)
    }
}

/// Validates a spend of the hash lock.
pub fn validate_hashlock(args: &Vec<u8>, witness: &Option<Vec<u8>>) -> (r: Result<(), Error>)
    ensures
        r == hashlock_outcome(args@, witness_view(*witness)),
{
    if args.len() < DIGEST_LEN {
        return Err(Error::ArgsLength);
    }
    match witness {
        None => Err(Error::WitnessLoadFailure),
        Some(w) => {
            if w.len() > WITNESS_SIZE_LIMIT {
                return Err(Error::WitnessLoadFailure);
            }
            let digest = blake2b_256(w);
            check_preimage_digest(args, &digest)
        },
    }
}

} // verus!
