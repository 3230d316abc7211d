//! Classifying a transaction's shape from its record counts.
use crate::error::Error;
use vstd::prelude::*;

verus! {

/// How a script treats a transaction that both consumes and produces its
/// records, and whether it validates a creation.
#[derive(Clone, Copy, Debug, PartialEq, Eq, Structural)]
pub enum Structure {
    /// Exactly one before-record turned into one after-record.
    OneToOne,
    /// Exactly one before-record turned into one after-record; a single
    /// record produced from nothing is validated as a creation.
    WithModes,
    /// As many after-records as before-records, matched without regard to
    /// order.
    Matched,
}

/// The shape of a transaction as far as one script is concerned.
#[derive(Clone, Copy, Debug, PartialEq, Eq, Structural)]
pub enum Mode {
    /// The transaction consumes no record of the script: nothing to check.
    Idle,
    /// Records are consumed and none produced: always permitted.
    Burn,
    /// A record is produced from nothing, by a script that validates it.
    Create,
    /// Before-records are turned into after-records.
    Transfer,
}

/// The mode for `before_count` consumed and `after_count` produced records.
///
/// A transaction that consumes no record of the script is idle, whatever it
/// produces, with one exception: a script with modes validates a single
/// record produced from nothing as a creation. Consuming records and
/// producing none is a burn for every structure. Otherwise the counts must
/// fit the structure's transfer.
pub open spec fn mode_of(structure: Structure, before_count: int, after_count: int) -> Result<
    Mode,
    Error,
> {
    if before_count == 0 {
        if structure == Structure::WithModes && after_count == 1 {
            Ok(Mode::Create)
        } else {
            Ok(Mode::Idle)
        }
    } else if after_count == 0 {
        Ok(Mode::Burn)
    } else {
        match structure {
            Structure::Matched => if before_count == after_count {
                Ok(Mode::Transfer)
            } else {
                Err(Error::InvalidTransactionStructure)
            },
            _ => if before_count == 1 && after_count == 1 {
                Ok(Mode::Transfer)
            } else {
                Err(Error::InvalidTransactionStructure)
            },
        }
    }
}

/// Classifies a transaction by its record counts.
pub fn determine_mode(structure: Structure, before_count: usize, after_count: usize) -> (r: Result<
    Mode,
    Error,
>)
    ensures
        r == mode_of(structure, before_count as int, after_count as int),
{
    if before_count == 0 {
        if structure == Structure::WithModes && after_count == 1 {
            Ok(Mode::Create)
        } else {
            Ok(Mode::Idle)
        }
    } else if after_count == 0 {
        Ok(Mode::Burn)
    } else {
        match structure {
            Structure::Matched => if before_count == after_count {
                Ok(Mode::Transfer)
            } else {
                Err(Error::InvalidTransactionStructure)
            },
            _ => if before_count == 1 && after_count == 1 {
                Ok(Mode::Transfer)
            } else {
                Err(Error::InvalidTransactionStructure)
            },
        }
    }
}

} // verus!
