//! The scripts and the small integer each reports to the host.
use crate::counter::CounterScript;
use crate::error::Error;
use vstd::prelude::*;

verus! {

/// Every validation script.
#[derive(Clone, Copy, Debug, PartialEq, Eq, Structural)]
pub enum Script {
    /// A script of the counter family.
    Counter(CounterScript),
    /// The fungible token with an owner.
    Sudt,
    /// The lock opened by a hash preimage.
    HashLock,
    /// The type whose records hold JSON.
    JsonCell,
    /// The type whose records hold at most ten bytes.
    Data10,
    /// The type whose records hold at most a configured number of bytes.
    DataCap,
    /// The type whose records hold a configured range of bytes.
    DataRange,
    /// The lock that needs an exact total input capacity.
    Ckb500,
    /// The lock that needs one input of a configured capacity.
    IccLock,
    /// The lock that needs enough outputs of a configured capacity.
    OccLock,
    /// The type that needs exactly three inputs.
    Ic3Type,
    /// The type that needs a configured number of inputs.
    IccType,
    /// The type that needs exactly five outputs.
    Oc5Type,
}

/// A script's exit value for an error: -1 for an abort, and for a kind
/// the script's table does not list.
pub open spec fn error_code(script: Script, e: Error) -> i8 {
    match script {
        Script::Counter(CounterScript::Counter) | Script::Counter(CounterScript::AggregateCounter) | Script::Counter(CounterScript::AggregateDoubleCounter) => match e {
            Error::InvalidTransactionStructure => 5,
            Error::InvalidCounterValue => 6,
            _ => -1i8,
        },
        Script::Counter(CounterScript::StrictCounter) | Script::Counter(CounterScript::ModeCounter) => match e {
            Error::CounterValueOverflow => 5,
            Error::InvalidTransactionStructure => 6,
            Error::InvalidInputCellData => 7,
            Error::InvalidOutputCellData => 8,
            Error::InvalidCounterValue => 9,
            _ => -1i8,
        },
        Script::Counter(CounterScript::DoubleCounter) => match e {
            Error::InvalidTransactionStructure => 5,
            Error::InvalidCounterValue1 => 6,
            Error::InvalidCounterValue2 => 7,
            _ => -1i8,
        },
        Script::Counter(CounterScript::ModeDoubleCounter) => match e {
            Error::CounterValueOverflow => 5,
            Error::InvalidTransactionStructure => 6,
            Error::InvalidInputCellData => 7,
            Error::InvalidOutputCellData => 8,
            Error::InvalidCounterValue1 => 9,
            Error::InvalidCounterValue2 => 10,
            _ => -1i8,
        },
        Script::Sudt => match e {
            Error::Encoding => 4,
            Error::Amount => 5,
            Error::ArgsLength => 6,
            Error::AmountOverflow => 7,
            _ => -1i8,
        },
        Script::HashLock => match e {
            Error::Unauthorized => 5,
            Error::ArgsLength => 6,
            Error::WitnessLoadFailure => 7,
            _ => -1i8,
        },
        Script::JsonCell => match e {
            Error::InvalidJson => 5,
            Error::InvalidStringData => 6,
            _ => -1i8,
        },
        Script::Data10 => match e {
            Error::DataLimitExceeded => 5,
            _ => -1i8,
        },
        Script::DataCap => match e {
            Error::ArgsLength => 5,
            Error::DataLimitExceeded => 6,
            _ => -1i8,
        },
        Script::DataRange => match e {
            Error::ArgsLength => 5,
            Error::DataLimitExceeded => 6,
            Error::DataMinimumNotMet => 7,
            _ => -1i8,
        },
        Script::Ckb500 | Script::Ic3Type | Script::Oc5Type => match e {
            Error::Unauthorized => 5,
            _ => -1i8,
        },
        Script::IccLock | Script::OccLock => match e {
            Error::Unauthorized => 5,
            Error::ArgsLength => 6,
            _ => -1i8,
        },
        Script::IccType => match e {
            Error::ArgsLength => 5,
            Error::Unauthorized => 6,
            _ => -1i8,
        },
    }
}

/// A script's exit value for a verdict; an accepted transaction gives zero.
pub open spec fn exit_code_of(script: Script, outcome: Result<(), Error>) -> i8 {
    match outcome {
        Ok(_) => 0,
        Err(e) => error_code(script, e),
    }
}

/// The exit value the script hands the host for a verdict.
pub fn exit_code(script: Script, outcome: Result<(), Error>) -> (r: i8)
    ensures
        r == exit_code_of(script, outcome),
{
    let e = match outcome {
        Ok(_) => {
            return 0;
        },
        Err(e) => e,
    };
    match script {
        Script::Counter(CounterScript::Counter) | Script::Counter(CounterScript::AggregateCounter) | Script::Counter(CounterScript::AggregateDoubleCounter) => match e {
            Error::InvalidTransactionStructure => 5,
            Error::InvalidCounterValue => 6,
            _ => -1i8,
        },
        Script::Counter(CounterScript::StrictCounter) | Script::Counter(CounterScript::ModeCounter) => match e {
            Error::CounterValueOverflow => 5,
            Error::InvalidTransactionStructure => 6,
            Error::InvalidInputCellData => 7,
            Error::InvalidOutputCellData => 8,
            Error::InvalidCounterValue => 9,
            _ => -1i8,
        },
        Script::Counter(CounterScript::DoubleCounter) => match e {
            Error::InvalidTransactionStructure => 5,
            Error::InvalidCounterValue1 => 6,
            Error::InvalidCounterValue2 => 7,
            _ => -1i8,
        },
        Script::Counter(CounterScript::ModeDoubleCounter) => match e {
            Error::CounterValueOverflow => 5,
            Error::InvalidTransactionStructure => 6,
            Error::InvalidInputCellData => 7,
            Error::InvalidOutputCellData => 8,
            Error::InvalidCounterValue1 => 9,
            Error::InvalidCounterValue2 => 10,
            _ => -1i8,
        },
        Script::Sudt => match e {
            Error::Encoding => 4,
            Error::Amount => 5,
            Error::ArgsLength => 6,
            Error::AmountOverflow => 7,
            _ => -1i8,
        },
        Script::HashLock => match e {
            Error::Unauthorized => 5,
            Error::ArgsLength => 6,
            Error::WitnessLoadFailure => 7,
            _ => -1i8,
        },
        Script::JsonCell => match e {
            Error::InvalidJson => 5,
            Error::InvalidStringData => 6,
            _ => -1i8,
        },
        Script::Data10 => match e {
            Error::DataLimitExceeded => 5,
            _ => -1i8,
        },
        Script::DataCap => match e {
            Error::ArgsLength => 5,
            Error::DataLimitExceeded => 6,
            _ => -1i8,
        },
        Script::DataRange => match e {
            Error::ArgsLength => 5,
            Error::DataLimitExceeded => 6,
            Error::DataMinimumNotMet => 7,
            _ => -1i8,
        },
        Script::Ckb500 | Script::Ic3Type | Script::Oc5Type => match e {
            Error::Unauthorized => 5,
            _ => -1i8,
        },
        Script::IccLock | Script::OccLock => match e {
            Error::Unauthorized => 5,
            Error::ArgsLength => 6,
            _ => -1i8,
        },
        Script::IccType => match e {
            Error::ArgsLength => 5,
            Error::Unauthorized => 6,
            _ => -1i8,
        },
    }
}

} // verus!
