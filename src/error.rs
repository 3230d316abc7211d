use vstd::prelude::*;

verus! {

/// Every way a validator can reject a transaction.
#[derive(Clone, Copy, Debug, PartialEq, Eq, Structural)]
pub enum Error {
    /// Record counts fit no recognised mode.
    InvalidTransactionStructure,
    /// A before-record does not have the length the codec requires.
    InvalidInputCellData,
    /// An after-record does not have the length the codec requires.
    InvalidOutputCellData,
    /// The transition rule does not hold for a counter.
    InvalidCounterValue,
    /// The transition rule does not hold for the first of two counters.
    InvalidCounterValue1,
    /// The transition rule does not hold for the second of two counters.
    InvalidCounterValue2,
    /// A counter is too close to its maximum to advance.
    CounterValueOverflow,
    /// An amount field is shorter than its width.
    Encoding,
    /// The amounts produced exceed the amounts consumed.
    Amount,
    /// A sum of amounts does not fit in 128 bits.
    AmountOverflow,
    /// A capacity, count or preimage check failed.
    Unauthorized,
    /// The script arguments have the wrong size.
    ArgsLength,
    /// A record holds more data than allowed.
    DataLimitExceeded,
    /// A record holds less data than required.
    DataMinimumNotMet,
    /// The witness is missing or too large to load.
    WitnessLoadFailure,
    /// A record's text is not well-formed JSON.
    InvalidJson,
    /// A record's bytes are not UTF-8.
    InvalidStringData,
    /// The script would abort: a fatal overflow or a record too short to read.
    Aborted,
}

} // verus!
