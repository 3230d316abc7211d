//! Counter fields and the rule that takes a before-value to an after-value.
use crate::codec::{encode_u64, le_u64_at, lemma_decode_encode_u64, read_u64_le};
use crate::error::Error;
use vstd::bytes::*;
use vstd::prelude::*;

verus! {

/// How many counters a record holds.
#[derive(Clone, Copy, Debug, PartialEq, Eq, Structural)]
pub enum Layout {
    /// One `u64` counter in eight bytes; it advances by one.
    Single,
    /// Two `u64` counters in sixteen bytes; they advance by one and by two.
    Double,
}

/// What to do when a counter is too close to its maximum to advance.
#[derive(Clone, Copy, Debug, PartialEq, Eq, Structural)]
pub enum OverflowPolicy {
    /// The script aborts.
    Fatal,
    /// The script reports `CounterValueOverflow`.
    Recoverable,
}

/// The counters decoded from one record.
#[derive(Clone, Copy, Debug, PartialEq, Eq, Structural)]
pub enum CounterValue {
    Single(u64),
    Double(u64, u64),
}

/// Number of bytes a record of this layout is read from.
pub open spec fn width(layout: Layout) -> nat {
    match layout {
        Layout::Single => 8,
        Layout::Double => 16,
    }
}

/// The counters held in the leading bytes of `data`.
pub open spec fn value_of(layout: Layout, data: Seq<u8>) -> CounterValue {
    match layout {
        Layout::Single => CounterValue::Single(le_u64_at(data, 0)),
        Layout::Double => CounterValue::Double(le_u64_at(data, 0), le_u64_at(data, 8)),
    }
}

/// The layout a value belongs to.
pub open spec fn layout_of(v: CounterValue) -> Layout {
    match v {
        CounterValue::Single(_) => Layout::Single,
        CounterValue::Double(_, _) => Layout::Double,
    }
}

/// The bytes that hold `v`.
pub open spec fn counter_bytes(v: CounterValue) -> Seq<u8> {
    match v {
        CounterValue::Single(a) => spec_u64_to_le_bytes(a),
        CounterValue::Double(a, b) => spec_u64_to_le_bytes(a) + spec_u64_to_le_bytes(b),
    }
}

/// A counter too close to its maximum for its increment to fit.
pub open spec fn near_max(v: CounterValue) -> bool {
    match v {
        CounterValue::Single(a) => a == u64::MAX,
        CounterValue::Double(a, b) => a == u64::MAX || b >= u64::MAX - 1,
    }
}

/// The transition rule: every counter grows by exactly its increment.
pub open spec fn advances(before: CounterValue, after: CounterValue) -> bool {
    match (before, after) {
        (CounterValue::Single(a), CounterValue::Single(x)) => x == a + 1,
        (CounterValue::Double(a, b), CounterValue::Double(x, y)) => x == a + 1 && y == b + 2,
        _ => false,
    }
}

/// The error the policy gives for a counter too close to its maximum.
pub open spec fn overflow_error(policy: OverflowPolicy) -> Error {
    match policy {
        OverflowPolicy::Fatal => Error::Aborted,
        OverflowPolicy::Recoverable => Error::CounterValueOverflow,
    }
}

/// The error for a pair of values that do not advance: it names the first
/// counter of a double layout that is off.
pub open spec fn mismatch_error(before: CounterValue, after: CounterValue) -> Error {
    match (before, after) {
        (CounterValue::Double(a, _), CounterValue::Double(x, _)) => if x == a + 1 {
            Error::InvalidCounterValue2
        } else {
            Error::InvalidCounterValue1
        },
        _ => Error::InvalidCounterValue,
    }
}

/// Outcome of checking one before-value against its after-value: the
/// overflow guard first, then the transition rule.
pub open spec fn pair_outcome(
    policy: OverflowPolicy,
    before: CounterValue,
    after: CounterValue,
) -> Result<(), Error> {
    if near_max(before) {
        Err(overflow_error(policy))
    } else if advances(before, after) {
        Ok(())
    } else {
        Err(mismatch_error(before, after))
    }
}

/// Reads the counters of `layout` from the leading bytes of `data`.
pub fn read_counter(layout: Layout, data: &Vec<u8>) -> (r: CounterValue)
    requires
        data@.len() >= width(layout),
    ensures
        r == value_of(layout, data@),
{
    match layout {
        Layout::Single => CounterValue::Single(read_u64_le(data, 0)),
        Layout::Double => CounterValue::Double(read_u64_le(data, 0), read_u64_le(data, 8)),
    }
}

/// Encodes counters as the bytes a record holds.
pub fn encode_counter(v: CounterValue) -> (r: Vec<u8>)
    ensures
        r@ == counter_bytes(v),
        r@.len() == width(layout_of(v)),
{
    match v {
        CounterValue::Single(a) => encode_u64(a),
        CounterValue::Double(a, b) => {
            let mut r = encode_u64(a);
            let mut tail = encode_u64(b);
            r.append(&mut tail);
            r
        },
    }
}

/// The overflow guard: true when some counter cannot take its increment.
pub fn overflow_check(v: CounterValue) -> (r: bool)
    ensures
        r == near_max(v),
{
    match v {
        CounterValue::Single(a) => a == u64::MAX,
        CounterValue::Double(a, b) => a == u64::MAX || b >= u64::MAX - 1,
    }
}

/// Whether `after` is `before` advanced by the increments; only asked of a
/// value that passed the overflow guard.
pub fn transition_holds(before: CounterValue, after: CounterValue) -> (r: bool)
    requires
        !near_max(before),
    ensures
        r == advances(before, after),
{
    match (before, after) {
        (CounterValue::Single(a), CounterValue::Single(x)) => x == a + 1,
        (CounterValue::Double(a, b), CounterValue::Double(x, y)) => x == a + 1 && y == b + 2,
        _ => false,
    }
}

/// Checks one before-value against one after-value.
pub fn check_pair(policy: OverflowPolicy, before: CounterValue, after: CounterValue) -> (r: Result<
    (),
    Error,
>)
    ensures
        r == pair_outcome(policy, before, after),
{
    if overflow_check(before) {
        match policy {
            OverflowPolicy::Fatal => Err(Error::Aborted),
            OverflowPolicy::Recoverable => Err(Error::CounterValueOverflow),
        }
    } else if transition_holds(before, after) {
        Ok(())
    } else {
        match (before, after) {
            (CounterValue::Double(a, _), CounterValue::Double(x, _)) => if x == a + 1 {
                Err(Error::InvalidCounterValue2)
            } else {
                Err(Error::InvalidCounterValue1)
            },
            _ => Err(Error::InvalidCounterValue),
        }
    }
}

/// Reading back the bytes that encode counters gives the counters back.
pub proof fn lemma_decode_encode_counter(v: CounterValue)
    ensures
        counter_bytes(v).len() == width(layout_of(v)),
        value_of(layout_of(v), counter_bytes(v)) == v,
{
    lemma_auto_spec_u64_to_from_le_bytes();
    match v {
        CounterValue::Single(a) => {
            lemma_decode_encode_u64(a);
        },
        CounterValue::Double(a, b) => {
            let s = spec_u64_to_le_bytes(a) + spec_u64_to_le_bytes(b);
            assert(s.subrange(0, 8) =~= spec_u64_to_le_bytes(a));
            assert(s.subrange(8, 16) =~= spec_u64_to_le_bytes(b));
        },
    }
}

} // verus!
