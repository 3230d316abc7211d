//! The counter family: records whose counters must advance by fixed
//! increments from each consumed record to a produced one.
use crate::codec::views;
use crate::error::Error;
use crate::matcher::{greedy_match, greedy_outcome};
use crate::mode::{determine_mode, mode_of, Mode, Structure};
use crate::transition::{
    check_pair, pair_outcome, read_counter, value_of, width, CounterValue, Layout, OverflowPolicy,
};
use vstd::prelude::*;

verus! {

/// How strictly a record's length is held to the layout's width.
#[derive(Clone, Copy, Debug, PartialEq, Eq, Structural)]
pub enum DataCheck {
    /// The counters are read from the leading bytes; a shorter record
    /// makes the script abort.
    Prefix,
    /// The record must be exactly as long as the layout; otherwise the
    /// script reports invalid cell data.
    Exact,
}

/// Everything that tells one counter script from another.
#[derive(Clone, Copy, Debug, PartialEq, Eq, Structural)]
pub struct CounterRule {
    pub layout: Layout,
    pub structure: Structure,
    pub data_check: DataCheck,
    pub overflow: OverflowPolicy,
}

/// The scripts of the counter family.
#[derive(Clone, Copy, Debug, PartialEq, Eq, Structural)]
pub enum CounterScript {
    /// One counter, one record in and one out, read leniently.
    Counter,
    /// One counter, one record in and one out, with exact lengths.
    StrictCounter,
    /// One counter with burn, create and transfer modes.
    ModeCounter,
    /// Two counters, one record in and one out, read leniently.
    DoubleCounter,
    /// Two counters with burn, create and transfer modes.
    ModeDoubleCounter,
    /// Any number of single counters, matched in any order.
    AggregateCounter,
    /// Any number of double counters, matched in any order.
    AggregateDoubleCounter,
}

/// The rule each script enforces.
pub open spec fn rule_of(script: CounterScript) -> CounterRule {
    match script {
        CounterScript::Counter => CounterRule {
            layout: Layout::Single,
            structure: Structure::OneToOne,
            data_check: DataCheck::Prefix,
            overflow: OverflowPolicy::Fatal,
        },
        CounterScript::StrictCounter => CounterRule {
            layout: Layout::Single,
            structure: Structure::OneToOne,
            data_check: DataCheck::Exact,
            overflow: OverflowPolicy::Recoverable,
        },
        CounterScript::ModeCounter => CounterRule {
            layout: Layout::Single,
            structure: Structure::WithModes,
            data_check: DataCheck::Exact,
            overflow: OverflowPolicy::Recoverable,
        },
        CounterScript::DoubleCounter => CounterRule {
            layout: Layout::Double,
            structure: Structure::OneToOne,
            data_check: DataCheck::Prefix,
            overflow: OverflowPolicy::Fatal,
        },
        CounterScript::ModeDoubleCounter => CounterRule {
            layout: Layout::Double,
            structure: Structure::WithModes,
            data_check: DataCheck::Exact,
            overflow: OverflowPolicy::Recoverable,
        },
        CounterScript::AggregateCounter => CounterRule {
            layout: Layout::Single,
            structure: Structure::Matched,
            data_check: DataCheck::Prefix,
            overflow: OverflowPolicy::Fatal,
        },
        CounterScript::AggregateDoubleCounter => CounterRule {
            layout: Layout::Double,
            structure: Structure::Matched,
            data_check: DataCheck::Prefix,
            overflow: OverflowPolicy::Fatal,
        },
    }
}

impl CounterScript {
    /// The rule this script enforces.
    pub fn rule(self) -> (r: CounterRule)
        ensures
            r == rule_of(self),
    {
        match self {
            CounterScript::Counter => CounterRule {
                layout: Layout::Single,
                structure: Structure::OneToOne,
                data_check: DataCheck::Prefix,
                overflow: OverflowPolicy::Fatal,
            },
            CounterScript::StrictCounter => CounterRule {
                layout: Layout::Single,
                structure: Structure::OneToOne,
                data_check: DataCheck::Exact,
                overflow: OverflowPolicy::Recoverable,
            },
            CounterScript::ModeCounter => CounterRule {
                layout: Layout::Single,
                structure: Structure::WithModes,
                data_check: DataCheck::Exact,
                overflow: OverflowPolicy::Recoverable,
            },
            CounterScript::DoubleCounter => CounterRule {
                layout: Layout::Double,
                structure: Structure::OneToOne,
                data_check: DataCheck::Prefix,
                overflow: OverflowPolicy::Fatal,
            },
            CounterScript::ModeDoubleCounter => CounterRule {
                layout: Layout::Double,
                structure: Structure::WithModes,
                data_check: DataCheck::Exact,
                overflow: OverflowPolicy::Recoverable,
            },
            CounterScript::AggregateCounter => CounterRule {
                layout: Layout::Single,
                structure: Structure::Matched,
                data_check: DataCheck::Prefix,
                overflow: OverflowPolicy::Fatal,
            },
            CounterScript::AggregateDoubleCounter => CounterRule {
                layout: Layout::Double,
                structure: Structure::Matched,
                data_check: DataCheck::Prefix,
                overflow: OverflowPolicy::Fatal,
            },
        }
    }
}

/// A record long enough, or exactly long enough, for the rule's layout.
pub open spec fn fits(rule: CounterRule, data: Seq<u8>) -> bool {
    match rule.data_check {
        DataCheck::Prefix => data.len() >= width(rule.layout),
        DataCheck::Exact => data.len() == width(rule.layout),
    }
}

/// Every record fits the rule.
pub open spec fn all_fit(rule: CounterRule, records: Seq<Seq<u8>>) -> bool {
    forall|i: int| 0 <= i < records.len() ==> fits(rule, #[trigger] records[i])
}

/// The error for a before-record that does not fit.
pub open spec fn short_input_error(rule: CounterRule) -> Error {
    match rule.data_check {
        DataCheck::Prefix => Error::Aborted,
        DataCheck::Exact => Error::InvalidInputCellData,
    }
}

/// The error for an after-record that does not fit.
pub open spec fn short_output_error(rule: CounterRule) -> Error {
    match rule.data_check {
        DataCheck::Prefix => Error::Aborted,
        DataCheck::Exact => Error::InvalidOutputCellData,
    }
}

/// The counters of each record.
pub open spec fn values(rule: CounterRule, records: Seq<Seq<u8>>) -> Seq<CounterValue> {
    records.map_values(|d: Seq<u8>| value_of(rule.layout, d))
}

/// A created record must fit and hold zero in every counter byte.
pub open spec fn create_outcome(rule: CounterRule, data: Seq<u8>) -> Result<(), Error> {
    if fits(rule, data) && data.subrange(0, width(rule.layout) as int) == Seq::new(
        width(rule.layout),
        |i: int| 0u8,
    ) {
        Ok(())
    } else {
        Err(Error::InvalidOutputCellData)
    }
}

/// A transfer decodes every before-record, then every after-record, and
/// then checks the transition: greedily matched for a matched structure,
/// between the single pair otherwise.
pub open spec fn transfer_outcome(
    rule: CounterRule,
    before: Seq<Seq<u8>>,
    after: Seq<Seq<u8>>,
) -> Result<(), Error> {
    if !all_fit(rule, before) {
        Err(short_input_error(rule))
    } else if !all_fit(rule, after) {
        Err(short_output_error(rule))
    } else if rule.structure == Structure::Matched {
        match greedy_outcome(rule.overflow, values(rule, before), values(rule, after)) {
            Ok(_) => Ok(()),
            Err(e) => Err(e),
        }
    } else {
        pair_outcome(rule.overflow, values(rule, before)[0], values(rule, after)[0])
    }
}

/// The verdict of a counter script on a transaction.
pub open spec fn counter_outcome(
    rule: CounterRule,
    before: Seq<Seq<u8>>,
    after: Seq<Seq<u8>>,
) -> Result<(), Error> {
    match mode_of(rule.structure, before.len() as int, after.len() as int) {
        Err(e) => Err(e),
        Ok(Mode::Idle) => Ok(()),
        Ok(Mode::Burn) => Ok(()),
        Ok(Mode::Create) => create_outcome(rule, after[0]),
        Ok(Mode::Transfer) => transfer_outcome(rule, before, after),
    }
}

/// Whether a record fits the rule's layout.
pub fn record_fits(rule: CounterRule, data: &Vec<u8>) -> (r: bool)
    ensures
        r == fits(rule, data@),
{
    let w: usize = match rule.layout {
        Layout::Single => 8,
        Layout::Double => 16,
    };
    match rule.data_check {
        DataCheck::Prefix => data.len() >= w,
        DataCheck::Exact => data.len() == w,
    }
}

/// Decodes the counters of every record, or `None` when one does not fit.
pub fn decode_records(rule: CounterRule, records: &Vec<Vec<u8>>) -> (r: Option<Vec<CounterValue>>)
    ensures
        r is Some <==> all_fit(rule, views(records@)),
        r matches Some(v) ==> v@ == values(rule, views(records@)),
{
    let mut out: Vec<CounterValue> = Vec::new();
    let mut i: usize = 0;
    while i < records.len()
        invariant
            i <= records@.len(),
            out@ =~= values(rule, views(records@)).subrange(0, i as int),
            forall|k: int| 0 <= k < i ==> fits(rule, #[trigger] views(records@)[k]),
        decreases records@.len() - i,
    {
        if !record_fits(rule, &records[i]) {
            assert(!fits(rule, views(records@)[i as int]));
            return None;
        }
        let v = read_counter(rule.layout, &records[i]);
        out.push(v);
        i = i + 1;
    }
    assert(out@ =~= values(rule, views(records@)));
    Some(out)
}

/// Validates the single record a transaction creates.
pub fn validate_create(rule: CounterRule, data: &Vec<u8>) -> (r: Result<(), Error>)
    ensures
        r == create_outcome(rule, data@),
{
    if !record_fits(rule, data) {
        return Err(Error::InvalidOutputCellData);
    }
    let w: usize = match rule.layout {
        Layout::Single => 8,
        Layout::Double => 16,
    };
    let ghost zeros = Seq::new(width(rule.layout), |i: int| 0u8);
    let mut i: usize = 0;
    while i < w
        invariant
            i <= w,
            w == width(rule.layout),
            w <= data@.len(),
            zeros == Seq::new(width(rule.layout), |i: int| 0u8),
            forall|k: int| 0 <= k < i ==> data@[k] == 0u8,
        decreases w - i,
    {
        if data[i] != 0 {
            assert(data@.subrange(0, w as int)[i as int] != zeros[i as int]);
            return Err(Error::InvalidOutputCellData);
        }
        i = i + 1;
    }
    assert(data@.subrange(0, w as int) =~= zeros);
    Ok(())
}

/// Validates a transfer: as many after-records as before-records, and for
/// a structure that does not match records, exactly one of each.
pub fn validate_transfer(rule: CounterRule, before: &Vec<Vec<u8>>, after: &Vec<Vec<u8>>) -> (r:
    Result<(), Error>)
    requires
        before@.len() == after@.len(),
        before@.len() >= 1,
        rule.structure != Structure::Matched ==> before@.len() == 1,
    ensures
        r == transfer_outcome(rule, views(before@), views(after@)),
{
    let before_values = match decode_records(rule, before) {
        Some(v) => v,
        None => {
            return match rule.data_check {
                DataCheck::Prefix => Err(Error::Aborted),
                DataCheck::Exact => Err(Error::InvalidInputCellData),
            };
        },
    };
    let after_values = match decode_records(rule, after) {
        Some(v) => v,
        None => {
            return match rule.data_check {
                DataCheck::Prefix => Err(Error::Aborted),
                DataCheck::Exact => Err(Error::InvalidOutputCellData),
            };
        },
    };
    match rule.structure {
        Structure::Matched => match greedy_match(rule.overflow, &before_values, &after_values) {
            Ok(_) => Ok(()),
            Err(e) => Err(e),
        },
        _ => check_pair(rule.overflow, before_values[0], after_values[0]),
    }
}

/// Validates a transaction against a counter rule.
pub fn validate_counter_rule(rule: CounterRule, before: &Vec<Vec<u8>>, after: &Vec<Vec<u8>>) -> (r:
    Result<(), Error>)
    ensures
        r == counter_outcome(rule, views(before@), views(after@)),
{
    match determine_mode(rule.structure, before.len(), after.len()) {
        Err(e) => Err(e),
        Ok(Mode::Idle) => Ok(()),
        Ok(Mode::Burn) => Ok(()),
        Ok(Mode::Create) => validate_create(rule, &after[0]),
        Ok(Mode::Transfer) => validate_transfer(rule, before, after),
    }
}

/// Validates a transaction for one script of the counter family.
pub fn validate_counter(script: CounterScript, before: &Vec<Vec<u8>>, after: &Vec<Vec<u8>>) -> (r:
    Result<(), Error>)
    ensures
        r == counter_outcome(rule_of(script), views(before@), views(after@)),
{
    validate_counter_rule(script.rule(), before, after)
}

/// A transaction that consumes no record of a script is accepted, whatever
/// it produces. The one exception is a single record produced for a script
/// with modes, which is checked as a creation: the rule that nothing
/// consumed means nothing to check gives way there to the create rule.
pub proof fn lemma_idle_without_inputs(rule: CounterRule, after: Seq<Seq<u8>>)
    requires
        !(rule.structure == Structure::WithModes && after.len() == 1),
    ensures
        counter_outcome(rule, Seq::empty(), after) == Ok::<(), Error>(()),
{
}

/// Consuming records of a script and producing none is accepted, for every
/// script and whatever the consumed records hold.
pub proof fn lemma_burn_accepted(rule: CounterRule, before: Seq<Seq<u8>>)
    requires
        before.len() >= 1,
    ensures
        counter_outcome(rule, before, Seq::empty()) == Ok::<(), Error>(()),
{
}

/// In a transfer, a before-record that does not fit the layout rejects the
/// transaction with the rule's input error, and otherwise an after-record
/// that does not fit rejects it with the output error.
pub proof fn lemma_unfit_record_rejected(
    rule: CounterRule,
    before: Seq<Seq<u8>>,
    after: Seq<Seq<u8>>,
    k: int,
)
    requires
        mode_of(rule.structure, before.len() as int, after.len() as int) == Ok::<Mode, Error>(
            Mode::Transfer,
        ),
        (0 <= k < before.len() && !fits(rule, before[k])) || (0 <= k < after.len() && !fits(
            rule,
            after[k],
        )),
    ensures
        counter_outcome(rule, before, after) == Err::<(), Error>(
            if all_fit(rule, before) {
                short_output_error(rule)
            } else {
                short_input_error(rule)
            },
        ),
{
}

/// Every script that reads a single eight-byte counter rejects a transfer
/// or a creation in which a record holds fewer than eight bytes.
pub proof fn lemma_short_counter_rejected(
    script: CounterScript,
    before: Seq<Seq<u8>>,
    after: Seq<Seq<u8>>,
)
    requires
        rule_of(script).layout == Layout::Single,
        before.len() <= 1,
        after.len() == 1,
        after[0].len() < 8 || (before.len() == 1 && before[0].len() < 8),
        before.len() == 0 ==> rule_of(script).structure == Structure::WithModes,
    ensures
        counter_outcome(rule_of(script), before, after) is Err,
{
    let rule = rule_of(script);
    if before.len() == 1 {
        if before[0].len() < 8 {
            assert(!fits(rule, before[0]));
        } else {
            assert(!fits(rule, after[0]));
        }
    } else {
        assert(!fits(rule, after[0]));
    }
}

} // verus!
