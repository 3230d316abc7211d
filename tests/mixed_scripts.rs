use blake2b_ref::Blake2bBuilder;
use ckb_validators::capacity::{
    validate_ckb500, validate_ic3type, validate_icclock, validate_icctype, validate_occlock,
};
use ckb_validators::counter::{validate_counter, CounterScript};
use ckb_validators::datasize::{validate_data10, validate_datacap};
use ckb_validators::hashlock::validate_hashlock;
use ckb_validators::jsoncell::validate_jsoncell;
use ckb_validators::script::{exit_code, Script};

const ERROR_UNAUTHORIZED: i8 = 5;
const ERROR_ARGSLEN: i8 = 6;
const ERROR_WITNESSLOAD: i8 = 7;
const ERROR_COUNTER_VALUE_OVERFLOW: i8 = 5;
const ERROR_INVALID_INPUT_CELL_DATA: i8 = 7;
const ERROR_INVALID_OUTPUT_CELL_DATA: i8 = 8;
const ERROR_INVALID_COUNTER_VALUE: i8 = 9;
const ERROR_INVALID_JSON: i8 = 5;
const ERROR_INVALID_STRING_DATA: i8 = 6;
const ERROR_DATA10_DATA_LIMIT_EXCEEDED: i8 = 5;
const ERROR_DATACAP_ARGSLEN: i8 = 5;
const ERROR_DATACAP_DATA_LIMIT_EXCEEDED: i8 = 6;
const ERROR_IC3TYPE_UNAUTHORIZED: i8 = 5;
const ERROR_ICCTYPE_ARGSLEN: i8 = 5;
const ERROR_ICCTYPE_UNAUTHORIZED: i8 = 6;
const ERROR_SCOUNTER_COUNTER_VALUE_OVERFLOW: i8 = 5;
const ERROR_SCOUNTER_INVALID_INPUT_CELL_DATA: i8 = 7;
const ERROR_SCOUNTER_INVALID_OUTPUT_CELL_DATA: i8 = 8;
const ERROR_SCOUNTER_INVALID_COUNTER_VALUE: i8 = 9;

fn ckb500(input_capacities: Vec<u64>) -> i8 {
    exit_code(Script::Ckb500, validate_ckb500(&input_capacities))
}

fn icclock(args: Vec<u8>, input_capacities: Vec<u64>) -> i8 {
    exit_code(Script::IccLock, validate_icclock(&args, &input_capacities))
}

fn occlock(args: Vec<u8>, output_capacities: Vec<u64>) -> i8 {
    exit_code(Script::OccLock, validate_occlock(&args, &output_capacities))
}

fn occ_args(amount: u64, count: u64) -> Vec<u8> {
    let mut args = vec![];
    args.append(&mut amount.to_le_bytes().to_vec());
    args.append(&mut count.to_le_bytes().to_vec());
    args
}

fn digest(preimage: &[u8]) -> Vec<u8> {
    let mut hash = [0u8; 32];
    let mut blake2b = Blake2bBuilder::new(32).build();
    blake2b.update(preimage);
    blake2b.finalize(&mut hash);
    hash.to_vec()
}

fn hashlock(args: Vec<u8>, witness: Option<Vec<u8>>) -> i8 {
    exit_code(Script::HashLock, validate_hashlock(&args, &witness))
}

fn icctype(args: Vec<u8>, input_count: usize) -> i8 {
    exit_code(Script::IccType, validate_icctype(&args, input_count))
}

fn data10(after: Vec<Vec<u8>>) -> i8 {
    exit_code(Script::Data10, validate_data10(&after))
}

fn datacap(args: Vec<u8>, after: Vec<Vec<u8>>) -> i8 {
    exit_code(Script::DataCap, validate_datacap(&args, &after))
}

/// The counter these cases were written for has burn, create and transfer
/// modes and exact record lengths.
fn counter(before: Vec<Vec<u8>>, after: Vec<Vec<u8>>) -> i8 {
    let script = CounterScript::ModeCounter;
    exit_code(Script::Counter(script), validate_counter(script, &before, &after))
}

fn scounter(before: Vec<Vec<u8>>, after: Vec<Vec<u8>>) -> i8 {
    let script = CounterScript::StrictCounter;
    exit_code(Script::Counter(script), validate_counter(script, &before, &after))
}

fn jsoncell(after: Vec<Vec<u8>>) -> i8 {
    exit_code(Script::JsonCell, validate_jsoncell(&after))
}

fn le(x: u64) -> Vec<u8> {
    x.to_le_bytes().to_vec()
}

#[test]
fn tests_test_ckb500_minimum_capacity() {
    assert_eq!(ckb500(vec![6_100_000_000]), ERROR_UNAUTHORIZED);
}

#[test]
fn tests_test_ckb500_exact_capacity() {
    assert_eq!(ckb500(vec![50_000_000_000]), 0);
}

#[test]
fn tests_test_ckb500_multi_cell_exact_capacity() {
    assert_eq!(ckb500(vec![10_000_000_000; 5]), 0);
}

#[test]
fn tests_test_ckb500_over_capacity() {
    assert_eq!(ckb500(vec![100_000_000_000]), ERROR_UNAUTHORIZED);
}

#[test]
fn tests_test_icclock_minimum_capacity() {
    assert_eq!(icclock(50_000_000_000u64.to_le_bytes().to_vec(), vec![6_100_000_000]), ERROR_UNAUTHORIZED);
}

#[test]
fn tests_test_icclock_exact_capacity() {
    assert_eq!(icclock(50_000_000_000u64.to_le_bytes().to_vec(), vec![50_000_000_000]), 0);
}

#[test]
fn tests_test_icclock_multi_cell_exact_capacity() {
    assert_eq!(icclock(50_000_000_000u64.to_le_bytes().to_vec(), vec![50_000_000_000; 5]), 0);
}

#[test]
fn tests_test_icclock_over_capacity() {
    assert_eq!(icclock(50_000_000_000u64.to_le_bytes().to_vec(), vec![100_000_000_000]), ERROR_UNAUTHORIZED);
}

#[test]
fn tests_test_occlock_minimum_capacity() {
    assert_eq!(occlock(occ_args(50_000_000_000, 1), vec![6_100_000_000]), ERROR_UNAUTHORIZED);
}

#[test]
fn tests_test_occlock_exact_capacity() {
    assert_eq!(occlock(occ_args(50_000_000_000, 1), vec![50_000_000_000]), 0);
}

#[test]
fn tests_test_occlock_multi_cell_exact_capacity() {
    assert_eq!(occlock(occ_args(50_000_000_000, 2), vec![50_000_000_000; 2]), 0);
}

#[test]
fn tests_test_occlock_multi_cell_exact_capacity_too_few() {
    assert_eq!(occlock(occ_args(50_000_000_000, 3), vec![50_000_000_000; 2]), ERROR_UNAUTHORIZED);
}

#[test]
fn tests_test_occlock_multi_cell_exact_capacity_too_many() {
    assert_eq!(occlock(occ_args(50_000_000_000, 2), vec![50_000_000_000; 3]), 0);
}

#[test]
fn tests_test_occlock_over_capacity() {
    assert_eq!(occlock(occ_args(50_000_000_000, 1), vec![100_000_000_000]), ERROR_UNAUTHORIZED);
}

#[test]
fn tests_test_hashlock_valid() {
    let preimage = "Open Sesame".as_bytes();
    let args = digest(preimage);
    assert_eq!(hashlock(args, Some(preimage.to_vec())), 0);
}

#[test]
fn tests_test_hashlock_no_witness() {
    let preimage = "Open Sesame".as_bytes();
    let args = digest(preimage);
    assert_eq!(hashlock(args, None), ERROR_WITNESSLOAD);
}

#[test]
fn tests_test_hashlock_no_args() {
    let preimage = "Open Sesame".as_bytes();
    assert_eq!(hashlock(vec![], Some(preimage.to_vec())), ERROR_ARGSLEN);
}

#[test]
fn tests_test_hashlock_incorrect() {
    let args = digest("Open Sesame".as_bytes());
    let preimage = "Guacamole".as_bytes();
    assert_eq!(hashlock(args, Some(preimage.to_vec())), ERROR_UNAUTHORIZED);
}

#[test]
fn tests_test_counter_burn() {
    assert_eq!(counter(vec![vec![0u8; 8]], vec![]), 0);
}

#[test]
fn tests_test_counter_burn_multiple() {
    assert_eq!(counter(vec![vec![0u8; 8], vec![0u8; 8]], vec![]), 0);
}

#[test]
fn tests_test_counter_create() {
    assert_eq!(counter(vec![], vec![vec![0u8; 8]]), 0);
}

#[test]
fn tests_test_counter_create_no_output_data() {
    assert_eq!(counter(vec![], vec![vec![]]), ERROR_INVALID_OUTPUT_CELL_DATA);
}

#[test]
fn tests_test_counter_create_invalid_output_data_value() {
    assert_eq!(counter(vec![], vec![vec![0, 0, 0, 0, 0, 0, 0, 1]]), ERROR_INVALID_OUTPUT_CELL_DATA);
}

#[test]
fn tests_test_counter_create_invalid_output_data() {
    assert_eq!(counter(vec![], vec![vec![0, 0, 0, 0, 0, 0, 0]]), ERROR_INVALID_OUTPUT_CELL_DATA);
}

#[test]
fn tests_test_counter_transfer() {
    assert_eq!(counter(vec![vec![0u8; 8]], vec![le(1)]), 0);
}

#[test]
fn tests_test_counter_transfer_high_value() {
    assert_eq!(counter(vec![le(1_000_000_000)], vec![le(1_000_000_001)]), 0);
}

#[test]
fn tests_test_counter_transfer_plus_2() {
    assert_eq!(counter(vec![le(1)], vec![le(3)]), ERROR_INVALID_COUNTER_VALUE);
}

#[test]
fn tests_test_counter_transfer_plus_9000() {
    assert_eq!(counter(vec![le(1)], vec![le(9001)]), ERROR_INVALID_COUNTER_VALUE);
}

#[test]
fn tests_test_counter_transfer_minus_1() {
    assert_eq!(counter(vec![le(9001)], vec![le(9000)]), ERROR_INVALID_COUNTER_VALUE);
}

#[test]
fn test_counter_transfer_overflow() {
    assert_eq!(counter(vec![le(u64::MAX)], vec![le(0)]), ERROR_COUNTER_VALUE_OVERFLOW);
}

#[test]
fn test_counter_transfer_invalid_input_data() {
    assert_eq!(counter(vec![0u32.to_le_bytes().to_vec()], vec![le(1)]), ERROR_INVALID_INPUT_CELL_DATA);
}

#[test]
fn test_counter_transfer_invalid_output_data() {
    assert_eq!(counter(vec![le(0)], vec![1u32.to_le_bytes().to_vec()]), ERROR_INVALID_OUTPUT_CELL_DATA);
}

#[test]
fn test_jsoncell_valid_string() {
    assert_eq!(jsoncell(vec!["\"Hello World!\"".as_bytes().to_vec()]), 0);
}

#[test]
fn test_jsoncell_valid_number() {
    assert_eq!(jsoncell(vec!["1234567890".as_bytes().to_vec()]), 0);
}

#[test]
fn test_jsoncell_valid_array() {
    assert_eq!(jsoncell(vec!["[1, 2, 3, 4, 5]".as_bytes().to_vec()]), 0);
}

#[test]
fn test_jsoncell_valid_object() {
    assert_eq!(jsoncell(vec!["{\"key\": \"value\"}".as_bytes().to_vec()]), 0);
}

#[test]
fn test_jsoncell_empty_data() {
    assert_eq!(jsoncell(vec![vec![]]), ERROR_INVALID_JSON);
}

#[test]
fn test_jsoncell_invalid_string() {
    assert_eq!(jsoncell(vec!["\"Hello World!".as_bytes().to_vec()]), ERROR_INVALID_JSON);
}

#[test]
fn test_jsoncell_invalid_utf8() {
    assert_eq!(jsoncell(vec![vec![160, 161]]), ERROR_INVALID_STRING_DATA);
}

#[test]
fn tests_test_datacap_valid_data() {
    assert_eq!(datacap(16u32.to_le_bytes().to_vec(), vec!["Hello World!".as_bytes().to_vec()]), 0);
}

#[test]
fn tests_test_datacap_empty_data() {
    assert_eq!(datacap(16u32.to_le_bytes().to_vec(), vec!["".as_bytes().to_vec()]), 0);
}

#[test]
fn tests_test_datacap_empty_args() {
    assert_eq!(datacap(vec![], vec!["".as_bytes().to_vec()]), ERROR_DATACAP_ARGSLEN);
}

#[test]
fn tests_test_datacap_data_limit_exceeded() {
    assert_eq!(
        datacap(16u32.to_le_bytes().to_vec(), vec!["Hello World! Hello World!".as_bytes().to_vec()]),
        ERROR_DATACAP_DATA_LIMIT_EXCEEDED
    );
}

#[test]
fn tests_test_datacap_burn() {
    assert_eq!(datacap(16u32.to_le_bytes().to_vec(), vec![]), 0);
}

#[test]
fn tests_test_data10_valid_data() {
    assert_eq!(data10(vec!["HelloWorld".as_bytes().to_vec()]), 0);
}

#[test]
fn tests_test_data10_empty_data() {
    assert_eq!(data10(vec!["".as_bytes().to_vec()]), 0);
}

#[test]
fn tests_test_data10_data_limit_exceeded() {
    assert_eq!(data10(vec!["Hello World!".as_bytes().to_vec()]), ERROR_DATA10_DATA_LIMIT_EXCEEDED);
}

#[test]
fn tests_test_data10_burn() {
    assert_eq!(data10(vec![]), 0);
}

#[test]
fn tests_test_icctype_no_args_invalid() {
    assert_eq!(icctype(vec![], 1), ERROR_ICCTYPE_UNAUTHORIZED);
}

#[test]
fn tests_test_icctype_no_args_valid() {
    assert_eq!(icctype(vec![], 3), 0);
}

#[test]
fn tests_test_icctype_args_1_valid() {
    assert_eq!(icctype(1u64.to_le_bytes().to_vec(), 1), 0);
}

#[test]
fn tests_test_icctype_args_1_invalid() {
    assert_eq!(icctype(1u64.to_le_bytes().to_vec(), 2), ERROR_ICCTYPE_UNAUTHORIZED);
}

#[test]
fn tests_test_icctype_args_len_invalid() {
    assert_eq!(icctype(1u32.to_le_bytes().to_vec(), 2), ERROR_ICCTYPE_ARGSLEN);
}

#[test]
fn tests_test_ic3type_invalid() {
    assert_eq!(exit_code(Script::Ic3Type, validate_ic3type(1)), ERROR_IC3TYPE_UNAUTHORIZED);
}

#[test]
fn tests_test_ic3type_valid() {
    assert_eq!(exit_code(Script::Ic3Type, validate_ic3type(3)), 0);
}

#[test]
fn test_scounter_burn() {
    assert_eq!(scounter(vec![vec![0u8; 8]], vec![]), 0);
}

#[test]
fn test_scounter_burn_multiple() {
    assert_eq!(scounter(vec![vec![0u8; 8], vec![0u8; 8]], vec![]), 0);
}

#[test]
fn test_scounter_create() {
    assert_eq!(scounter(vec![], vec![vec![0u8; 8]]), 0);
}

#[test]
fn test_scounter_create_no_output_data() {
    assert_eq!(scounter(vec![], vec![vec![]]), 0);
}

#[test]
fn test_scounter_create_invalid_output_data_value() {
    assert_eq!(scounter(vec![], vec![vec![0, 0, 0, 0, 0, 0, 0, 1]]), 0);
}

#[test]
fn test_scounter_create_invalid_output_data() {
    assert_eq!(scounter(vec![], vec![vec![0, 0, 0, 0, 0, 0, 0]]), 0);
}

#[test]
fn test_scounter_transfer() {
    assert_eq!(scounter(vec![vec![0u8; 8]], vec![le(1)]), 0);
}

#[test]
fn test_scounter_transfer_high_value() {
    assert_eq!(scounter(vec![le(1_000_000_000)], vec![le(1_000_000_001)]), 0);
}

#[test]
fn test_scounter_transfer_plus_2() {
    assert_eq!(scounter(vec![le(1)], vec![le(3)]), ERROR_SCOUNTER_INVALID_COUNTER_VALUE);
}

#[test]
fn test_scounter_transfer_plus_9000() {
    assert_eq!(scounter(vec![le(1)], vec![le(9001)]), ERROR_SCOUNTER_INVALID_COUNTER_VALUE);
}

#[test]
fn test_scounter_transfer_minus_1() {
    assert_eq!(scounter(vec![le(9001)], vec![le(9000)]), ERROR_SCOUNTER_INVALID_COUNTER_VALUE);
}

#[test]
fn test_scounter_transfer_overflow() {
    assert_eq!(scounter(vec![le(u64::MAX)], vec![le(0)]), ERROR_SCOUNTER_COUNTER_VALUE_OVERFLOW);
}

#[test]
fn test_scounter_transfer_invalid_input_data() {
    assert_eq!(scounter(vec![0u32.to_le_bytes().to_vec()], vec![le(1)]), ERROR_SCOUNTER_INVALID_INPUT_CELL_DATA);
}

#[test]
fn test_scounter_transfer_invalid_output_data() {
    assert_eq!(scounter(vec![le(0)], vec![1u32.to_le_bytes().to_vec()]), ERROR_SCOUNTER_INVALID_OUTPUT_CELL_DATA);
}
