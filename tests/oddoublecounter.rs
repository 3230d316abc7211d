use ckb_validators::counter::{validate_counter, CounterScript};
use ckb_validators::script::{exit_code, Script};

const ERROR_ODDOUBLECOUNTER_VALUE_OVERFLOW: i8 = 5;
const ERROR_ODDOUBLECOUNTER_INVALID_TRANSACTION_STRUCTURE: i8 = 6;
const ERROR_ODDOUBLECOUNTER_INVALID_INPUT_CELL_DATA: i8 = 7;
const ERROR_ODDOUBLECOUNTER_INVALID_OUTPUT_CELL_DATA: i8 = 8;
const ERROR_ODDOUBLECOUNTER_INVALID_COUNTER_VALUE_1: i8 = 9;
const ERROR_ODDOUBLECOUNTER_INVALID_COUNTER_VALUE_2: i8 = 10;

fn run(before: Vec<Vec<u8>>, after: Vec<Vec<u8>>) -> i8 {
    let script = CounterScript::ModeDoubleCounter;
    exit_code(Script::Counter(script), validate_counter(script, &before, &after))
}

fn pair(a: u64, b: u64) -> Vec<u8> {
    let mut data = a.to_le_bytes().to_vec();
    data.append(&mut b.to_le_bytes().to_vec());
    data
}

fn pair32(a: u32, b: u32) -> Vec<u8> {
    let mut data = a.to_le_bytes().to_vec();
    data.append(&mut b.to_le_bytes().to_vec());
    data
}

#[test]
fn test_oddoublecounter_burn() {
    assert_eq!(run(vec![pair(0, 0)], vec![]), 0);
}

#[test]
fn test_oddoublecounter_burn_multiple() {
    assert_eq!(run(vec![pair(0, 0)], vec![]), 0);
}

#[test]
fn test_oddoublecounter_create() {
    assert_eq!(run(vec![], vec![pair(0, 0)]), 0);
}

#[test]
fn test_oddoublecounter_create_multiple() {
    assert_eq!(run(vec![], vec![pair(0, 0), pair(0, 0), pair(0, 0)]), 0);
}

#[test]
fn test_oddoublecounter_create_no_output_data() {
    assert_eq!(run(vec![], vec![vec![]]), ERROR_ODDOUBLECOUNTER_INVALID_OUTPUT_CELL_DATA);
}

#[test]
fn test_oddoublecounter_create_invalid_output_data_value() {
    assert_eq!(run(vec![], vec![vec![1u8; 1]]), ERROR_ODDOUBLECOUNTER_INVALID_OUTPUT_CELL_DATA);
}

#[test]
fn test_oddoublecounter_transfer() {
    assert_eq!(run(vec![pair(0, 0)], vec![pair(1, 2)]), 0);
}

#[test]
fn test_oddoublecounter_transfer_high_value() {
    assert_eq!(
        run(vec![pair(1_000_000_000, 2_000_000_000)], vec![pair(1_000_000_001, 2_000_000_002)]),
        0
    );
}

#[test]
fn test_oddoublecounter_transfer_multiple() {
    assert_eq!(
        run(
            vec![pair(0, 0), pair(9000, 9000), pair(1_000_000, 2_000_000)],
            vec![pair(1, 2), pair(9001, 9002), pair(1_000_001, 2_000_002)]
        ),
        ERROR_ODDOUBLECOUNTER_INVALID_TRANSACTION_STRUCTURE
    );
}

#[test]
fn test_oddoublecounter_transfer_multiple_mismatch_cell_count_too_few_outputs() {
    assert_eq!(
        run(vec![pair(0, 0), pair(0, 0), pair(0, 0)], vec![pair(1, 2), pair(1, 2)]),
        ERROR_ODDOUBLECOUNTER_INVALID_TRANSACTION_STRUCTURE
    );
}

#[test]
fn test_oddoublecounter_transfer_multiple_mismatch_cell_count_too_many_outputs() {
    assert_eq!(
        run(
            vec![pair(0, 0), pair(0, 0), pair(0, 0)],
            vec![pair(1, 2), pair(1, 2), pair(1, 2), pair(1, 2)]
        ),
        ERROR_ODDOUBLECOUNTER_INVALID_TRANSACTION_STRUCTURE
    );
}

#[test]
fn test_oddoublecounter_transfer_value_1_plus_2() {
    assert_eq!(
        run(vec![pair(0, 0)], vec![pair(2, 2)]),
        ERROR_ODDOUBLECOUNTER_INVALID_COUNTER_VALUE_1
    );
}

#[test]
fn test_oddoublecounter_transfer_value_2_plus_9000() {
    assert_eq!(
        run(vec![pair(0, 0)], vec![pair(1, 9000)]),
        ERROR_ODDOUBLECOUNTER_INVALID_COUNTER_VALUE_2
    );
}

#[test]
fn test_oddoublecounter_transfer_overflow() {
    assert_eq!(
        run(vec![pair(u64::MAX, u64::MAX)], vec![pair(0, 1)]),
        ERROR_ODDOUBLECOUNTER_VALUE_OVERFLOW
    );
}

#[test]
fn test_oddoublecounter_transfer_invalid_input_data() {
    assert_eq!(
        run(vec![pair32(0, 0)], vec![pair(1, 2)]),
        ERROR_ODDOUBLECOUNTER_INVALID_INPUT_CELL_DATA
    );
}

#[test]
fn test_oddoublecounter_transfer_invalid_output_data() {
    assert_eq!(
        run(vec![pair(0, 0)], vec![pair32(1, 2)]),
        ERROR_ODDOUBLECOUNTER_INVALID_OUTPUT_CELL_DATA
    );
}
