use ckb_validators::capacity::validate_icclock;
use ckb_validators::script::{exit_code, Script};

const ERROR_ICCLOCK_UNAUTHORIZED: i8 = 5;
const ERROR_ICCLOCK_ARGSLEN: i8 = 6;

fn icclock(args: Vec<u8>, input_capacities: Vec<u64>) -> i8 {
    exit_code(Script::IccLock, validate_icclock(&args, &input_capacities))
}

#[test]
fn icclock_test_icclock_minimum_capacity() {
    assert_eq!(icclock(50_000_000_000u64.to_le_bytes().to_vec(), vec![6_100_000_000]), ERROR_ICCLOCK_UNAUTHORIZED);
}

#[test]
fn icclock_test_icclock_exact_capacity() {
    assert_eq!(icclock(50_000_000_000u64.to_le_bytes().to_vec(), vec![50_000_000_000]), 0);
}

#[test]
fn icclock_test_icclock_multi_cell_exact_capacity() {
    assert_eq!(icclock(50_000_000_000u64.to_le_bytes().to_vec(), vec![50_000_000_000; 5]), 0);
}

#[test]
fn icclock_test_icclock_over_capacity() {
    assert_eq!(icclock(50_000_000_000u64.to_le_bytes().to_vec(), vec![100_000_000_000]), ERROR_ICCLOCK_UNAUTHORIZED);
}

#[test]
fn test_icclock_no_args() {
    assert_eq!(icclock(vec![], vec![100_000_000_000]), ERROR_ICCLOCK_ARGSLEN);
}

#[test]
fn test_icclock_wrong_args() {
    let mut args = vec![];
    let mut amount = 50_000_000_000u64.to_le_bytes().to_vec();
    let mut zero = 0u64.to_le_bytes().to_vec();
    args.append(&mut amount);
    args.append(&mut zero);
    assert_eq!(icclock(args, vec![100_000_000_000]), ERROR_ICCLOCK_ARGSLEN);
}
