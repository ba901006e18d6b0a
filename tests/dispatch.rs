use rustsbi_pmu::ecall::{
    EXTENSION_PMU, FUNCTION_PMU_COUNTER_CFG_MATCH, FUNCTION_PMU_COUNTER_FW_READ,
    FUNCTION_PMU_COUNTER_GET_INFO, FUNCTION_PMU_COUNTER_START, FUNCTION_PMU_COUNTER_STOP,
    FUNCTION_PMU_NUM_COUNTERS,
};
use rustsbi_pmu::qemu::{Pmu, FW_COUNTER_INFO};
use rustsbi_pmu::sbiret::{
    SBI_ERR_ALREADY_STARTED, SBI_ERR_ALREADY_STOPPED, SBI_ERR_FAILED, SBI_ERR_INVALID_PARAM,
    SBI_ERR_NOT_SUPPORTED, SBI_SUCCESS,
};
use rustsbi_pmu::Pmu as Provider;
use rustsbi_pmu::{handle_ecall_pmu, init_pmu, PmuRegistry, SbiRet, SharedPmu};

fn installed(n: usize) -> PmuRegistry<Pmu> {
    let mut registry = PmuRegistry::new();
    init_pmu(&mut registry, Pmu::new(n));
    registry
}

fn call(registry: &mut PmuRegistry<Pmu>, function: usize, a1: usize, a2: usize, a3: usize, a4: u64) -> SbiRet {
    handle_ecall_pmu(registry, function, 0, a1, a2, a3, a4)
}

#[test]
fn wire_constants() {
    assert_eq!(EXTENSION_PMU, 0x504D55);
    assert_eq!(FUNCTION_PMU_NUM_COUNTERS, 0);
    assert_eq!(FUNCTION_PMU_COUNTER_GET_INFO, 1);
    assert_eq!(FUNCTION_PMU_COUNTER_CFG_MATCH, 2);
    assert_eq!(FUNCTION_PMU_COUNTER_START, 3);
    assert_eq!(FUNCTION_PMU_COUNTER_STOP, 4);
    assert_eq!(FUNCTION_PMU_COUNTER_FW_READ, 5);
}

#[test]
fn return_codes() {
    assert_eq!(SbiRet::success(5), SbiRet { error: 0, value: 5 });
    assert_eq!(SbiRet::not_supported(), SbiRet { error: -2, value: 0 });
    assert_eq!(SbiRet::failed(), SbiRet { error: -1, value: 0 });
    assert_eq!(SbiRet::invalid_param(), SbiRet { error: -3, value: 0 });
    assert_eq!(SbiRet::already_available(), SbiRet { error: -6, value: 0 });
    assert_eq!(SbiRet::already_started(), SbiRet { error: -7, value: 0 });
    assert_eq!(SbiRet::already_stopped(), SbiRet { error: -8, value: 0 });
    assert!(SbiRet::success(0).is_ok());
    assert!(!SbiRet::failed().is_ok());
    assert_eq!(SBI_SUCCESS, 0);
    assert_eq!(SBI_ERR_FAILED, -1);
}

#[test]
fn unknown_function_is_not_supported() {
    let mut empty: PmuRegistry<Pmu> = PmuRegistry::new();
    let mut full = installed(8);
    for function in [6usize, 7, 100, 0x504D55, usize::MAX] {
        assert_eq!(call(&mut empty, function, 0, 1, 0, 0), SbiRet { error: SBI_ERR_NOT_SUPPORTED, value: 0 });
        assert_eq!(call(&mut full, function, 0, 1, 0, 0), SbiRet { error: SBI_ERR_NOT_SUPPORTED, value: 0 });
    }
}

#[test]
fn no_provider_is_not_supported() {
    let mut empty: PmuRegistry<Pmu> = PmuRegistry::new();
    for function in 0usize..6 {
        assert_eq!(call(&mut empty, function, 0, 1, 0, 0), SbiRet::not_supported());
    }
    assert_eq!(empty.counter_start(0, 1, 0, 0), SbiRet::not_supported());
    assert_eq!(empty.counter_stop(0, 1, 0), SbiRet::not_supported());
    assert_eq!(empty.counter_fw_read(0), SbiRet::not_supported());
}

#[test]
fn start_twice_is_already_started() {
    let mut registry = installed(8);
    assert_eq!(call(&mut registry, FUNCTION_PMU_COUNTER_START, 0, 0b11, 0, 0), SbiRet::success(0));
    assert_eq!(call(&mut registry, FUNCTION_PMU_COUNTER_START, 0, 0b11, 0, 0).error, SBI_ERR_ALREADY_STARTED);
    assert_eq!(call(&mut registry, FUNCTION_PMU_COUNTER_START, 1, 0b1, 0, 0).error, SBI_ERR_ALREADY_STARTED);
    assert_eq!(call(&mut registry, FUNCTION_PMU_COUNTER_START, 2, 0b1, 0, 0), SbiRet::success(0));
}

#[test]
fn reserved_start_flags_are_invalid() {
    let mut registry = installed(8);
    for flags in [2usize, 3, 0x10, usize::MAX] {
        assert_eq!(call(&mut registry, FUNCTION_PMU_COUNTER_START, 0, 1, flags, 0).error, SBI_ERR_INVALID_PARAM);
        assert_eq!(call(&mut registry, FUNCTION_PMU_COUNTER_START, 100, 1, flags, 0).error, SBI_ERR_INVALID_PARAM);
    }
    assert_eq!(call(&mut registry, FUNCTION_PMU_COUNTER_START, 0, 1, 0, 0), SbiRet::success(0));
}

#[test]
fn stop_never_started_is_already_stopped() {
    let mut registry = installed(8);
    assert_eq!(call(&mut registry, FUNCTION_PMU_COUNTER_STOP, 0, 0b101, 0, 0).error, SBI_ERR_ALREADY_STOPPED);
    assert_eq!(call(&mut registry, FUNCTION_PMU_COUNTER_STOP, 7, 1, 1, 0).error, SBI_ERR_ALREADY_STOPPED);
}

#[test]
fn stop_after_start() {
    let mut registry = installed(8);
    assert_eq!(call(&mut registry, FUNCTION_PMU_COUNTER_START, 4, 0b11, 1, 99), SbiRet::success(0));
    assert_eq!(call(&mut registry, FUNCTION_PMU_COUNTER_STOP, 4, 0b11, 0, 0), SbiRet::success(0));
    assert_eq!(call(&mut registry, FUNCTION_PMU_COUNTER_STOP, 4, 0b1, 0, 0).error, SBI_ERR_ALREADY_STOPPED);
    assert_eq!(call(&mut registry, FUNCTION_PMU_COUNTER_FW_READ, 5, 0, 0, 0), SbiRet::success(99));
    assert_eq!(call(&mut registry, FUNCTION_PMU_COUNTER_STOP, 4, 0b11, 2, 0).error, SBI_ERR_INVALID_PARAM);
}

#[test]
fn nonexistent_counters_are_invalid() {
    let mut registry = installed(8);
    assert_eq!(call(&mut registry, FUNCTION_PMU_COUNTER_START, 7, 0b11, 0, 0).error, SBI_ERR_INVALID_PARAM);
    assert_eq!(call(&mut registry, FUNCTION_PMU_COUNTER_START, usize::MAX, 1, 0, 0).error, SBI_ERR_INVALID_PARAM);
    assert_eq!(call(&mut registry, FUNCTION_PMU_COUNTER_START, 1, usize::MAX, 0, 0).error, SBI_ERR_INVALID_PARAM);
    assert_eq!(call(&mut registry, FUNCTION_PMU_COUNTER_STOP, 8, 1, 0, 0).error, SBI_ERR_INVALID_PARAM);
    assert_eq!(call(&mut registry, FUNCTION_PMU_COUNTER_FW_READ, 8, 0, 0, 0).error, SBI_ERR_INVALID_PARAM);
    // nothing was started by the refused requests
    assert_eq!(call(&mut registry, FUNCTION_PMU_COUNTER_START, 7, 1, 0, 0), SbiRet::success(0));
}

#[test]
fn start_loads_initial_value_only_with_flag() {
    let mut registry = installed(4);
    assert_eq!(handle_ecall_pmu(&mut registry, FUNCTION_PMU_COUNTER_START, 0, 0, 0b1, 1, 42), SbiRet::success(0));
    assert_eq!(handle_ecall_pmu(&mut registry, FUNCTION_PMU_COUNTER_START, 0, 1, 0b1, 0, 42), SbiRet::success(0));
    assert_eq!(call(&mut registry, FUNCTION_PMU_COUNTER_FW_READ, 0, 0, 0, 0), SbiRet::success(42));
    assert_eq!(call(&mut registry, FUNCTION_PMU_COUNTER_FW_READ, 1, 0, 0, 0), SbiRet::success(0));
}

#[test]
fn empty_mask_changes_nothing() {
    let mut registry = installed(4);
    assert_eq!(call(&mut registry, FUNCTION_PMU_COUNTER_START, 0, 0, 0, 0), SbiRet::success(0));
    assert_eq!(call(&mut registry, FUNCTION_PMU_COUNTER_START, 0, 0, 0, 0), SbiRet::success(0));
    assert_eq!(call(&mut registry, FUNCTION_PMU_COUNTER_STOP, 0, 0b1, 0, 0).error, SBI_ERR_ALREADY_STOPPED);
}

#[test]
fn counter_description_and_count() {
    let mut registry = installed(6);
    assert_eq!(call(&mut registry, FUNCTION_PMU_NUM_COUNTERS, 0, 0, 0, 0), SbiRet::success(6));
    assert_eq!(call(&mut registry, FUNCTION_PMU_COUNTER_GET_INFO, 5, 0, 0, 0), SbiRet::success(FW_COUNTER_INFO));
    assert_eq!(FW_COUNTER_INFO, isize::MIN);
    assert_eq!(call(&mut registry, FUNCTION_PMU_COUNTER_GET_INFO, 6, 0, 0, 0).error, SBI_ERR_INVALID_PARAM);
    assert_eq!(
        handle_ecall_pmu(&mut registry, FUNCTION_PMU_COUNTER_CFG_MATCH, 0, 1, 0, 0x10, 7),
        SbiRet::not_supported()
    );
}

#[test]
fn repeated_reads_agree() {
    let mut registry = installed(8);
    assert_eq!(call(&mut registry, FUNCTION_PMU_COUNTER_START, 0, 0xff, 1, 7), SbiRet::success(0));
    let shared = SharedPmu::new(registry);
    assert!(shared.is_installed());
    let handle = &shared;
    let reads: Vec<SbiRet> = (0..16)
        .map(|k| handle.handle_ecall(FUNCTION_PMU_COUNTER_FW_READ, 0, k % 8, 0, 0, 0))
        .collect();
    assert_eq!(reads.len(), 16);
    for r in reads {
        assert_eq!(r, SbiRet::success(7));
    }
    assert_eq!(handle.handle_ecall(FUNCTION_PMU_COUNTER_START, 0, 0, 1, 0, 0).error, SBI_ERR_ALREADY_STARTED);
    assert_eq!(handle.handle_ecall(FUNCTION_PMU_COUNTER_STOP, 0, 0, 1, 0, 0), SbiRet::success(0));
    assert_eq!(handle.handle_ecall(FUNCTION_PMU_COUNTER_STOP, 0, 0, 1, 0, 0).error, SBI_ERR_ALREADY_STOPPED);
}

#[test]
fn shared_without_provider() {
    let shared: SharedPmu<Pmu> = SharedPmu::new(PmuRegistry::new());
    assert!(!shared.is_installed());
    for function in 0usize..8 {
        assert_eq!(shared.handle_ecall(function, 0, 0, 1, 0, 0), SbiRet::not_supported());
    }
}

#[test]
fn install_then_probe() {
    let mut registry: PmuRegistry<Pmu> = PmuRegistry::new();
    assert!(!registry.is_installed());
    init_pmu(&mut registry, Pmu::new(2));
    assert!(registry.is_installed());
    registry.install(Pmu::new(3));
    assert!(registry.is_installed());
    assert_eq!(call(&mut registry, FUNCTION_PMU_NUM_COUNTERS, 0, 0, 0, 0), SbiRet::success(3));
}

#[test]
fn provider_directly() {
    let mut pmu = Pmu::new(2);
    assert_eq!(pmu.pmu_counter_start(0, 0b10, 1, 5), SbiRet::success(0));
    assert_eq!(pmu.pmu_counter_fw_read(1), SbiRet::success(5));
    assert_eq!(pmu.pmu_counter_stop(0, 0b1, 0).error, SBI_ERR_ALREADY_STOPPED);
    assert_eq!(pmu.pmu_counter_stop(1, 0b1, 0), SbiRet::success(0));
    assert_eq!(pmu.pmu_counter_fw_read(1), SbiRet::success(5));
    let big = Pmu::new(1);
    assert_eq!(big.pmu_counter_fw_read(0), SbiRet::success(0));
    let mut p = Pmu::new(1);
    assert_eq!(p.pmu_counter_start(0, 1, 1, u64::MAX), SbiRet::success(0));
    assert_eq!(p.pmu_counter_fw_read(0), SbiRet::success(-1));
}

#[test]
fn registers_are_decoded_from_param1() {
    let mut registry = installed(4);
    // param0 is not read: a start on counter 2 with an initial value of 9
    assert_eq!(handle_ecall_pmu(&mut registry, FUNCTION_PMU_COUNTER_START, 3, 2, 0b1, 1, 9), SbiRet::success(0));
    assert_eq!(handle_ecall_pmu(&mut registry, FUNCTION_PMU_COUNTER_FW_READ, 0, 2, 0, 0, 0), SbiRet::success(9));
    assert_eq!(handle_ecall_pmu(&mut registry, FUNCTION_PMU_COUNTER_FW_READ, 2, 0, 0, 0, 0), SbiRet::success(0));
    assert_eq!(handle_ecall_pmu(&mut registry, FUNCTION_PMU_COUNTER_GET_INFO, 0, 4, 0, 0, 0).error, SBI_ERR_INVALID_PARAM);
    assert_eq!(handle_ecall_pmu(&mut registry, FUNCTION_PMU_COUNTER_STOP, 0, 2, 0b1, 2, 0).error, SBI_ERR_INVALID_PARAM);
    assert_eq!(handle_ecall_pmu(&mut registry, FUNCTION_PMU_COUNTER_STOP, 0, 2, 0b1, 0, 0), SbiRet::success(0));
    assert_eq!(handle_ecall_pmu(&mut registry, FUNCTION_PMU_COUNTER_STOP, 0, 2, 0b1, 1, 0).error, SBI_ERR_ALREADY_STOPPED);
}
