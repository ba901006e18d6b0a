//! Routing of a performance-monitoring supervisor call, by function ID, to the
//! installed provider.
use vstd::prelude::*;

use crate::pmu::{has_reserved_bits, Pmu, PmuRegistry};
use crate::sbiret::{SbiRet, SBI_ERR_INVALID_PARAM, SBI_ERR_NOT_SUPPORTED};

verus! {

/// Extension ID of the performance-monitoring extension ("PMU").
pub const EXTENSION_PMU: usize = 0x504D55;

/// Function ID of `sbi_pmu_num_counters`.
pub const FUNCTION_PMU_NUM_COUNTERS: usize = 0x0;

/// Function ID of `sbi_pmu_counter_get_info`.
pub const FUNCTION_PMU_COUNTER_GET_INFO: usize = 0x1;

/// Function ID of `sbi_pmu_counter_config_matching`.
pub const FUNCTION_PMU_COUNTER_CFG_MATCH: usize = 0x2;

/// Function ID of `sbi_pmu_counter_start`.
pub const FUNCTION_PMU_COUNTER_START: usize = 0x3;

/// Function ID of `sbi_pmu_counter_stop`.
pub const FUNCTION_PMU_COUNTER_STOP: usize = 0x4;

/// Function ID of `sbi_pmu_counter_fw_read`.
pub const FUNCTION_PMU_COUNTER_FW_READ: usize = 0x5;

/// Whether `function` names one of the extension's functions.
pub open spec fn is_pmu_function(function: usize) -> bool {
    function <= FUNCTION_PMU_COUNTER_FW_READ
}

/// One call of the extension on the registry `before`, decoded as
/// `handle_ecall_pmu` says, answers `r` and leaves `after`.
pub open spec fn dispatch_post<P: Pmu>(
    before: PmuRegistry<P>,
    function: usize,
    param0: usize,
    param1: usize,
    param2: usize,
    param3: usize,
    param4: u64,
    r: SbiRet,
    after: PmuRegistry<P>,
) -> bool {
    if function == FUNCTION_PMU_COUNTER_START {
        before.start_post(param1, param2, param3, param4, r, after)
    } else if function == FUNCTION_PMU_COUNTER_STOP {
        before.stop_post(param1, param2, param3, r, after)
    } else if function == FUNCTION_PMU_COUNTER_CFG_MATCH {
        before.config_post(param1, param2, param3, param0, param4, r, after)
    } else {
        &&& after == before
        &&& r == if function == FUNCTION_PMU_COUNTER_FW_READ {
            before.fw_read_of(param1)
        } else if function == FUNCTION_PMU_COUNTER_GET_INFO {
            before.get_info_of(param1)
        } else if function == FUNCTION_PMU_NUM_COUNTERS {
            before.num_counters_of()
        } else {
            SbiRet::err_spec(SBI_ERR_NOT_SUPPORTED)
        }
    }
}

/// Handles one call of the extension. `function` is the function ID; the
/// arguments are decoded from the parameter registers as follows, and handed
/// unchanged to the installed provider, whose answer is returned:
///
/// - start: base `param1`, mask `param2`, flags `param3`, initial value `param4`;
/// - stop: base `param1`, mask `param2`, flags `param3`;
/// - event matching: base `param1`, mask `param2`, flags `param3`, event index
///   `param0`, event data `param4`;
/// - firmware read and counter description: index `param1`;
/// - number of counters: no argument.
///
/// Unknown function IDs, and every function while no provider is installed,
/// are answered with `NOT_SUPPORTED`; a start or stop request with reserved
/// flag bits set is answered with `INVALID_PARAM` by every provider.
pub fn handle_ecall_pmu<P: Pmu>(
    registry: &mut PmuRegistry<P>,
    function: usize,
    param0: usize,
    param1: usize,
    param2: usize,
    param3: usize,
    param4: u64,
) -> (r: SbiRet)
    ensures
        r.wf(),
        dispatch_post(*old(registry), function, param0, param1, param2, param3, param4, r, *final(registry)),
        !is_pmu_function(function) ==> r == SbiRet::err_spec(SBI_ERR_NOT_SUPPORTED),
        !old(registry).installed() ==> r == SbiRet::err_spec(SBI_ERR_NOT_SUPPORTED),
        old(registry).installed() && (function == FUNCTION_PMU_COUNTER_START || function
            == FUNCTION_PMU_COUNTER_STOP) && has_reserved_bits(param3) ==> r == SbiRet::err_spec(
            SBI_ERR_INVALID_PARAM,
        ),
{
    match function {
        FUNCTION_PMU_NUM_COUNTERS => registry.num_counters(),
        FUNCTION_PMU_COUNTER_GET_INFO => registry.counter_get_info(param1),
        FUNCTION_PMU_COUNTER_CFG_MATCH => registry.counter_config_matching(param1, param2, param3, param0, param4),
        FUNCTION_PMU_COUNTER_START => registry.counter_start(param1, param2, param3, param4),
        FUNCTION_PMU_COUNTER_STOP => registry.counter_stop(param1, param2, param3),
        FUNCTION_PMU_COUNTER_FW_READ => registry.counter_fw_read(param1),
        _ => SbiRet::not_supported(),
    }
}

} // verus!
