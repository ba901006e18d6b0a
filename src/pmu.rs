//! The provider interface of the performance-monitoring extension, and the
//! registry that owns the installed provider.
use vstd::prelude::*;

use crate::sbiret::{
    SbiRet, SBI_ERR_ALREADY_STARTED, SBI_ERR_ALREADY_STOPPED, SBI_ERR_INVALID_PARAM,
    SBI_ERR_NOT_SUPPORTED,
};

verus! {

/// Bit 0 of `start_flags`: load `initial_value` into the counters before starting them.
pub const START_SET_INIT_VALUE: usize = 0x1;

/// Bit 0 of `stop_flags`: reset the counter-to-event mapping of the stopped counters.
pub const STOP_FLAG_RESET: usize = 0x1;

/// Whether any bit of `flags` above bit 0 is set; those bits are reserved.
pub open spec fn has_reserved_bits(flags: usize) -> bool {
    flags & !0x1usize != 0
}

/// What every provider owes on a start or stop request: a standard code, and
/// `INVALID_PARAM` whenever a reserved flag bit is set.
pub open spec fn flags_outcome(flags: usize, r: SbiRet) -> bool {
    &&& r.wf()
    &&& has_reserved_bits(flags) ==> r == SbiRet::err_spec(SBI_ERR_INVALID_PARAM)
}

/// Whether the set named by `base` and `mask` holds counter `idx`: bit `k` of
/// `mask` names counter `base + k`.
pub open spec fn in_set(base: int, mask: nat, idx: int) -> bool
    decreases mask,
{
    if mask == 0 {
        false
    } else {
        (mask % 2 == 1 && idx == base) || in_set(base + 1, mask / 2, idx)
    }
}

/// A platform's implementation of the performance-monitoring extension.
///
/// Counter sets are named by a base index and a mask: bit `i` of the mask
/// names counter `base + i`. Each operation is described by a relation between
/// the provider before the call, its result and, for the operations that
/// change state, the provider after the call.
pub trait Pmu: Send + Sized {
    /// Whether counter `idx` exists.
    spec fn counter_exists(&self, idx: int) -> bool;

    /// Whether counter `idx` is running.
    spec fn counter_running(&self, idx: int) -> bool;

    /// Whether a start request on `self` may answer `r` and leave `after`.
    spec fn start_post(
        &self,
        counter_idx_base: usize,
        counter_idx_mask: usize,
        start_flags: usize,
        initial_value: u64,
        r: SbiRet,
        after: Self,
    ) -> bool;

    /// Whether a stop request on `self` may answer `r` and leave `after`.
    spec fn stop_post(&self, counter_idx_base: usize, counter_idx_mask: usize, stop_flags: usize, r: SbiRet, after: Self) -> bool;

    /// Whether an event-matching request on `self` may answer `r` and leave `after`.
    spec fn config_post(
        &self,
        counter_idx_base: usize,
        counter_idx_mask: usize,
        config_flags: usize,
        event_idx: usize,
        event_data: u64,
        r: SbiRet,
        after: Self,
    ) -> bool;

    /// The answer of a firmware-counter read on `self`.
    spec fn fw_read_of(&self, counter_idx: usize) -> SbiRet;

    /// The answer of a counter-count request on `self`.
    spec fn num_counters_of(&self) -> SbiRet;

    /// The answer of a counter-description request on `self`.
    spec fn get_info_of(&self, counter_idx: usize) -> SbiRet;

    /// Starts the named counters; bit 0 of `start_flags` first loads
    /// `initial_value` into them. Reports `INVALID_PARAM` if a reserved flag
    /// is set or a named counter does not exist, and otherwise
    /// `ALREADY_STARTED` if a named counter is running.
    fn pmu_counter_start(
        &mut self,
        counter_idx_base: usize,
        counter_idx_mask: usize,
        start_flags: usize,
        initial_value: u64,
    ) -> (r: SbiRet)
        ensures
            flags_outcome(start_flags, r),
            !has_reserved_bits(start_flags) && !(forall|i: int|
                #[trigger] in_set(counter_idx_base as int, counter_idx_mask as nat, i) ==> old(self).counter_exists(i))
                ==> r == SbiRet::err_spec(SBI_ERR_INVALID_PARAM),
            !has_reserved_bits(start_flags) && (forall|i: int|
                #[trigger] in_set(counter_idx_base as int, counter_idx_mask as nat, i) ==> old(self).counter_exists(i))
                && (exists|i: int|
                #[trigger] in_set(counter_idx_base as int, counter_idx_mask as nat, i) && old(self).counter_exists(i)
                    && old(self).counter_running(i) == true) ==> r == SbiRet::err_spec(SBI_ERR_ALREADY_STARTED),
            old(self).start_post(counter_idx_base, counter_idx_mask, start_flags, initial_value, r, *final(self)),
    ;

    /// Stops the named counters; bit 0 of `stop_flags` resets their event
    /// mapping. Reports `INVALID_PARAM` if a reserved flag is set or a named
    /// counter does not exist, and otherwise `ALREADY_STOPPED` if a named
    /// counter is not running.
    fn pmu_counter_stop(&mut self, counter_idx_base: usize, counter_idx_mask: usize, stop_flags: usize) -> (r: SbiRet)
        ensures
            flags_outcome(stop_flags, r),
            !has_reserved_bits(stop_flags) && !(forall|i: int|
                #[trigger] in_set(counter_idx_base as int, counter_idx_mask as nat, i) ==> old(self).counter_exists(i))
                ==> r == SbiRet::err_spec(SBI_ERR_INVALID_PARAM),
            !has_reserved_bits(stop_flags) && (forall|i: int|
                #[trigger] in_set(counter_idx_base as int, counter_idx_mask as nat, i) ==> old(self).counter_exists(i))
                && (exists|i: int|
                #[trigger] in_set(counter_idx_base as int, counter_idx_mask as nat, i) && old(self).counter_exists(i)
                    && old(self).counter_running(i) == false) ==> r == SbiRet::err_spec(SBI_ERR_ALREADY_STOPPED),
            old(self).stop_post(counter_idx_base, counter_idx_mask, stop_flags, r, *final(self)),
    ;

    /// Finds and configures a counter of the named set that can monitor the
    /// given event; the value is the index of the counter chosen.
    fn pmu_counter_config_matching(
        &mut self,
        counter_idx_base: usize,
        counter_idx_mask: usize,
        config_flags: usize,
        event_idx: usize,
        event_data: u64,
    ) -> (r: SbiRet)
        ensures
            r.wf(),
            old(self).config_post(counter_idx_base, counter_idx_mask, config_flags, event_idx, event_data, r, *final(self)),
    ;

    /// Reads a firmware counter without changing any state.
    fn pmu_counter_fw_read(&self, counter_idx: usize) -> (r: SbiRet)
        ensures
            r.wf(),
            r == self.fw_read_of(counter_idx),
    ;

    /// The number of counters, hardware and firmware together.
    fn pmu_num_counters(&self) -> (r: SbiRet)
        ensures
            r.wf(),
            r == self.num_counters_of(),
    ;

    /// The description word of one counter.
    fn pmu_counter_get_info(&self, counter_idx: usize) -> (r: SbiRet)
        ensures
            r.wf(),
            r == self.get_info_of(counter_idx),
    ;
}

/// The slot that holds at most one installed provider. Every call is handed
/// to the installed provider, whose answer comes back unchanged; with no
/// provider, every call is answered with `NOT_SUPPORTED` and changes nothing.
#[verifier::reject_recursive_types(P)]
pub struct PmuRegistry<P: Pmu> {
    slot: Option<P>,
}

impl<P: Pmu> PmuRegistry<P> {
    /// The installed provider, in its present state.
    pub closed spec fn provider(&self) -> Option<P> {
        self.slot
    }

    /// Whether a provider has been installed.
    pub open spec fn installed(&self) -> bool {
        self.provider() is Some
    }

    /// A start request on the registry `self` answers `r` and leaves `after`.
    pub open spec fn start_post(&self, base: usize, mask: usize, start_flags: usize, initial_value: u64, r: SbiRet, after: Self) -> bool {
        match self.provider() {
            None => r == SbiRet::err_spec(SBI_ERR_NOT_SUPPORTED) && after == *self,
            Some(p) => after.provider() is Some && p.start_post(
                base,
                mask,
                start_flags,
                initial_value,
                r,
                after.provider()->Some_0,
            ),
        }
    }

    /// A stop request on the registry `self` answers `r` and leaves `after`.
    pub open spec fn stop_post(&self, base: usize, mask: usize, stop_flags: usize, r: SbiRet, after: Self) -> bool {
        match self.provider() {
            None => r == SbiRet::err_spec(SBI_ERR_NOT_SUPPORTED) && after == *self,
            Some(p) => after.provider() is Some && p.stop_post(base, mask, stop_flags, r, after.provider()->Some_0),
        }
    }

    /// An event-matching request on the registry `self` answers `r` and leaves `after`.
    pub open spec fn config_post(
        &self,
        base: usize,
        mask: usize,
        config_flags: usize,
        event_idx: usize,
        event_data: u64,
        r: SbiRet,
        after: Self,
    ) -> bool {
        match self.provider() {
            None => r == SbiRet::err_spec(SBI_ERR_NOT_SUPPORTED) && after == *self,
            Some(p) => after.provider() is Some && p.config_post(
                base,
                mask,
                config_flags,
                event_idx,
                event_data,
                r,
                after.provider()->Some_0,
            ),
        }
    }

    /// The answer of the registry `self` to a firmware-counter read.
    pub open spec fn fw_read_of(&self, counter_idx: usize) -> SbiRet {
        match self.provider() {
            None => SbiRet::err_spec(SBI_ERR_NOT_SUPPORTED),
            Some(p) => p.fw_read_of(counter_idx),
        }
    }

    /// The answer of the registry `self` to a counter-count request.
    pub open spec fn num_counters_of(&self) -> SbiRet {
        match self.provider() {
            None => SbiRet::err_spec(SBI_ERR_NOT_SUPPORTED),
            Some(p) => p.num_counters_of(),
        }
    }

    /// The answer of the registry `self` to a counter-description request.
    pub open spec fn get_info_of(&self, counter_idx: usize) -> SbiRet {
        match self.provider() {
            None => SbiRet::err_spec(SBI_ERR_NOT_SUPPORTED),
            Some(p) => p.get_info_of(counter_idx),
        }
    }

    /// An empty registry.
    pub fn new() -> (r: Self)
        ensures
            r.provider() is None,
    {
        PmuRegistry { slot: None }
    }

    /// Installs `provider`, which the registry then owns; a provider installed
    /// before is dropped and never called again.
    pub fn install(&mut self, provider: P)
        ensures
            final(self).provider() == Some(provider),
    {
        self.slot = Some(provider);
    }

    /// Whether a provider has been installed.
    pub fn is_installed(&self) -> (r: bool)
        ensures
            r == self.installed(),
    {
        self.slot.is_some()
    }

    /// Hands a start request, with these arguments, to the installed provider.
    pub fn counter_start(&mut self, counter_idx_base: usize, counter_idx_mask: usize, start_flags: usize, initial_value: u64) -> (r: SbiRet)
        ensures
            r.wf(),
            old(self).start_post(counter_idx_base, counter_idx_mask, start_flags, initial_value, r, *final(self)),
            old(self).installed() ==> flags_outcome(start_flags, r),
            old(self).installed() && !has_reserved_bits(start_flags) && !(forall|i: int|
                #[trigger] in_set(counter_idx_base as int, counter_idx_mask as nat, i) ==> old(
                    self,
                ).provider()->Some_0.counter_exists(i)) ==> r == SbiRet::err_spec(SBI_ERR_INVALID_PARAM),
            old(self).installed() && !has_reserved_bits(start_flags) && (forall|i: int|
                #[trigger] in_set(counter_idx_base as int, counter_idx_mask as nat, i) ==> old(
                    self,
                ).provider()->Some_0.counter_exists(i)) && (exists|i: int|
                #[trigger] in_set(counter_idx_base as int, counter_idx_mask as nat, i) && old(
                    self,
                ).provider()->Some_0.counter_exists(i) && old(self).provider()->Some_0.counter_running(i)
                    == true) ==> r == SbiRet::err_spec(SBI_ERR_ALREADY_STARTED),
    {
        match &mut self.slot {
            None => SbiRet::not_supported(),
            Some(p) => p.pmu_counter_start(counter_idx_base, counter_idx_mask, start_flags, initial_value),
        }
    }

    /// Hands a stop request, with these arguments, to the installed provider.
    pub fn counter_stop(&mut self, counter_idx_base: usize, counter_idx_mask: usize, stop_flags: usize) -> (r: SbiRet)
        ensures
            r.wf(),
            old(self).stop_post(counter_idx_base, counter_idx_mask, stop_flags, r, *final(self)),
            old(self).installed() ==> flags_outcome(stop_flags, r),
            old(self).installed() && !has_reserved_bits(stop_flags) && !(forall|i: int|
                #[trigger] in_set(counter_idx_base as int, counter_idx_mask as nat, i) ==> old(
                    self,
                ).provider()->Some_0.counter_exists(i)) ==> r == SbiRet::err_spec(SBI_ERR_INVALID_PARAM),
            old(self).installed() && !has_reserved_bits(stop_flags) && (forall|i: int|
                #[trigger] in_set(counter_idx_base as int, counter_idx_mask as nat, i) ==> old(
                    self,
                ).provider()->Some_0.counter_exists(i)) && (exists|i: int|
                #[trigger] in_set(counter_idx_base as int, counter_idx_mask as nat, i) && old(
                    self,
                ).provider()->Some_0.counter_exists(i) && old(self).provider()->Some_0.counter_running(i)
                    == false) ==> r == SbiRet::err_spec(SBI_ERR_ALREADY_STOPPED),
    {
        match &mut self.slot {
            None => SbiRet::not_supported(),
            Some(p) => p.pmu_counter_stop(counter_idx_base, counter_idx_mask, stop_flags),
        }
    }

    /// Hands an event-matching request, with these arguments, to the installed provider.
    pub fn counter_config_matching(
        &mut self,
        counter_idx_base: usize,
        counter_idx_mask: usize,
        config_flags: usize,
        event_idx: usize,
        event_data: u64,
    ) -> (r: SbiRet)
        ensures
            r.wf(),
            old(self).config_post(counter_idx_base, counter_idx_mask, config_flags, event_idx, event_data, r, *final(self)),
    {
        match &mut self.slot {
            None => SbiRet::not_supported(),
            Some(p) => p.pmu_counter_config_matching(counter_idx_base, counter_idx_mask, config_flags, event_idx, event_data),
        }
    }

    /// Hands a firmware-counter read to the installed provider.
    pub fn counter_fw_read(&self, counter_idx: usize) -> (r: SbiRet)
        ensures
            r.wf(),
            r == self.fw_read_of(counter_idx),
    {
        match &self.slot {
            None => SbiRet::not_supported(),
            Some(p) => p.pmu_counter_fw_read(counter_idx),
        }
    }

    /// Asks the installed provider for its number of counters.
    pub fn num_counters(&self) -> (r: SbiRet)
        ensures
            r.wf(),
            r == self.num_counters_of(),
    {
        match &self.slot {
            None => SbiRet::not_supported(),
            Some(p) => p.pmu_num_counters(),
        }
    }

    /// Asks the installed provider to describe one counter.
    pub fn counter_get_info(&self, counter_idx: usize) -> (r: SbiRet)
        ensures
            r.wf(),
            r == self.get_info_of(counter_idx),
    {
        match &self.slot {
            None => SbiRet::not_supported(),
            Some(p) => p.pmu_counter_get_info(counter_idx),
        }
    }
}

/// Installs the platform's provider into `registry`, during boot; a provider
/// installed before is replaced.
pub fn init_pmu<P: Pmu>(registry: &mut PmuRegistry<P>, pmu: P)
    ensures
        final(registry).provider() == Some(pmu),
{
    registry.install(pmu);
}

} // verus!
