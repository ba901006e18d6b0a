//! A provider for the QEMU `virt` platform that keeps a bank of firmware
//! counters in memory.
use vstd::prelude::*;

use crate::ecall::{dispatch_post, FUNCTION_PMU_COUNTER_START, FUNCTION_PMU_COUNTER_STOP};
use crate::pmu::Pmu as PmuProvider;
use crate::pmu::PmuRegistry;
use crate::pmu::{has_reserved_bits, in_set, START_SET_INIT_VALUE, STOP_FLAG_RESET};
use crate::sbiret::{
    SbiRet, SBI_ERR_ALREADY_STARTED, SBI_ERR_ALREADY_STOPPED, SBI_ERR_FAILED, SBI_ERR_INVALID_PARAM,
    SBI_ERR_NOT_SUPPORTED, SBI_SUCCESS,
};

verus! {

/// Every counter that the set names is one of the `n` counters.
pub open spec fn names_only_existing(n: int, base: usize, mask: usize) -> bool {
    forall|i: int| #[trigger] in_set(base as int, mask as nat, i) ==> 0 <= i < n
}

/// Some counter that the set names is in the given running state.
pub open spec fn names_one_with(s: Seq<FwCounter>, base: usize, mask: usize, running: bool) -> bool {
    exists|i: int| 0 <= i < s.len() && #[trigger] in_set(base as int, mask as nat, i) && s[i].running == running
}

/// A counter after it is set to `running` and, where `load` holds a value,
/// loaded with it.
pub open spec fn switched_one(c: FwCounter, running: bool, load: Option<u64>) -> FwCounter {
    FwCounter {
        running,
        value: match load {
            Some(v) => v,
            None => c.value,
        },
    }
}

/// The bank after every counter that the set names is switched as `switched_one` says.
pub open spec fn switched(s: Seq<FwCounter>, base: usize, mask: usize, running: bool, load: Option<u64>) -> Seq<FwCounter> {
    Seq::new(
        s.len(),
        |j: int|
            if in_set(base as int, mask as nat, j) {
                switched_one(s[j], running, load)
            } else {
                s[j]
            },
    )
}

/// Result and new bank of a start request on the bank `s`.
pub open spec fn start_spec(
    s: Seq<FwCounter>,
    base: usize,
    mask: usize,
    start_flags: usize,
    initial_value: u64,
) -> (SbiRet, Seq<FwCounter>) {
    if has_reserved_bits(start_flags) || !names_only_existing(s.len() as int, base, mask) {
        (SbiRet::err_spec(SBI_ERR_INVALID_PARAM), s)
    } else if names_one_with(s, base, mask, true) {
        (SbiRet::err_spec(SBI_ERR_ALREADY_STARTED), s)
    } else {
        let load = if start_flags & START_SET_INIT_VALUE != 0 {
            Some(initial_value)
        } else {
            None
        };
        (SbiRet { error: SBI_SUCCESS, value: 0 }, switched(s, base, mask, true, load))
    }
}

/// Result and new bank of a stop request on the bank `s`.
pub open spec fn stop_spec(s: Seq<FwCounter>, base: usize, mask: usize, stop_flags: usize) -> (SbiRet, Seq<FwCounter>) {
    if has_reserved_bits(stop_flags) || !names_only_existing(s.len() as int, base, mask) {
        (SbiRet::err_spec(SBI_ERR_INVALID_PARAM), s)
    } else if names_one_with(s, base, mask, false) {
        (SbiRet::err_spec(SBI_ERR_ALREADY_STOPPED), s)
    } else {
        (SbiRet { error: SBI_SUCCESS, value: 0 }, switched(s, base, mask, false, None))
    }
}

/// Result of reading counter `idx` of the bank `s`: its value, as the signed
/// word that carries it back.
pub open spec fn fw_read_spec(s: Seq<FwCounter>, idx: usize) -> SbiRet {
    if idx < s.len() {
        SbiRet { error: SBI_SUCCESS, value: s[idx as int].value as isize }
    } else {
        SbiRet::err_spec(SBI_ERR_INVALID_PARAM)
    }
}

/// Result of counting the counters of the bank `s`; a bank too large for a
/// signed word to count is reported as a failure.
pub open spec fn num_counters_spec(s: Seq<FwCounter>) -> SbiRet {
    if s.len() <= isize::MAX {
        SbiRet { error: SBI_SUCCESS, value: s.len() as isize }
    } else {
        SbiRet::err_spec(SBI_ERR_FAILED)
    }
}

/// Description word of a firmware counter: only the top bit, the type bit, is set.
pub const FW_COUNTER_INFO: isize = isize::MIN;

/// Result of describing counter `idx` of the bank `s`.
pub open spec fn get_info_spec(s: Seq<FwCounter>, idx: usize) -> SbiRet {
    if idx < s.len() {
        SbiRet { error: SBI_SUCCESS, value: FW_COUNTER_INFO }
    } else {
        SbiRet::err_spec(SBI_ERR_INVALID_PARAM)
    }
}

/// No member of a set lies below its base.
proof fn lemma_members_from_base(base: int, mask: nat, idx: int)
    ensures
        in_set(base, mask, idx) ==> base <= idx,
    decreases mask,
{
    if mask != 0 {
        lemma_members_from_base(base + 1, mask / 2, idx);
    }
}

/// A non-zero mask names at least one counter.
proof fn lemma_nonempty(base: int, mask: nat)
    requires
        mask != 0,
    ensures
        exists|i: int| base <= i && #[trigger] in_set(base, mask, i),
    decreases mask,
{
    if mask % 2 == 1 {
        assert(in_set(base, mask, base));
    } else {
        lemma_nonempty(base + 1, mask / 2);
        let i = choose|i: int| base + 1 <= i && #[trigger] in_set(base + 1, mask / 2, i);
        assert(in_set(base, mask, i));
    }
}

/// A bank of `n` counters that were never started.
pub open spec fn fresh_bank(n: nat) -> Seq<FwCounter> {
    Seq::new(n, |i: int| FwCounter { running: false, value: 0 })
}

/// Starting, with no flags, a non-empty set of existing counters none of which
/// runs succeeds; starting the same set again right after is refused with
/// `ALREADY_STARTED`.
pub proof fn lemma_start_twice(s: Seq<FwCounter>, base: usize, mask: usize)
    requires
        mask != 0,
        names_only_existing(s.len() as int, base, mask),
        !names_one_with(s, base, mask, true),
    ensures
        start_spec(s, base, mask, 0, 0).0 == (SbiRet { error: SBI_SUCCESS, value: 0 }),
        start_spec(start_spec(s, base, mask, 0, 0).1, base, mask, 0, 0).0 == SbiRet::err_spec(
            SBI_ERR_ALREADY_STARTED,
        ),
{
    assert(0usize & !0x1usize == 0) by (bit_vector);
    assert(0usize & 0x1usize == 0) by (bit_vector);
    let s2 = start_spec(s, base, mask, 0, 0).1;
    assert(s2 == switched(s, base, mask, true, None));
    lemma_nonempty(base as int, mask as nat);
    let i = choose|i: int| base <= i && #[trigger] in_set(base as int, mask as nat, i);
    assert(s2[i].running);
    assert(names_only_existing(s2.len() as int, base, mask));
    assert(names_one_with(s2, base, mask, true));
}

/// Stopping a non-empty set of existing counters on a bank that was never
/// started is refused with `ALREADY_STOPPED`.
pub proof fn lemma_stop_never_started(n: nat, base: usize, mask: usize, stop_flags: usize)
    requires
        mask != 0,
        names_only_existing(n as int, base, mask),
        !has_reserved_bits(stop_flags),
    ensures
        stop_spec(fresh_bank(n), base, mask, stop_flags).0 == SbiRet::err_spec(SBI_ERR_ALREADY_STOPPED),
{
    lemma_nonempty(base as int, mask as nat);
    let i = choose|i: int| base <= i && #[trigger] in_set(base as int, mask as nat, i);
    assert(!fresh_bank(n)[i].running);
    assert(names_one_with(fresh_bank(n), base, mask, false));
}

/// One counter of the bank.
#[derive(Clone, Copy, Debug, PartialEq, Eq, Structural)]
pub struct FwCounter {
    /// Whether the counter is counting.
    pub running: bool,
    /// The counter's current value.
    pub value: u64,
}

/// The platform's performance-monitoring unit: a bank of firmware counters,
/// numbered from zero.
pub struct Pmu {
    counters: Vec<FwCounter>,
}

impl View for Pmu {
    type V = Seq<FwCounter>;

    closed spec fn view(&self) -> Seq<FwCounter> {
        self.counters@
    }
}

impl Pmu {
    /// Checks the set named by `base` and `mask`: the first component says
    /// whether every named counter exists; where they do, the second says
    /// whether one of them is in the state `running`.
    fn scan(&self, base: usize, mask: usize, running: bool) -> (r: (bool, bool))
        ensures
            r.0 == names_only_existing(self@.len() as int, base, mask),
            r.0 ==> r.1 == names_one_with(self@, base, mask, running),
    {
        let n = self.counters.len();
        let mut idx: usize = base;
        let mut m: usize = mask;
        let mut found = false;
        let ghost mut pos: int = base as int;
        proof {
            assert forall|i: int| #[trigger] in_set(base as int, mask as nat, i) implies base <= i by {
                lemma_members_from_base(base as int, mask as nat, i);
            }
        }
        while m != 0
            invariant
                n == self@.len(),
                base <= pos,
                m != 0 ==> idx == pos,
                forall|i: int|
                    #[trigger] in_set(base as int, mask as nat, i) <==> ((i < pos && in_set(
                        base as int,
                        mask as nat,
                        i,
                    )) || in_set(pos, m as nat, i)),
                forall|i: int| #[trigger] in_set(base as int, mask as nat, i) && i < pos ==> i < n,
                found == (exists|i: int|
                    0 <= i < n && #[trigger] in_set(base as int, mask as nat, i) && i < pos
                        && self@[i].running == running),
            decreases m,
        {
            if m % 2 == 1 {
                if idx >= n {
                    assert(in_set(pos, m as nat, pos));
                    assert(in_set(base as int, mask as nat, pos));
                    return (false, false);
                }
                if self.counters[idx].running == running {
                    assert(in_set(pos, m as nat, pos));
                    assert(in_set(base as int, mask as nat, pos));
                    found = true;
                }
            }
            let next: usize = m / 2;
            proof {
                assert forall|i: int| in_set(pos, m as nat, i) <==> ((m % 2 == 1 && i == pos)
                    || in_set(pos + 1, next as nat, i)) by {}
                assert forall|i: int| #[trigger] in_set(pos + 1, next as nat, i) implies pos + 1 <= i by {
                    lemma_members_from_base(pos + 1, next as nat, i);
                }
            }
            if next != 0 && idx == usize::MAX {
                proof {
                    lemma_nonempty(pos + 1, next as nat);
                    let i = choose|i: int| pos + 1 <= i && #[trigger] in_set(pos + 1, next as nat, i);
                    assert(in_set(base as int, mask as nat, i));
                }
                return (false, false);
            }
            if next != 0 {
                idx = idx + 1;
            }
            m = next;
            proof {
                pos = pos + 1;
            }
        }
        proof {
            assert forall|i: int| #[trigger] in_set(base as int, mask as nat, i) implies i < pos by {}
        }
        (true, found)
    }
    /// Switches every counter that the set names, as `switched_one` says.
    fn switch(&mut self, base: usize, mask: usize, running: bool, load: Option<u64>)
        requires
            names_only_existing(old(self)@.len() as int, base, mask),
        ensures
            final(self)@ == switched(old(self)@, base, mask, running, load),
    {
        let n = self.counters.len();
        let mut idx: usize = base;
        let mut m: usize = mask;
        let ghost mut pos: int = base as int;
        proof {
            assert forall|i: int| #[trigger] in_set(base as int, mask as nat, i) implies base <= i by {
                lemma_members_from_base(base as int, mask as nat, i);
            }
        }
        while m != 0
            invariant
                n == self@.len(),
                n == old(self)@.len(),
                names_only_existing(n as int, base, mask),
                base <= pos,
                m != 0 ==> idx == pos,
                forall|i: int|
                    #[trigger] in_set(base as int, mask as nat, i) <==> ((i < pos && in_set(
                        base as int,
                        mask as nat,
                        i,
                    )) || in_set(pos, m as nat, i)),
                forall|j: int|
                    0 <= j < n ==> #[trigger] self@[j] == if in_set(base as int, mask as nat, j) && j < pos {
                        switched_one(old(self)@[j], running, load)
                    } else {
                        old(self)@[j]
                    },
            decreases m,
        {
            if m % 2 == 1 {
                assert(in_set(pos, m as nat, pos));
                assert(in_set(base as int, mask as nat, pos));
                let c = self.counters[idx];
                let value = match load {
                    Some(v) => v,
                    None => c.value,
                };
                self.counters.set(idx, FwCounter { running, value });
            }
            let next: usize = m / 2;
            proof {
                assert forall|i: int| in_set(pos, m as nat, i) <==> ((m % 2 == 1 && i == pos)
                    || in_set(pos + 1, next as nat, i)) by {}
                assert forall|i: int| #[trigger] in_set(pos + 1, next as nat, i) implies pos + 1 <= i by {
                    lemma_members_from_base(pos + 1, next as nat, i);
                }
            }
            if next != 0 {
                proof {
                    lemma_nonempty(pos + 1, next as nat);
                    let i = choose|i: int| pos + 1 <= i && #[trigger] in_set(pos + 1, next as nat, i);
                    assert(in_set(base as int, mask as nat, i));
                }
                idx = idx + 1;
            }
            m = next;
            proof {
                pos = pos + 1;
            }
        }
        proof {
            assert forall|i: int| #[trigger] in_set(base as int, mask as nat, i) implies i < pos by {}
        }
        assert(self@ =~= switched(old(self)@, base, mask, running, load));
    }

    /// A bank of `num_counters` counters, all stopped at zero.
    pub fn new(num_counters: usize) -> (r: Pmu)
        ensures
            r@ == fresh_bank(num_counters as nat),
    {
        let mut counters: Vec<FwCounter> = Vec::new();
        let mut i: usize = 0;
        while i < num_counters
            invariant
                i <= num_counters,
                counters@ == Seq::new(i as nat, |k: int| FwCounter { running: false, value: 0 }),
            decreases num_counters - i,
        {
            counters.push(FwCounter { running: false, value: 0 });
            i = i + 1;
            assert(counters@ =~= Seq::new(i as nat, |k: int| FwCounter { running: false, value: 0 }));
        }
        assert(counters@ =~= fresh_bank(num_counters as nat));
        Pmu { counters }
    }
}

impl PmuProvider for Pmu {
    open spec fn counter_exists(&self, idx: int) -> bool {
        0 <= idx < self@.len()
    }

    open spec fn counter_running(&self, idx: int) -> bool {
        self@[idx].running
    }

    /// This bank counts no hardware events, so no counter is ever matched to one.
    open spec fn config_post(
        &self,
        counter_idx_base: usize,
        counter_idx_mask: usize,
        config_flags: usize,
        event_idx: usize,
        event_data: u64,
        r: SbiRet,
        after: Self,
    ) -> bool {
        r == SbiRet::err_spec(SBI_ERR_NOT_SUPPORTED) && after@ == self@
    }

    open spec fn start_post(
        &self,
        counter_idx_base: usize,
        counter_idx_mask: usize,
        start_flags: usize,
        initial_value: u64,
        r: SbiRet,
        after: Self,
    ) -> bool {
        (r, after@) == start_spec(self@, counter_idx_base, counter_idx_mask, start_flags, initial_value)
    }

    open spec fn stop_post(
        &self,
        counter_idx_base: usize,
        counter_idx_mask: usize,
        stop_flags: usize,
        r: SbiRet,
        after: Self,
    ) -> bool {
        (r, after@) == stop_spec(self@, counter_idx_base, counter_idx_mask, stop_flags)
    }

    open spec fn fw_read_of(&self, counter_idx: usize) -> SbiRet {
        fw_read_spec(self@, counter_idx)
    }

    open spec fn num_counters_of(&self) -> SbiRet {
        num_counters_spec(self@)
    }

    open spec fn get_info_of(&self, counter_idx: usize) -> SbiRet {
        get_info_spec(self@, counter_idx)
    }

    fn pmu_counter_start(
        &mut self,
        counter_idx_base: usize,
        counter_idx_mask: usize,
        start_flags: usize,
        initial_value: u64,
    ) -> (r: SbiRet)
        ensures
            (r, final(self)@) == start_spec(old(self)@, counter_idx_base, counter_idx_mask, start_flags, initial_value),
    {
        if start_flags & !START_SET_INIT_VALUE != 0 {
            return SbiRet::invalid_param();
        }
        let (exist, any_running) = self.scan(counter_idx_base, counter_idx_mask, true);
        if !exist {
            return SbiRet::invalid_param();
        }
        if any_running {
            return SbiRet::already_started();
        }
        let load = if start_flags & START_SET_INIT_VALUE != 0 {
            Some(initial_value)
        } else {
            None
        };
        self.switch(counter_idx_base, counter_idx_mask, true, load);
        SbiRet::success(0)
    }

    fn pmu_counter_stop(&mut self, counter_idx_base: usize, counter_idx_mask: usize, stop_flags: usize) -> (r: SbiRet)
        ensures
            (r, final(self)@) == stop_spec(old(self)@, counter_idx_base, counter_idx_mask, stop_flags),
    {
        if stop_flags & !STOP_FLAG_RESET != 0 {
            return SbiRet::invalid_param();
        }
        let (exist, any_stopped) = self.scan(counter_idx_base, counter_idx_mask, false);
        if !exist {
            return SbiRet::invalid_param();
        }
        if any_stopped {
            return SbiRet::already_stopped();
        }
        self.switch(counter_idx_base, counter_idx_mask, false, None);
        SbiRet::success(0)
    }

    fn pmu_counter_config_matching(
        &mut self,
        counter_idx_base: usize,
        counter_idx_mask: usize,
        config_flags: usize,
        event_idx: usize,
        event_data: u64,
    ) -> (r: SbiRet) {
        SbiRet::not_supported()
    }

    fn pmu_counter_fw_read(&self, counter_idx: usize) -> (r: SbiRet)
        ensures
            r == fw_read_spec(self@, counter_idx),
    {
        if counter_idx < self.counters.len() {
            let value = self.counters[counter_idx].value;
            SbiRet::success(#[verifier::truncate] (value as isize))
        } else {
            SbiRet::invalid_param()
        }
    }

    fn pmu_num_counters(&self) -> (r: SbiRet)
        ensures
            r == num_counters_spec(self@),
    {
        let n = self.counters.len();
        if n <= isize::MAX as usize {
            SbiRet::success(n as isize)
        } else {
            SbiRet::failed()
        }
    }

    fn pmu_counter_get_info(&self, counter_idx: usize) -> (r: SbiRet)
        ensures
            r == get_info_spec(self@, counter_idx),
    {
        if counter_idx < self.counters.len() {
            SbiRet::success(FW_COUNTER_INFO)
        } else {
            SbiRet::invalid_param()
        }
    }
}

/// Starting, with no flags, a non-empty set of existing counters none of which
/// runs succeeds; starting the same set again right after, from the state that
/// the first start left, is refused with `ALREADY_STARTED`.
pub proof fn lemma_provider_start_twice(p: Pmu, base: usize, mask: usize, r1: SbiRet, q: Pmu, r2: SbiRet, q2: Pmu)
    requires
        mask != 0,
        names_only_existing(p@.len() as int, base, mask),
        !names_one_with(p@, base, mask, true),
        p.start_post(base, mask, 0, 0, r1, q),
        q.start_post(base, mask, 0, 0, r2, q2),
    ensures
        r1 == (SbiRet { error: SBI_SUCCESS, value: 0 }),
        r2 == SbiRet::err_spec(SBI_ERR_ALREADY_STARTED),
{
    lemma_start_twice(p@, base, mask);
}

/// Stopping a non-empty set of existing counters, with no reserved flag bit,
/// on a bank that was never started is refused with `ALREADY_STOPPED`.
pub proof fn lemma_provider_stop_never_started(p: Pmu, base: usize, mask: usize, stop_flags: usize, r: SbiRet, q: Pmu)
    requires
        mask != 0,
        p@ == fresh_bank(p@.len()),
        names_only_existing(p@.len() as int, base, mask),
        !has_reserved_bits(stop_flags),
        p.stop_post(base, mask, stop_flags, r, q),
    ensures
        r == SbiRet::err_spec(SBI_ERR_ALREADY_STOPPED),
{
    lemma_stop_never_started(p@.len(), base, mask, stop_flags);
}

/// Through the registry: with the QEMU bank installed, starting with no flags
/// a non-empty set of its existing counters none of which runs succeeds, and
/// the same start right after is refused with `ALREADY_STARTED`.
pub proof fn lemma_registry_start_twice(
    reg0: PmuRegistry<Pmu>,
    base: usize,
    mask: usize,
    r1: SbiRet,
    reg1: PmuRegistry<Pmu>,
    r2: SbiRet,
    reg2: PmuRegistry<Pmu>,
)
    requires
        reg0.installed(),
        mask != 0,
        names_only_existing(reg0.provider()->Some_0@.len() as int, base, mask),
        !names_one_with(reg0.provider()->Some_0@, base, mask, true),
        reg0.start_post(base, mask, 0, 0, r1, reg1),
        reg1.start_post(base, mask, 0, 0, r2, reg2),
    ensures
        r1 == (SbiRet { error: SBI_SUCCESS, value: 0 }),
        r2 == SbiRet::err_spec(SBI_ERR_ALREADY_STARTED),
{
    let p = reg0.provider()->Some_0;
    let q = reg1.provider()->Some_0;
    let q2 = reg2.provider()->Some_0;
    lemma_provider_start_twice(p, base, mask, r1, q, r2, q2);
}

/// Through the dispatcher (function 3, base in `param1`, mask in `param2`):
/// the same as `lemma_registry_start_twice`.
pub proof fn lemma_dispatch_start_twice(
    reg0: PmuRegistry<Pmu>,
    param0: usize,
    base: usize,
    mask: usize,
    r1: SbiRet,
    reg1: PmuRegistry<Pmu>,
    r2: SbiRet,
    reg2: PmuRegistry<Pmu>,
)
    requires
        reg0.installed(),
        mask != 0,
        names_only_existing(reg0.provider()->Some_0@.len() as int, base, mask),
        !names_one_with(reg0.provider()->Some_0@, base, mask, true),
        dispatch_post(reg0, FUNCTION_PMU_COUNTER_START, param0, base, mask, 0, 0, r1, reg1),
        dispatch_post(reg1, FUNCTION_PMU_COUNTER_START, param0, base, mask, 0, 0, r2, reg2),
    ensures
        r1 == (SbiRet { error: SBI_SUCCESS, value: 0 }),
        r2 == SbiRet::err_spec(SBI_ERR_ALREADY_STARTED),
{
    lemma_registry_start_twice(reg0, base, mask, r1, reg1, r2, reg2);
}

/// Through the registry: with a QEMU bank installed that was never started,
/// stopping a non-empty set of its existing counters, with no reserved flag
/// bit, is refused with `ALREADY_STOPPED`.
pub proof fn lemma_registry_stop_never_started(
    reg0: PmuRegistry<Pmu>,
    base: usize,
    mask: usize,
    stop_flags: usize,
    r: SbiRet,
    reg1: PmuRegistry<Pmu>,
)
    requires
        reg0.installed(),
        mask != 0,
        reg0.provider()->Some_0@ == fresh_bank(reg0.provider()->Some_0@.len()),
        names_only_existing(reg0.provider()->Some_0@.len() as int, base, mask),
        !has_reserved_bits(stop_flags),
        reg0.stop_post(base, mask, stop_flags, r, reg1),
    ensures
        r == SbiRet::err_spec(SBI_ERR_ALREADY_STOPPED),
{
    lemma_provider_stop_never_started(reg0.provider()->Some_0, base, mask, stop_flags, r, reg1.provider()->Some_0);
}

/// Through the dispatcher (function 4, base in `param1`, mask in `param2`,
/// flags in `param3`): the same as `lemma_registry_stop_never_started`.
pub proof fn lemma_dispatch_stop_never_started(
    reg0: PmuRegistry<Pmu>,
    param0: usize,
    base: usize,
    mask: usize,
    stop_flags: usize,
    param4: u64,
    r: SbiRet,
    reg1: PmuRegistry<Pmu>,
)
    requires
        reg0.installed(),
        mask != 0,
        reg0.provider()->Some_0@ == fresh_bank(reg0.provider()->Some_0@.len()),
        names_only_existing(reg0.provider()->Some_0@.len() as int, base, mask),
        !has_reserved_bits(stop_flags),
        dispatch_post(reg0, FUNCTION_PMU_COUNTER_STOP, param0, base, mask, stop_flags, param4, r, reg1),
    ensures
        r == SbiRet::err_spec(SBI_ERR_ALREADY_STOPPED),
{
    lemma_registry_stop_never_started(reg0, base, mask, stop_flags, r, reg1);
}

} // verus!
