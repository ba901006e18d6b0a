//! The registry as harts share it: one spin lock around it, taken for exactly
//! one dispatched call.
use vstd::prelude::*;

use crate::ecall::{dispatch_post, handle_ecall_pmu, is_pmu_function};
use crate::pmu::{Pmu, PmuRegistry};
use crate::sbiret::{SbiRet, SBI_ERR_NOT_SUPPORTED};

verus! {

#[verifier::external_type_specification]
#[verifier::external_body]
pub struct ExSpinRelax(spin::relax::Spin);

#[verifier::external_type_specification]
#[verifier::external_body]
#[verifier::reject_recursive_types(T)]
#[verifier::reject_recursive_types(R)]
pub struct ExSpinMutex<T: ?Sized, R>(spin::mutex::Mutex<T, R>);

#[verifier::external_type_specification]
#[verifier::external_body]
#[verifier::reject_recursive_types(T)]
pub struct ExSpinMutexGuard<'a, T: 'a + ?Sized>(spin::mutex::MutexGuard<'a, T>);

/// Relies on spin::Mutex::new: an unlocked lock that owns `value`.
#[verifier::external_body]
fn new_lock<T>(value: T) -> spin::Mutex<T> {
    spin::Mutex::new(value)
}

/// Relies on spin::Mutex::lock: spins until the lock is free and takes it;
/// the guard releases it when dropped.
#[verifier::external_body]
fn acquire<T>(lock: &spin::Mutex<T>) -> spin::MutexGuard<'_, T> {
    lock.lock()
}

/// Relies on the `DerefMut` impl of spin::MutexGuard: the locked value, for as
/// long as the guard is borrowed.
#[verifier::external_body]
fn guarded<'a, 'b, T>(guard: &'a mut spin::MutexGuard<'b, T>) -> &'a mut T {
    &mut **guard
}

/// A registry, filled during boot, that every hart may call through `&self`.
///
/// Calls into the provider are serialised by the lock. Since other harts may
/// call in between, a call is described over the registry as the lock finds
/// it; `PmuRegistry` gives the exact account of a sequence of calls.
#[verifier::reject_recursive_types(P)]
pub struct SharedPmu<P: Pmu> {
    installed: bool,
    lock: spin::Mutex<PmuRegistry<P>>,
}

impl<P: Pmu> SharedPmu<P> {
    /// Whether the registry was handed over with a provider installed.
    pub closed spec fn installed(&self) -> bool {
        self.installed
    }

    /// Shares `registry`, as it stands at the end of boot.
    pub fn new(registry: PmuRegistry<P>) -> (r: Self)
        ensures
            r.installed() == registry.installed(),
    {
        let installed = registry.is_installed();
        SharedPmu { installed, lock: new_lock(registry) }
    }

    /// Whether a provider is installed; takes no lock.
    pub fn is_installed(&self) -> (r: bool)
        ensures
            r == self.installed(),
    {
        self.installed
    }

    /// Handles one call, as `handle_ecall_pmu` does, under the lock.
    pub fn handle_ecall(
        &self,
        function: usize,
        param0: usize,
        param1: usize,
        param2: usize,
        param3: usize,
        param4: u64,
    ) -> (r: SbiRet)
        ensures
            r.wf(),
            !is_pmu_function(function) ==> r == SbiRet::err_spec(SBI_ERR_NOT_SUPPORTED),
            !self.installed() ==> r == SbiRet::err_spec(SBI_ERR_NOT_SUPPORTED),
            self.installed() ==> exists|before: PmuRegistry<P>, after: PmuRegistry<P>|
                #[trigger] dispatch_post(before, function, param0, param1, param2, param3, param4, r, after),
    {
        if !self.installed {
            return SbiRet::not_supported();
        }
        let mut guard = acquire(&self.lock);
        let registry = guarded(&mut guard);
        let ghost before = *registry;
        let r = handle_ecall_pmu(registry, function, param0, param1, param2, param3, param4);
        let ghost after = *registry;
        assert(dispatch_post(before, function, param0, param1, param2, param3, param4, r, after));
        r
    }
}

} // verus!
