//! The two-word value that every supervisor call returns.
use vstd::prelude::*;

verus! {

/// The call completed as requested.
pub const SBI_SUCCESS: isize = 0;

/// Unspecified failure inside the provider.
pub const SBI_ERR_FAILED: isize = -1;

/// Extension or function not implemented, or no provider installed.
pub const SBI_ERR_NOT_SUPPORTED: isize = -2;

/// An argument is out of its valid range.
pub const SBI_ERR_INVALID_PARAM: isize = -3;

/// The requested resource is already available.
pub const SBI_ERR_ALREADY_AVAILABLE: isize = -6;

/// Some of the named counters are already running.
pub const SBI_ERR_ALREADY_STARTED: isize = -7;

/// Some of the named counters are already stopped.
pub const SBI_ERR_ALREADY_STOPPED: isize = -8;

/// Whether `e` is one of the standard return codes.
pub open spec fn is_sbi_code(e: isize) -> bool {
    e == SBI_SUCCESS || e == SBI_ERR_FAILED || e == SBI_ERR_NOT_SUPPORTED
        || e == SBI_ERR_INVALID_PARAM || e == SBI_ERR_ALREADY_AVAILABLE
        || e == SBI_ERR_ALREADY_STARTED || e == SBI_ERR_ALREADY_STOPPED
}

/// Error code and result value, as written back into a hart's two return registers.
#[derive(Clone, Copy, Debug, PartialEq, Eq, Structural)]
pub struct SbiRet {
    /// `SBI_SUCCESS`, or one of the negative error codes.
    pub error: isize,
    /// The result of a successful call; zero for an error.
    pub value: isize,
}

impl SbiRet {
    /// The error code is one of the standard codes.
    pub open spec fn wf(self) -> bool {
        is_sbi_code(self.error)
    }

    /// Whether this value reports success.
    pub open spec fn is_success(self) -> bool {
        self.error == SBI_SUCCESS
    }

    /// A failed call with the given error code.
    pub open spec fn err_spec(code: isize) -> SbiRet {
        SbiRet { error: code, value: 0 }
    }

    /// Success, carrying `value`.
    pub fn success(value: isize) -> (r: SbiRet)
        ensures
            r == (SbiRet { error: SBI_SUCCESS, value }),
    {
        SbiRet { error: SBI_SUCCESS, value }
    }

    /// The canonical answer for an unimplemented function or a missing provider.
    pub fn not_supported() -> (r: SbiRet)
        ensures
            r == SbiRet::err_spec(SBI_ERR_NOT_SUPPORTED),
    {
        SbiRet { error: SBI_ERR_NOT_SUPPORTED, value: 0 }
    }

    /// Unspecified failure.
    pub fn failed() -> (r: SbiRet)
        ensures
            r == SbiRet::err_spec(SBI_ERR_FAILED),
    {
        SbiRet { error: SBI_ERR_FAILED, value: 0 }
    }

    /// An argument is out of range.
    pub fn invalid_param() -> (r: SbiRet)
        ensures
            r == SbiRet::err_spec(SBI_ERR_INVALID_PARAM),
    {
        SbiRet { error: SBI_ERR_INVALID_PARAM, value: 0 }
    }

    /// The requested resource is already available.
    pub fn already_available() -> (r: SbiRet)
        ensures
            r == SbiRet::err_spec(SBI_ERR_ALREADY_AVAILABLE),
    {
        SbiRet { error: SBI_ERR_ALREADY_AVAILABLE, value: 0 }
    }

    /// Some named counter is already running.
    pub fn already_started() -> (r: SbiRet)
        ensures
            r == SbiRet::err_spec(SBI_ERR_ALREADY_STARTED),
    {
        SbiRet { error: SBI_ERR_ALREADY_STARTED, value: 0 }
    }

    /// Some named counter is already stopped.
    pub fn already_stopped() -> (r: SbiRet)
        ensures
            r == SbiRet::err_spec(SBI_ERR_ALREADY_STOPPED),
    {
        SbiRet { error: SBI_ERR_ALREADY_STOPPED, value: 0 }
    }

    /// Whether this value reports success.
    pub fn is_ok(&self) -> (r: bool)
        ensures
            r == self.is_success(),
    {
        self.error == SBI_SUCCESS
    }
}

} // verus!
