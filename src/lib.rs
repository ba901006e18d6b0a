//! Performance-monitoring extension of the RISC-V Supervisor Binary Interface:
//! the return-code type, the provider interface, the provider registry and the
//! function-ID dispatcher, with a software-counter provider.

pub mod ecall;
pub mod pmu;
pub mod qemu;
pub mod sbiret;
pub mod shared;

pub use ecall::handle_ecall_pmu;
pub use pmu::{init_pmu, Pmu, PmuRegistry};
pub use sbiret::SbiRet;
pub use shared::SharedPmu;
