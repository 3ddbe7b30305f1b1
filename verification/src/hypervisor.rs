//! What a hypervisor backend can do.
use vstd::prelude::*;

verus! {

/// The virtualisation extension a backend drives.
#[derive(Debug, Clone, Copy, PartialEq, Eq, Structural)]
pub enum BackendArch {
    NoArch,
    IntelVmx,
    AmdSvm,
    Arm64El2,
}

/// How a backend observes guests.
#[derive(Debug, Clone, Copy, PartialEq, Eq, Structural)]
pub enum BackendMode {
    HostSideSensor,
    KvmVmi,
    TrapEnforcement,
    Type1,
}

/// What a backend can do.
#[derive(Debug, Clone, PartialEq, Eq, Structural)]
pub struct BackendCapabilities {
    pub arch: BackendArch,
    pub mode: BackendMode,
    pub memory_read: bool,
    pub vcpu_registers: bool,
    pub gva_translation: bool,
    pub permission_traps: bool,
    pub syscall_path_checks: bool,
    pub grouped_pmu_sampling: bool,
}

/// A hypervisor backend.
pub trait HypervisorBackend {
    fn name(&self) -> &'static str;

    fn capabilities(&self) -> BackendCapabilities;

    fn health(&self) -> Result<(), String>;
}

/// The sensor without a hypervisor backend: it watches from the host side
/// and claims no capability.
pub struct NoHypervisorBackend;

impl HypervisorBackend for NoHypervisorBackend {
    fn name(&self) -> (r: &'static str)
        ensures
            r@ == "host-side-sensor"@,
    {
        "host-side-sensor"
    }

    fn capabilities(&self) -> (r: BackendCapabilities)
        ensures
            r == (BackendCapabilities {
                arch: BackendArch::NoArch,
                mode: BackendMode::HostSideSensor,
                memory_read: false,
                vcpu_registers: false,
                gva_translation: false,
                permission_traps: false,
                syscall_path_checks: false,
                grouped_pmu_sampling: false,
            }),
    {
        BackendCapabilities {
            arch: BackendArch::NoArch,
            mode: BackendMode::HostSideSensor,
            memory_read: false,
            vcpu_registers: false,
            gva_translation: false,
            permission_traps: false,
            syscall_path_checks: false,
            grouped_pmu_sampling: false,
        }
    }

    fn health(&self) -> (r: Result<(), String>)
        ensures
            r is Ok,
    {
        Ok(())
    }
}

} // verus!
