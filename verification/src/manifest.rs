//! Package capability settings that gate host-runtime intrinsics.
use vstd::prelude::*;

verus! {

/// A host-runtime capability that a package may be granted.
#[derive(Clone, Copy, Debug, PartialEq, Eq, Structural)]
pub enum CapabilityKind {
    Fs,
    FsWrite,
    Net,
    Process,
    Env,
    Clock,
    Crypto,
    Ffi,
    Async,
}

/// The manifest key of a capability.
pub open spec fn capability_name(kind: CapabilityKind) -> Seq<char> {
    match kind {
        CapabilityKind::Fs => "fs"@,
        CapabilityKind::FsWrite => "fs_write"@,
        CapabilityKind::Net => "net"@,
        CapabilityKind::Process => "process"@,
        CapabilityKind::Env => "env"@,
        CapabilityKind::Clock => "clock"@,
        CapabilityKind::Crypto => "crypto"@,
        CapabilityKind::Ffi => "ffi"@,
        CapabilityKind::Async => "async"@,
    }
}

impl CapabilityKind {
    /// The manifest key of this capability.
    pub fn name(self) -> (s: &'static str)
        ensures
            s@ == capability_name(self),
    {
        match self {
            CapabilityKind::Fs => "fs",
            CapabilityKind::FsWrite => "fs_write",
            CapabilityKind::Net => "net",
            CapabilityKind::Process => "process",
            CapabilityKind::Env => "env",
            CapabilityKind::Clock => "clock",
            CapabilityKind::Crypto => "crypto",
            CapabilityKind::Ffi => "ffi",
            CapabilityKind::Async => "async",
        }
    }
}

/// The commands that `process_status` may run.
#[derive(Debug)]
pub struct ProcessCommandAllowlist {
    pub commands: Vec<String>,
}

impl ProcessCommandAllowlist {
    /// An allowlist built without checking that it is non-empty.
    pub fn new_unchecked_for_test(commands: Vec<String>) -> (r: ProcessCommandAllowlist)
        ensures
            r.commands@ == commands@,
    {
        ProcessCommandAllowlist { commands }
    }
}

/// How `process_status` commands are restricted.
#[derive(Debug)]
pub enum ProcessCommandPolicy {
    Unrestricted,
    Allowlist(ProcessCommandAllowlist),
}

impl ProcessCommandPolicy {
    /// The allowed commands, when the policy is an allowlist.
    pub fn allowed_commands(&self) -> (r: Option<&Vec<String>>)
        ensures
            match self {
                ProcessCommandPolicy::Unrestricted => r is None,
                ProcessCommandPolicy::Allowlist(list) => r is Some && r->0@ == list.commands@,
            },
    {
        match self {
            ProcessCommandPolicy::Unrestricted => None,
            ProcessCommandPolicy::Allowlist(list) => Some(&list.commands),
        }
    }
}

/// The capabilities a package has been granted.
#[derive(Debug)]
pub struct CapabilityConfig {
    pub fs: bool,
    pub fs_write: bool,
    pub net: bool,
    pub net_hosts: Vec<String>,
    pub net_ports: Vec<u16>,
    pub process: bool,
    pub process_commands: ProcessCommandPolicy,
    pub env: Vec<String>,
    pub env_unrestricted: bool,
    pub clock: bool,
    pub crypto: bool,
    pub ffi: bool,
    pub async_runtime: bool,
}

/// Whether a capability is granted by `config`.
pub open spec fn capability_enabled(config: CapabilityConfig, kind: CapabilityKind) -> bool {
    match kind {
        CapabilityKind::Fs => config.fs,
        CapabilityKind::FsWrite => config.fs_write,
        CapabilityKind::Net => config.net,
        CapabilityKind::Process => config.process,
        CapabilityKind::Env => config.env.len() > 0 || config.env_unrestricted,
        CapabilityKind::Clock => config.clock,
        CapabilityKind::Crypto => config.crypto,
        CapabilityKind::Ffi => config.ffi,
        CapabilityKind::Async => config.async_runtime,
    }
}

impl CapabilityConfig {
    /// Whether `kind` is granted.
    pub fn enabled(&self, kind: CapabilityKind) -> (r: bool)
        ensures
            r == capability_enabled(*self, kind),
    {
        match kind {
            CapabilityKind::Fs => self.fs,
            CapabilityKind::FsWrite => self.fs_write,
            CapabilityKind::Net => self.net,
            CapabilityKind::Process => self.process,
            CapabilityKind::Env => self.env.len() > 0 || self.env_unrestricted,
            CapabilityKind::Clock => self.clock,
            CapabilityKind::Crypto => self.crypto,
            CapabilityKind::Ffi => self.ffi,
            CapabilityKind::Async => self.async_runtime,
        }
    }
}

impl Default for CapabilityConfig {
    /// No capability granted and no allowlist configured.
    fn default() -> (r: CapabilityConfig)
        ensures
            !r.fs && !r.fs_write && !r.net && !r.process && !r.env_unrestricted,
            !r.clock && !r.crypto && !r.ffi && !r.async_runtime,
            r.net_hosts@.len() == 0,
            r.net_ports@.len() == 0,
            r.env@.len() == 0,
            r.process_commands is Unrestricted,
    {
        CapabilityConfig {
            fs: false,
            fs_write: false,
            net: false,
            net_hosts: Vec::new(),
            net_ports: Vec::new(),
            process: false,
            process_commands: ProcessCommandPolicy::Unrestricted,
            env: Vec::new(),
            env_unrestricted: false,
            clock: false,
            crypto: false,
            ffi: false,
            async_runtime: false,
        }
    }
}

} // verus!
