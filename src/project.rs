use vstd::prelude::*;

verus! {

/// A container build target of a project.
#[derive(Debug, Clone, Copy, PartialEq, Eq, Structural)]
pub enum Docker {
    /// The x86_64 architecture.
    X86_64,
    /// The 64-bit ARM architecture.
    Aarch64,
}

impl Docker {
    /// The compiler target triple of the architecture.
    pub fn target(self) -> (r: &'static str)
        ensures
            self == Docker::X86_64 ==> r@ == "x86_64-unknown-linux-gnu"@,
            self == Docker::Aarch64 ==> r@ == "aarch64-unknown-linux-gnu"@,
    {
        match self {
            Docker::X86_64 => "x86_64-unknown-linux-gnu",
            Docker::Aarch64 => "aarch64-unknown-linux-gnu",
        }
    }

    /// The build image of the architecture.
    pub fn docker_image_name(self) -> (r: &'static str)
        ensures
            self == Docker::X86_64 ==> r@ == "bmauto/roboplc-x86_64:latest"@,
            self == Docker::Aarch64 ==> r@ == "bmauto/roboplc-aarch64:latest"@,
    {
        match self {
            Docker::X86_64 => "bmauto/roboplc-x86_64:latest",
            Docker::Aarch64 => "bmauto/roboplc-aarch64:latest",
        }
    }
}

/// The locking policy a project is built with.
#[derive(Debug, Clone, Copy, PartialEq, Eq, Structural)]
pub enum LockingPolicy {
    /// The default locking policy.
    Default,
    /// Real-time locking.
    Rt,
    /// Real-time safe locking.
    RtSafe,
}

impl LockingPolicy {
    /// The name of the build feature that selects the policy.
    pub fn as_feature_str(self) -> (r: &'static str)
        ensures
            self == LockingPolicy::Default ==> r@ == "locking-default"@,
            self == LockingPolicy::Rt ==> r@ == "locking-rt"@,
            self == LockingPolicy::RtSafe ==> r@ == "locking-rt-safe"@,
    {
        match self {
            LockingPolicy::Default => "locking-default",
            LockingPolicy::Rt => "locking-rt",
            LockingPolicy::RtSafe => "locking-rt-safe",
        }
    }
}

/// The mode a remote controller runs in.
#[derive(Debug, Clone, Copy, PartialEq, Eq, Structural)]
pub enum Mode {
    Run,
    Config,
    Unknown,
}

impl Mode {
    /// The name of the mode as it is displayed.
    pub fn as_str(self) -> (r: &'static str)
        ensures
            self == Mode::Run ==> r@ == "RUN"@,
            self == Mode::Config ==> r@ == "CONFIG"@,
            self == Mode::Unknown ==> r@ == "UNKNOWN"@,
    {
        match self {
            Mode::Run => "RUN",
            Mode::Config => "CONFIG",
            Mode::Unknown => "UNKNOWN",
        }
    }
}

} // verus!
