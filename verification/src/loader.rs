//! What the sandbox is told about the process that it starts.

use std::collections::BTreeMap;
use vstd::prelude::*;

verus! {

/// A set of capabilities, one bit for each.
#[derive(Default, Debug, Eq, PartialEq, Clone, Copy)]
pub struct CapSet(pub u64);

/// The capability sets of a task.
#[derive(Default, Debug, Eq, PartialEq, Clone, Copy)]
pub struct TaskCaps {
    pub PermittedCaps: CapSet,
    pub InheritableCaps: CapSet,
    pub EffectiveCaps: CapSet,
    pub BoundingCaps: CapSet,
    pub AmbientCaps: CapSet,
}

/// The resources that can be limited.
#[derive(Debug, Eq, PartialEq, Clone, Copy, PartialOrd, Ord)]
pub enum LimitType {
    CPU,
    FileSize,
    Data,
    Stack,
    Core,
    Rss,
    ProcessCount,
    NumberOfFiles,
    MemoryLocked,
    AS,
    Locks,
    SignalsPending,
    MessageQueueBytes,
    Nice,
    RealTimePriority,
    Rttime,
}

/// A soft and a hard limit.
#[derive(Default, Debug, Eq, PartialEq, Clone, Copy)]
pub struct Limit {
    pub Cur: u64,
    pub Max: u64,
}

/// The limits of a process.
#[derive(Default, Debug, Eq, PartialEq, Clone)]
pub struct LimitSetInternal {
    pub data: BTreeMap<LimitType, Limit>,
}

/// The process that the sandbox starts.
#[derive(Default, Debug, Eq, PartialEq, Clone)]
pub struct Process {
    pub UID: u32,
    pub GID: u32,
    pub AdditionalGids: Vec<u32>,
    pub Terminal: bool,
    pub Args: Vec<String>,
    pub Envs: Vec<String>,
    pub Cwd: String,
    pub Caps: TaskCaps,
    pub NoNewPrivileges: bool,
    pub NumCpu: u32,
    pub HostName: String,
    pub limitSet: LimitSetInternal,
    pub ID: String,
    /// The root directory.
    pub Root: String,
    pub Stdiofds: [i32; 3],
    pub ExecId: Option<String>,
}

} // verus!
