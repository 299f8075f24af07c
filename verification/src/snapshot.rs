//! One point-in-time capture of the host's metrics, in plain values.
//!
//! Loads are whole numbers of thousandths of a percent, so that `25_000`
//! stands for 25 %. All sizes and counters are bytes.

use vstd::prelude::*;

verus! {

/// A load of 100 %, in thousandths of a percent.
pub const FULL_LOAD: u32 = 100_000;

/// One processor core.
#[derive(Clone, Debug, PartialEq, Eq)]
pub struct Cpu {
    /// Brand or model of the processor.
    pub brand: String,
    /// Load of the core, in thousandths of a percent.
    pub usage: u32,
}

/// One mounted disk.
#[derive(Clone, Debug, PartialEq, Eq)]
pub struct Disk {
    /// Path at which the disk is mounted.
    pub mount: String,
    /// Size of the disk in bytes.
    pub total: u64,
    /// Bytes that are still free.
    pub available: u64,
}

/// One network interface, with its counters since the start of counting.
#[derive(Clone, Debug, PartialEq, Eq)]
pub struct Interface {
    pub name: String,
    /// Bytes received so far.
    pub received: u64,
    /// Bytes sent so far.
    pub transmitted: u64,
}

/// One running process.
#[derive(Clone, Debug, PartialEq, Eq)]
pub struct Process {
    pub pid: u32,
    pub name: String,
    /// Processor load of the process, in thousandths of a percent. It exceeds
    /// `FULL_LOAD` where the process keeps more than one core busy.
    pub cpu: u32,
    /// Resident memory in bytes.
    pub memory: u64,
}

/// Everything that one frame of the dashboard shows.
#[derive(Clone, Debug, PartialEq, Eq)]
pub struct Snapshot {
    /// Name of the operating system, where it is known.
    pub os_name: Option<String>,
    /// Version of the kernel, where it is known.
    pub kernel_version: Option<String>,
    /// Name of the host, where it is known.
    pub host_name: Option<String>,
    /// Seconds since the host was started.
    pub uptime: u64,
    pub cpus: Vec<Cpu>,
    pub total_memory: u64,
    pub used_memory: u64,
    pub total_swap: u64,
    pub used_swap: u64,
    pub disks: Vec<Disk>,
    pub interfaces: Vec<Interface>,
    pub processes: Vec<Process>,
}

impl Disk {
    /// A disk can be shown if it has a size and no more free space than that.
    pub open spec fn valid(&self) -> bool {
        0 < self.total && self.available <= self.total
    }

    /// Bytes in use.
    pub open spec fn used(&self) -> nat {
        (self.total - self.available) as nat
    }

    /// Whether the disk can be shown.
    pub fn is_valid(&self) -> (ok: bool)
        ensures
            ok == self.valid(),
    {
        0 < self.total && self.available <= self.total
    }
}

impl Interface {
    /// An interface is active once it has received or sent anything.
    pub open spec fn active(&self) -> bool {
        self.received > 0 || self.transmitted > 0
    }

    /// Whether the interface has received or sent anything.
    pub fn is_active(&self) -> (yes: bool)
        ensures
            yes == self.active(),
    {
        self.received > 0 || self.transmitted > 0
    }
}

/// Whether every disk of `disks` can be shown.
pub open spec fn disks_valid(disks: Seq<Disk>) -> bool {
    forall|i: int| 0 <= i < disks.len() ==> (#[trigger] disks[i]).valid()
}

/// Whether every disk of `disks` can be shown.
pub fn check_disks(disks: &Vec<Disk>) -> (ok: bool)
    ensures
        ok == disks_valid(disks@),
{
    let mut i: usize = 0;
    while i < disks.len()
        invariant
            i <= disks.len(),
            forall|j: int| 0 <= j < i ==> (#[trigger] disks@[j]).valid(),
        decreases disks.len() - i,
    {
        if !disks[i].is_valid() {
            return false;
        }
        i += 1;
    }
    true
}

impl Snapshot {
    /// A snapshot can be shown if there is at least one core, memory of some
    /// size, and every disk can be shown. The means and ratios of a frame are
    /// defined on such a snapshot and on no other.
    pub open spec fn valid(&self) -> bool {
        &&& self.cpus@.len() > 0
        &&& self.total_memory > 0
        &&& disks_valid(self.disks@)
    }

    /// Whether the snapshot can be shown.
    pub fn is_valid(&self) -> (ok: bool)
        ensures
            ok == self.valid(),
    {
        self.cpus.len() > 0 && self.total_memory > 0 && check_disks(&self.disks)
    }
}

} // verus!
