//! Server configuration: memory limits and the options a controller is
//! started with. All of these are fixed at start and immutable after.

use vstd::prelude::*;

verus! {

/// The unit a memory limit is expressed in.
#[derive(Debug, Clone, Copy, PartialEq, Eq, Structural)]
pub enum MemoryUnit {
    Megabyte,
    Kilobyte,
    Byte,
}

/// The byte multiplier of a unit.
pub open spec fn unit_bytes(unit: MemoryUnit) -> int {
    match unit {
        MemoryUnit::Byte => 1,
        MemoryUnit::Kilobyte => 1024,
        MemoryUnit::Megabyte => 1048576,
    }
}

/// An amount of memory with its unit.
#[derive(Debug, Clone, Copy, PartialEq, Eq, Structural)]
pub struct MemoryLimit {
    pub amount: usize,
    pub unit: MemoryUnit,
}

impl MemoryLimit {
    pub fn new(amount: usize, unit: MemoryUnit) -> (r: MemoryLimit)
        ensures
            r.amount == amount,
            r.unit == unit,
    {
        MemoryLimit { amount, unit }
    }

    pub open spec fn spec_as_bytes(&self) -> int {
        self.amount * unit_bytes(self.unit)
    }

    /// The limit in bytes.
    pub fn as_bytes(&self) -> (r: usize)
        requires
            self.spec_as_bytes() <= usize::MAX,
        ensures
            r == self.spec_as_bytes(),
    {
        let multiplier: usize = match self.unit {
            MemoryUnit::Byte => 1,
            MemoryUnit::Kilobyte => 1024,
            MemoryUnit::Megabyte => 1024 * 1024,
        };
        multiplier * self.amount
    }
}

/// Everything a server is configured with: the listening port, the data
/// directory path, the default namespace, event-retention bounds, and
/// the addresses of cluster peers in textual `host:port` form.
#[derive(Debug, Clone)]
pub struct ServerOptions {
    pub port: u16,
    pub data_dir: String,
    pub default_namespace: String,
    pub max_events: usize,
    pub max_cached_events: usize,
    pub max_cache_memory: MemoryLimit,
    pub cluster_addresses: Option<Vec<String>>,
}

} // verus!
