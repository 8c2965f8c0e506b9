//! Memory controller: limits, usage accounting, OOM control, pressure.
use vstd::prelude::*;
use super::{CgroupError, CgroupHierarchy, CgroupView, HierarchyView, get_cgroup, group_of_pid, hierarchy_wf, key_pos, lemma_wf_same_links, res_bytes, psi_text, push_psi};
use crate::text::{bytes_equal, dec, parse_unsigned, parse_u64, push_dec, trim, trim_bytes};
use crate::wire::extend_bytes;

verus! {

/// Maximum memory value
pub const MEMORY_MAX: u64 = 0xFFFF_FFFF_FFFF_FFFF;

/// Memory statistics
#[derive(Clone, Copy, Debug)]
pub struct MemoryStats {
    /// Anonymous memory
    pub anon: u64,
    /// File-backed memory
    pub file: u64,
    /// Kernel memory
    pub kernel: u64,
    /// Kernel stack
    pub kernel_stack: u64,
    /// Page tables
    pub pagetables: u64,
    /// Slab reclaimable
    pub slab_reclaimable: u64,
    /// Slab unreclaimable
    pub slab_unreclaimable: u64,
    /// Sockets
    pub sock: u64,
    /// Shmem
    pub shmem: u64,
    /// Active anonymous
    pub active_anon: u64,
    /// Inactive anonymous
    pub inactive_anon: u64,
    /// Active file
    pub active_file: u64,
    /// Inactive file
    pub inactive_file: u64,
    /// Page faults
    pub pgfault: u64,
    /// Major page faults
    pub pgmajfault: u64,
    /// Pages refilled
    pub pgrefill: u64,
    /// Pages scanned
    pub pgscan: u64,
    /// Pages stolen
    pub pgsteal: u64,
    /// Pages activated
    pub pgactivate: u64,
    /// Pages deactivated
    pub pgdeactivate: u64,
    /// Pages lazyfree'd
    pub pglazyfree: u64,
    /// THP fault allocations
    pub thp_fault_alloc: u64,
    /// THP collapse allocations
    pub thp_collapse_alloc: u64,
}

/// The text of the statistics file: one `name value` line per shown counter.
pub open spec fn stats_text(s: MemoryStats) -> Seq<u8> {
    /* "anon " */ seq![97u8, 110u8, 111u8, 110u8, 32u8]
        + dec(s.anon as nat)
        + /* "\nfile " */ seq![10u8, 102u8, 105u8, 108u8, 101u8, 32u8]
        + dec(s.file as nat)
        + /* "\nkernel " */ seq![10u8, 107u8, 101u8, 114u8, 110u8, 101u8, 108u8, 32u8]
        + dec(s.kernel as nat)
        + /* "\nkernel_stack " */ seq![10u8, 107u8, 101u8, 114u8, 110u8, 101u8, 108u8, 95u8, 115u8, 116u8, 97u8, 99u8, 107u8, 32u8]
        + dec(s.kernel_stack as nat)
        + /* "\npagetables " */ seq![10u8, 112u8, 97u8, 103u8, 101u8, 116u8, 97u8, 98u8, 108u8, 101u8, 115u8, 32u8]
        + dec(s.pagetables as nat)
        + /* "\nslab_reclaimable " */ seq![10u8, 115u8, 108u8, 97u8, 98u8, 95u8, 114u8, 101u8, 99u8, 108u8, 97u8, 105u8, 109u8, 97u8, 98u8, 108u8, 101u8, 32u8]
        + dec(s.slab_reclaimable as nat)
        + /* "\nslab_unreclaimable " */ seq![10u8, 115u8, 108u8, 97u8, 98u8, 95u8, 117u8, 110u8, 114u8, 101u8, 99u8, 108u8, 97u8, 105u8, 109u8, 97u8, 98u8, 108u8, 101u8, 32u8]
        + dec(s.slab_unreclaimable as nat)
        + /* "\nsock " */ seq![10u8, 115u8, 111u8, 99u8, 107u8, 32u8]
        + dec(s.sock as nat)
        + /* "\nshmem " */ seq![10u8, 115u8, 104u8, 109u8, 101u8, 109u8, 32u8]
        + dec(s.shmem as nat)
        + /* "\nactive_anon " */ seq![10u8, 97u8, 99u8, 116u8, 105u8, 118u8, 101u8, 95u8, 97u8, 110u8, 111u8, 110u8, 32u8]
        + dec(s.active_anon as nat)
        + /* "\ninactive_anon " */ seq![10u8, 105u8, 110u8, 97u8, 99u8, 116u8, 105u8, 118u8, 101u8, 95u8, 97u8, 110u8, 111u8, 110u8, 32u8]
        + dec(s.inactive_anon as nat)
        + /* "\nactive_file " */ seq![10u8, 97u8, 99u8, 116u8, 105u8, 118u8, 101u8, 95u8, 102u8, 105u8, 108u8, 101u8, 32u8]
        + dec(s.active_file as nat)
        + /* "\ninactive_file " */ seq![10u8, 105u8, 110u8, 97u8, 99u8, 116u8, 105u8, 118u8, 101u8, 95u8, 102u8, 105u8, 108u8, 101u8, 32u8]
        + dec(s.inactive_file as nat)
        + /* "\npgfault " */ seq![10u8, 112u8, 103u8, 102u8, 97u8, 117u8, 108u8, 116u8, 32u8]
        + dec(s.pgfault as nat)
        + /* "\npgmajfault " */ seq![10u8, 112u8, 103u8, 109u8, 97u8, 106u8, 102u8, 97u8, 117u8, 108u8, 116u8, 32u8]
        + dec(s.pgmajfault as nat)
}

impl MemoryStats {
    /// All counters zero
    pub fn new() -> (r: Self)
        ensures
            r == stats_zero(),
    {
        MemoryStats {
            anon: 0,
            file: 0,
            kernel: 0,
            kernel_stack: 0,
            pagetables: 0,
            slab_reclaimable: 0,
            slab_unreclaimable: 0,
            sock: 0,
            shmem: 0,
            active_anon: 0,
            inactive_anon: 0,
            active_file: 0,
            inactive_file: 0,
            pgfault: 0,
            pgmajfault: 0,
            pgrefill: 0,
            pgscan: 0,
            pgsteal: 0,
            pgactivate: 0,
            pgdeactivate: 0,
            pglazyfree: 0,
            thp_fault_alloc: 0,
            thp_collapse_alloc: 0,
        }
    }

    /// The statistics as text
    pub fn format(&self) -> (r: Vec<u8>)
        ensures
            r@ == stats_text(*self),
    {
        let mut out: Vec<u8> = Vec::new();
        extend_bytes(&mut out, /* "anon " */ [97u8, 110u8, 111u8, 110u8, 32u8].as_slice());
        push_dec(&mut out, self.anon);
        extend_bytes(&mut out, /* "\nfile " */ [10u8, 102u8, 105u8, 108u8, 101u8, 32u8].as_slice());
        push_dec(&mut out, self.file);
        extend_bytes(&mut out, /* "\nkernel " */ [10u8, 107u8, 101u8, 114u8, 110u8, 101u8, 108u8, 32u8].as_slice());
        push_dec(&mut out, self.kernel);
        extend_bytes(&mut out, /* "\nkernel_stack " */ [10u8, 107u8, 101u8, 114u8, 110u8, 101u8, 108u8, 95u8, 115u8, 116u8, 97u8, 99u8, 107u8, 32u8].as_slice());
        push_dec(&mut out, self.kernel_stack);
        extend_bytes(&mut out, /* "\npagetables " */ [10u8, 112u8, 97u8, 103u8, 101u8, 116u8, 97u8, 98u8, 108u8, 101u8, 115u8, 32u8].as_slice());
        push_dec(&mut out, self.pagetables);
        extend_bytes(&mut out, /* "\nslab_reclaimable " */ [10u8, 115u8, 108u8, 97u8, 98u8, 95u8, 114u8, 101u8, 99u8, 108u8, 97u8, 105u8, 109u8, 97u8, 98u8, 108u8, 101u8, 32u8].as_slice());
        push_dec(&mut out, self.slab_reclaimable);
        extend_bytes(&mut out, /* "\nslab_unreclaimable " */ [10u8, 115u8, 108u8, 97u8, 98u8, 95u8, 117u8, 110u8, 114u8, 101u8, 99u8, 108u8, 97u8, 105u8, 109u8, 97u8, 98u8, 108u8, 101u8, 32u8].as_slice());
        push_dec(&mut out, self.slab_unreclaimable);
        extend_bytes(&mut out, /* "\nsock " */ [10u8, 115u8, 111u8, 99u8, 107u8, 32u8].as_slice());
        push_dec(&mut out, self.sock);
        extend_bytes(&mut out, /* "\nshmem " */ [10u8, 115u8, 104u8, 109u8, 101u8, 109u8, 32u8].as_slice());
        push_dec(&mut out, self.shmem);
        extend_bytes(&mut out, /* "\nactive_anon " */ [10u8, 97u8, 99u8, 116u8, 105u8, 118u8, 101u8, 95u8, 97u8, 110u8, 111u8, 110u8, 32u8].as_slice());
        push_dec(&mut out, self.active_anon);
        extend_bytes(&mut out, /* "\ninactive_anon " */ [10u8, 105u8, 110u8, 97u8, 99u8, 116u8, 105u8, 118u8, 101u8, 95u8, 97u8, 110u8, 111u8, 110u8, 32u8].as_slice());
        push_dec(&mut out, self.inactive_anon);
        extend_bytes(&mut out, /* "\nactive_file " */ [10u8, 97u8, 99u8, 116u8, 105u8, 118u8, 101u8, 95u8, 102u8, 105u8, 108u8, 101u8, 32u8].as_slice());
        push_dec(&mut out, self.active_file);
        extend_bytes(&mut out, /* "\ninactive_file " */ [10u8, 105u8, 110u8, 97u8, 99u8, 116u8, 105u8, 118u8, 101u8, 95u8, 102u8, 105u8, 108u8, 101u8, 32u8].as_slice());
        push_dec(&mut out, self.inactive_file);
        extend_bytes(&mut out, /* "\npgfault " */ [10u8, 112u8, 103u8, 102u8, 97u8, 117u8, 108u8, 116u8, 32u8].as_slice());
        push_dec(&mut out, self.pgfault);
        extend_bytes(&mut out, /* "\npgmajfault " */ [10u8, 112u8, 103u8, 109u8, 97u8, 106u8, 102u8, 97u8, 117u8, 108u8, 116u8, 32u8].as_slice());
        push_dec(&mut out, self.pgmajfault);
        assert(out@ =~= stats_text(*self));
        out
    }
}

/// Statistics with every counter zero.
pub open spec fn stats_zero() -> MemoryStats {
    MemoryStats {
            anon: 0,
            file: 0,
            kernel: 0,
            kernel_stack: 0,
            pagetables: 0,
            slab_reclaimable: 0,
            slab_unreclaimable: 0,
            sock: 0,
            shmem: 0,
            active_anon: 0,
            inactive_anon: 0,
            active_file: 0,
            inactive_file: 0,
            pgfault: 0,
            pgmajfault: 0,
            pgrefill: 0,
            pgscan: 0,
            pgsteal: 0,
            pgactivate: 0,
            pgdeactivate: 0,
            pglazyfree: 0,
            thp_fault_alloc: 0,
            thp_collapse_alloc: 0,
    }
}

impl Default for MemoryStats {
    fn default() -> (r: Self)
        ensures
            r == stats_zero(),
    {
        Self::new()
    }
}

/// Memory events
#[derive(Clone, Copy, Debug)]
pub struct MemoryEvents {
    /// Times memory.low was exceeded
    pub low: u64,
    /// Times memory.high was exceeded
    pub high: u64,
    /// Times memory.max was hit
    pub max: u64,
    /// OOM kills
    pub oom: u64,
    /// OOM group kills
    pub oom_group_kill: u64,
    /// OOM kills (local)
    pub oom_kill: u64,
}

/// The text of the events file.
pub open spec fn events_text(e: MemoryEvents) -> Seq<u8> {
    /* "low " */ seq![108u8, 111u8, 119u8, 32u8]
        + dec(e.low as nat)
        + /* "\nhigh " */ seq![10u8, 104u8, 105u8, 103u8, 104u8, 32u8]
        + dec(e.high as nat)
        + /* "\nmax " */ seq![10u8, 109u8, 97u8, 120u8, 32u8]
        + dec(e.max as nat)
        + /* "\noom " */ seq![10u8, 111u8, 111u8, 109u8, 32u8]
        + dec(e.oom as nat)
        + /* "\noom_kill " */ seq![10u8, 111u8, 111u8, 109u8, 95u8, 107u8, 105u8, 108u8, 108u8, 32u8]
        + dec(e.oom_kill as nat)
        + /* "\noom_group_kill " */ seq![10u8, 111u8, 111u8, 109u8, 95u8, 103u8, 114u8, 111u8, 117u8, 112u8, 95u8, 107u8, 105u8, 108u8, 108u8, 32u8]
        + dec(e.oom_group_kill as nat)
}

/// Events with every counter zero.
pub open spec fn events_zero() -> MemoryEvents {
    MemoryEvents {
            low: 0,
            high: 0,
            max: 0,
            oom: 0,
            oom_group_kill: 0,
            oom_kill: 0,
    }
}

impl MemoryEvents {
    /// All counters zero
    pub fn new() -> (r: Self)
        ensures
            r == events_zero(),
    {
        MemoryEvents {
            low: 0,
            high: 0,
            max: 0,
            oom: 0,
            oom_group_kill: 0,
            oom_kill: 0,
        }
    }

    /// The events as text
    pub fn format(&self) -> (r: Vec<u8>)
        ensures
            r@ == events_text(*self),
    {
        let mut out: Vec<u8> = Vec::new();
        extend_bytes(&mut out, /* "low " */ [108u8, 111u8, 119u8, 32u8].as_slice());
        push_dec(&mut out, self.low);
        extend_bytes(&mut out, /* "\nhigh " */ [10u8, 104u8, 105u8, 103u8, 104u8, 32u8].as_slice());
        push_dec(&mut out, self.high);
        extend_bytes(&mut out, /* "\nmax " */ [10u8, 109u8, 97u8, 120u8, 32u8].as_slice());
        push_dec(&mut out, self.max);
        extend_bytes(&mut out, /* "\noom " */ [10u8, 111u8, 111u8, 109u8, 32u8].as_slice());
        push_dec(&mut out, self.oom);
        extend_bytes(&mut out, /* "\noom_kill " */ [10u8, 111u8, 111u8, 109u8, 95u8, 107u8, 105u8, 108u8, 108u8, 32u8].as_slice());
        push_dec(&mut out, self.oom_kill);
        extend_bytes(&mut out, /* "\noom_group_kill " */ [10u8, 111u8, 111u8, 109u8, 95u8, 103u8, 114u8, 111u8, 117u8, 112u8, 95u8, 107u8, 105u8, 108u8, 108u8, 32u8].as_slice());
        push_dec(&mut out, self.oom_group_kill);
        assert(out@ =~= events_text(*self));
        out
    }
}

impl Default for MemoryEvents {
    fn default() -> (r: Self)
        ensures
            r == events_zero(),
    {
        Self::new()
    }
}

/// Memory pressure level
#[derive(Clone, Copy, Debug, PartialEq, Eq, Structural)]
pub enum MemoryPressure {
    Low,
    Medium,
    High,
    Critical,
}

/// Memory controller state
#[derive(Clone, Copy, Debug)]
pub struct MemoryController {
    /// Current memory usage (bytes)
    pub current: u64,
    /// Memory minimum (protection)
    pub min: u64,
    /// Memory low (soft protection)
    pub low: u64,
    /// Memory high (throttle point)
    pub high: u64,
    /// Memory max (hard limit)
    pub max: u64,
    /// Swap current usage
    pub swap_current: u64,
    /// Swap high (throttle)
    pub swap_high: u64,
    /// Swap max (hard limit)
    pub swap_max: u64,
    /// OOM group flag
    pub oom_group: bool,
    /// Statistics
    pub stats: MemoryStats,
    /// Events
    pub events: MemoryEvents,
}

/// A fresh memory controller: nothing used, no limits.
pub open spec fn memory_new() -> MemoryController {
    MemoryController {
        current: 0,
        min: 0,
        low: 0,
        high: MEMORY_MAX,
        max: MEMORY_MAX,
        swap_current: 0,
        swap_high: MEMORY_MAX,
        swap_max: MEMORY_MAX,
        oom_group: false,
        stats: stats_zero(),
        events: events_zero(),
    }
}

/// The controller after charging `bytes`, and the outcome: past the hard
/// limit the charge is refused and counted as a `max` event; otherwise
/// usage and anonymous memory grow, and passing the throttle point counts
/// a `high` event.
pub open spec fn charge_outcome(c: MemoryController, bytes: u64) -> (MemoryController, Result<(), CgroupError>) {
    if c.current + bytes > c.max {
        (MemoryController { events: MemoryEvents { max: c.events.max.wrapping_add(1), ..c.events }, ..c },
         Err(CgroupError::ResourceLimitExceeded))
    } else {
        (MemoryController {
            current: (c.current + bytes) as u64,
            stats: MemoryStats { anon: c.stats.anon.wrapping_add(bytes), ..c.stats },
            events: if c.current + bytes > c.high {
                MemoryEvents { high: c.events.high.wrapping_add(1), ..c.events }
            } else {
                c.events
            },
            ..c
        }, Ok(()))
    }
}

/// The pressure level at this usage.
pub open spec fn pressure_of(c: MemoryController) -> MemoryPressure {
    if c.current >= c.max {
        MemoryPressure::Critical
    } else if c.current >= c.high {
        MemoryPressure::High
    } else if c.current >= c.high / 2 {
        MemoryPressure::Medium
    } else {
        MemoryPressure::Low
    }
}

impl MemoryController {
    /// Create new memory controller
    pub fn new() -> (r: Self)
        ensures
            r == memory_new(),
    {
        MemoryController {
            current: 0,
            min: 0,
            low: 0,
            high: MEMORY_MAX,
            max: MEMORY_MAX,
            swap_current: 0,
            swap_high: MEMORY_MAX,
            swap_max: MEMORY_MAX,
            oom_group: false,
            stats: MemoryStats::new(),
            events: MemoryEvents::new(),
        }
    }

    /// Charge memory: refused (and counted) past the hard limit, counted
    /// past the throttle point
    pub fn charge(&mut self, bytes: u64) -> (r: Result<(), CgroupError>)
        ensures
            (*final(self), r) == charge_outcome(*old(self), bytes),
    {
        let current = self.current;
        let max = self.max;
        if bytes > max || current > max - bytes {
            self.events.max = self.events.max.wrapping_add(1);
            return Err(CgroupError::ResourceLimitExceeded);
        }
        let high = self.high;
        if bytes > high || current > high - bytes {
            self.events.high = self.events.high.wrapping_add(1);
        }
        self.current = current + bytes;
        self.stats.anon = self.stats.anon.wrapping_add(bytes);
        Ok(())
    }

    /// Uncharge memory; usage never goes below zero
    pub fn uncharge(&mut self, bytes: u64)
        ensures
            *final(self) == (MemoryController {
                current: if old(self).current < bytes { 0 } else { (old(self).current - bytes) as u64 },
                ..*old(self)
            }),
    {
        if self.current < bytes {
            self.current = 0;
        } else {
            self.current = self.current - bytes;
        }
    }

    /// Check if memory is below minimum
    pub fn is_protected(&self) -> (r: bool)
        ensures
            r == (self.current <= self.min),
    {
        self.current <= self.min
    }

    /// Check if memory is low
    pub fn is_low(&self) -> (r: bool)
        ensures
            r == (self.current <= self.low),
    {
        self.current <= self.low
    }

    /// Calculate memory pressure
    pub fn pressure(&self) -> (r: MemoryPressure)
        ensures
            r == pressure_of(*self),
    {
        if self.current >= self.max {
            MemoryPressure::Critical
        } else if self.current >= self.high {
            MemoryPressure::High
        } else if self.current >= self.high / 2 {
            MemoryPressure::Medium
        } else {
            MemoryPressure::Low
        }
    }
}

impl Default for MemoryController {
    fn default() -> (r: Self)
        ensures
            r == memory_new(),
    {
        Self::new()
    }
}

/// A limit as text: `max` for no limit, else the number.
pub open spec fn limit_text(value: u64) -> Seq<u8> {
    if value == MEMORY_MAX { /* "max" */ seq![109u8, 97u8, 120u8] } else { dec(value as nat) }
}

/// What reading a memory controller file gives.
pub open spec fn memory_read(c: MemoryController, file: Seq<u8>) -> Result<Seq<u8>, CgroupError> {
    if file == /* "current" */ seq![99u8, 117u8, 114u8, 114u8, 101u8, 110u8, 116u8] {
        Ok(dec(c.current as nat))
    } else if file == /* "min" */ seq![109u8, 105u8, 110u8] {
        Ok(limit_text(c.min))
    } else if file == /* "low" */ seq![108u8, 111u8, 119u8] {
        Ok(limit_text(c.low))
    } else if file == /* "high" */ seq![104u8, 105u8, 103u8, 104u8] {
        Ok(limit_text(c.high))
    } else if file == /* "max" */ seq![109u8, 97u8, 120u8] {
        Ok(limit_text(c.max))
    } else if file == /* "swap.current" */ seq![115u8, 119u8, 97u8, 112u8, 46u8, 99u8, 117u8, 114u8, 114u8, 101u8, 110u8, 116u8] {
        Ok(dec(c.swap_current as nat))
    } else if file == /* "swap.high" */ seq![115u8, 119u8, 97u8, 112u8, 46u8, 104u8, 105u8, 103u8, 104u8] {
        Ok(limit_text(c.swap_high))
    } else if file == /* "swap.max" */ seq![115u8, 119u8, 97u8, 112u8, 46u8, 109u8, 97u8, 120u8] {
        Ok(limit_text(c.swap_max))
    } else if file == /* "oom.group" */ seq![111u8, 111u8, 109u8, 46u8, 103u8, 114u8, 111u8, 117u8, 112u8] {
        Ok(if c.oom_group { /* "1" */ seq![49u8] } else { /* "0" */ seq![48u8] })
    } else if file == /* "stat" */ seq![115u8, 116u8, 97u8, 116u8] {
        Ok(stats_text(c.stats))
    } else if file == /* "events" */ seq![101u8, 118u8, 101u8, 110u8, 116u8, 115u8] {
        Ok(events_text(c.events))
    } else if file == /* "peak" */ seq![112u8, 101u8, 97u8, 107u8] {
        Ok(dec(c.current as nat))
    } else if file == /* "pressure" */ seq![112u8, 114u8, 101u8, 115u8, 115u8, 117u8, 114u8, 101u8] {
        Ok(psi_text())
    } else {
        Err(CgroupError::NotFound)
    }
}

/// The byte multiplier a size suffix stands for, if `b` is one.
pub open spec fn suffix_multiplier(b: u8) -> Option<u64> {
    if b == 75 || b == 107 { Some(1024u64) }
    else if b == 77 || b == 109 { Some(1048576u64) }
    else if b == 71 || b == 103 { Some(1073741824u64) }
    else if b == 84 || b == 116 { Some(1099511627776u64) }
    else { None }
}

/// The limit a value spells: `max`, or a number with an optional K, M, G
/// or T suffix (either case) multiplying it by a power of 1024. A product
/// past the largest `u64` is refused.
pub open spec fn parse_limit_spec(s0: Seq<u8>) -> Result<u64, CgroupError> {
    if s0 == /* "max" */ seq![109u8, 97u8, 120u8] {
        Ok(MEMORY_MAX)
    } else {
        let s = trim(s0);
        let (num, mult) = if s.len() > 0 && suffix_multiplier(s.last()) is Some {
            (s.drop_last(), suffix_multiplier(s.last())->Some_0)
        } else {
            (s, 1u64)
        };
        match parse_unsigned(num, u64::MAX as nat) {
            Some(n) => if n * mult > u64::MAX { Err(CgroupError::InvalidPath) } else { Ok((n * mult) as u64) },
            None => Err(CgroupError::InvalidPath),
        }
    }
}

/// The controller after writing `value` to a memory controller file, or why not.
pub open spec fn memory_write(c: MemoryController, file: Seq<u8>, value: Seq<u8>) -> Result<MemoryController, CgroupError> {
    let v = trim(value);
    if file == /* "min" */ seq![109u8, 105u8, 110u8] {
        match parse_limit_spec(v) {
            Ok(n) => Ok(MemoryController { min: n, ..c }),
            Err(e) => Err(e),
        }
    } else if file == /* "low" */ seq![108u8, 111u8, 119u8] {
        match parse_limit_spec(v) {
            Ok(n) => Ok(MemoryController { low: n, ..c }),
            Err(e) => Err(e),
        }
    } else if file == /* "high" */ seq![104u8, 105u8, 103u8, 104u8] {
        match parse_limit_spec(v) {
            Ok(n) => Ok(MemoryController { high: n, ..c }),
            Err(e) => Err(e),
        }
    } else if file == /* "max" */ seq![109u8, 97u8, 120u8] {
        match parse_limit_spec(v) {
            Ok(n) => Ok(MemoryController { max: n, ..c }),
            Err(e) => Err(e),
        }
    } else if file == /* "swap.high" */ seq![115u8, 119u8, 97u8, 112u8, 46u8, 104u8, 105u8, 103u8, 104u8] {
        match parse_limit_spec(v) {
            Ok(n) => Ok(MemoryController { swap_high: n, ..c }),
            Err(e) => Err(e),
        }
    } else if file == /* "swap.max" */ seq![115u8, 119u8, 97u8, 112u8, 46u8, 109u8, 97u8, 120u8] {
        match parse_limit_spec(v) {
            Ok(n) => Ok(MemoryController { swap_max: n, ..c }),
            Err(e) => Err(e),
        }
    } else if file == /* "oom.group" */ seq![111u8, 111u8, 109u8, 46u8, 103u8, 114u8, 111u8, 117u8, 112u8] {
        Ok(MemoryController { oom_group: v == /* "1" */ seq![49u8], ..c })
    } else {
        Err(CgroupError::NotFound)
    }
}

/// Append a limit as text
fn push_limit(out: &mut Vec<u8>, value: u64)
    ensures
        final(out)@ == old(out)@ + limit_text(value),
{
    if value == MEMORY_MAX {
        extend_bytes(out, /* "max" */ [109u8, 97u8, 120u8].as_slice());
    } else {
        push_dec(out, value);
    }
}

/// Format a limit value
fn format_limit(value: u64) -> (r: Vec<u8>)
    ensures
        r@ == limit_text(value),
{
    let mut out: Vec<u8> = Vec::new();
    push_limit(&mut out, value);
    assert(out@ =~= limit_text(value));
    out
}

/// Parse a limit value (supports "max", bytes, K, M, G, T suffixes)
fn parse_limit(s0: &[u8]) -> (r: Result<u64, CgroupError>)
    ensures
        r == parse_limit_spec(s0@),
{
    if bytes_equal(s0, /* "max" */ [109u8, 97u8, 120u8].as_slice()) {
        return Ok(MEMORY_MAX);
    }
    let s = trim_bytes(s0);
    let n = s.len();
    let mut mult: u64 = 1;
    let mut end = n;
    if n > 0 {
        let last = s[n - 1];
        if last == 75 || last == 107 {
            mult = 1024;
            end = n - 1;
        } else if last == 77 || last == 109 {
            mult = 1048576;
            end = n - 1;
        } else if last == 71 || last == 103 {
            mult = 1073741824;
            end = n - 1;
        } else if last == 84 || last == 116 {
            mult = 1099511627776;
            end = n - 1;
        }
    }
    let num = crate::wire::copy_range(s.as_slice(), 0, end);
    assert(end < n ==> num@ =~= s@.drop_last());
    assert(end == n ==> num@ =~= s@);
    match parse_u64(num.as_slice()) {
        Some(v) => {
            if mult > 1 && v > u64::MAX / mult {
                proof {
                    assert(v * mult > u64::MAX) by (nonlinear_arith)
                        requires
                            mult > 1,
                            v > u64::MAX / mult,
                    ;
                }
                Err(CgroupError::InvalidPath)
            } else {
                proof {
                    assert(v * mult <= u64::MAX) by (nonlinear_arith)
                        requires
                            mult >= 1,
                            mult == 1 || v <= u64::MAX / mult,
                    ;
                }
                Ok(v * mult)
            }
        },
        None => Err(CgroupError::InvalidPath),
    }
}

/// Read a memory controller file
pub fn read_file(controller: &MemoryController, file: &[u8]) -> (r: Result<Vec<u8>, CgroupError>)
    ensures
        res_bytes(r) == memory_read(*controller, file@),
{
    let mut out: Vec<u8> = Vec::new();
    if bytes_equal(file, /* "current" */ [99u8, 117u8, 114u8, 114u8, 101u8, 110u8, 116u8].as_slice()) {
        push_dec(&mut out, controller.current);
    } else if bytes_equal(file, /* "min" */ [109u8, 105u8, 110u8].as_slice()) {
        push_limit(&mut out, controller.min);
    } else if bytes_equal(file, /* "low" */ [108u8, 111u8, 119u8].as_slice()) {
        push_limit(&mut out, controller.low);
    } else if bytes_equal(file, /* "high" */ [104u8, 105u8, 103u8, 104u8].as_slice()) {
        push_limit(&mut out, controller.high);
    } else if bytes_equal(file, /* "max" */ [109u8, 97u8, 120u8].as_slice()) {
        push_limit(&mut out, controller.max);
    } else if bytes_equal(file, /* "swap.current" */ [115u8, 119u8, 97u8, 112u8, 46u8, 99u8, 117u8, 114u8, 114u8, 101u8, 110u8, 116u8].as_slice()) {
        push_dec(&mut out, controller.swap_current);
    } else if bytes_equal(file, /* "swap.high" */ [115u8, 119u8, 97u8, 112u8, 46u8, 104u8, 105u8, 103u8, 104u8].as_slice()) {
        push_limit(&mut out, controller.swap_high);
    } else if bytes_equal(file, /* "swap.max" */ [115u8, 119u8, 97u8, 112u8, 46u8, 109u8, 97u8, 120u8].as_slice()) {
        push_limit(&mut out, controller.swap_max);
    } else if bytes_equal(file, /* "oom.group" */ [111u8, 111u8, 109u8, 46u8, 103u8, 114u8, 111u8, 117u8, 112u8].as_slice()) {
        if controller.oom_group { out.push(49); } else { out.push(48); }
    } else if bytes_equal(file, /* "stat" */ [115u8, 116u8, 97u8, 116u8].as_slice()) {
        let t = controller.stats.format();
        extend_bytes(&mut out, t.as_slice());
    } else if bytes_equal(file, /* "events" */ [101u8, 118u8, 101u8, 110u8, 116u8, 115u8].as_slice()) {
        let t = controller.events.format();
        extend_bytes(&mut out, t.as_slice());
    } else if bytes_equal(file, /* "peak" */ [112u8, 101u8, 97u8, 107u8].as_slice()) {
        push_dec(&mut out, controller.current);
    } else if bytes_equal(file, /* "pressure" */ [112u8, 114u8, 101u8, 115u8, 115u8, 117u8, 114u8, 101u8].as_slice()) {
        push_psi(&mut out);
    } else {
        return Err(CgroupError::NotFound);
    }
    assert(res_bytes(Ok::<Vec<u8>, CgroupError>(out)) =~= memory_read(*controller, file@));
    Ok(out)
}

/// Write a memory controller file
pub fn write_file(controller: &mut MemoryController, file: &[u8], value: &[u8]) -> (r: Result<(), CgroupError>)
    ensures
        match memory_write(*old(controller), file@, value@) {
            Ok(c) => r is Ok && *final(controller) == c,
            Err(e) => r == Err::<(), CgroupError>(e) && *final(controller) == *old(controller),
        },
{
    let value = trim_bytes(value);
    if bytes_equal(file, /* "min" */ [109u8, 105u8, 110u8].as_slice()) {
        let bytes = match parse_limit(value.as_slice()) {
            Ok(b) => b,
            Err(e) => return Err(e),
        };
        controller.min = bytes;
        Ok(())
    } else if bytes_equal(file, /* "low" */ [108u8, 111u8, 119u8].as_slice()) {
        let bytes = match parse_limit(value.as_slice()) {
            Ok(b) => b,
            Err(e) => return Err(e),
        };
        controller.low = bytes;
        Ok(())
    } else if bytes_equal(file, /* "high" */ [104u8, 105u8, 103u8, 104u8].as_slice()) {
        let bytes = match parse_limit(value.as_slice()) {
            Ok(b) => b,
            Err(e) => return Err(e),
        };
        controller.high = bytes;
        Ok(())
    } else if bytes_equal(file, /* "max" */ [109u8, 97u8, 120u8].as_slice()) {
        let bytes = match parse_limit(value.as_slice()) {
            Ok(b) => b,
            Err(e) => return Err(e),
        };
        controller.max = bytes;
        Ok(())
    } else if bytes_equal(file, /* "swap.high" */ [115u8, 119u8, 97u8, 112u8, 46u8, 104u8, 105u8, 103u8, 104u8].as_slice()) {
        let bytes = match parse_limit(value.as_slice()) {
            Ok(b) => b,
            Err(e) => return Err(e),
        };
        controller.swap_high = bytes;
        Ok(())
    } else if bytes_equal(file, /* "swap.max" */ [115u8, 119u8, 97u8, 112u8, 46u8, 109u8, 97u8, 120u8].as_slice()) {
        let bytes = match parse_limit(value.as_slice()) {
            Ok(b) => b,
            Err(e) => return Err(e),
        };
        controller.swap_max = bytes;
        Ok(())
    } else if bytes_equal(file, /* "oom.group" */ [111u8, 111u8, 109u8, 46u8, 103u8, 114u8, 111u8, 117u8, 112u8].as_slice()) {
        let one = /* "1" */ [49u8];
        assert(one@ =~= seq![49u8]);
        controller.oom_group = bytes_equal(value.as_slice(), one.as_slice());
        Ok(())
    } else {
        Err(CgroupError::NotFound)
    }
}

/// Apply memory limits to a process (nothing to set up yet)
pub fn apply_to_process(pid: u32, controller: &MemoryController) -> (r: Result<(), CgroupError>)
    ensures
        r is Ok,
{
    Ok(())
}


/// The hierarchy with the memory controller of group `i` replaced.
pub open spec fn with_memory(h: HierarchyView, i: int, m: MemoryController) -> HierarchyView {
    HierarchyView { groups: h.groups.update(i, (h.groups[i].0, CgroupView { memory: m, ..h.groups[i].1 })), ..h }
}

/// Replace the memory controller of group `i`.
fn set_memory(h: &mut CgroupHierarchy, i: usize, m: MemoryController)
    requires
        i < old(h)@.groups.len(),
    ensures
        final(h)@ == with_memory(old(h)@, i as int, m),
        hierarchy_wf(old(h)@) ==> hierarchy_wf(final(h)@),
{
    let ghost s = h@.groups;
    let (k, mut g) = h.groups.remove(i);
    assert(s[i as int] == (k@, g@));
    g.memory = m;
    h.groups.insert(i, (k, g));
    assert(h@.groups =~= with_memory(old(h)@, i as int, m).groups);
    proof {
        if hierarchy_wf(old(h)@) {
            lemma_wf_same_links(s, h@.groups);
        }
    }
}

/// Check memory allocation for a process: charged to its group, if that
/// group exists
pub fn check_allocation(h: &mut CgroupHierarchy, pid: u32, bytes: u64) -> (r: Result<(), CgroupError>)
    ensures
        ({
            let i = group_of_pid(old(h)@, pid);
            if i < old(h)@.groups.len() {
                let (m, res) = charge_outcome(old(h)@.groups[i].1.memory, bytes);
                final(h)@ == with_memory(old(h)@, i, m) && r == res
            } else {
                final(h)@ == old(h)@ && r is Ok
            }
        }),
        hierarchy_wf(old(h)@) ==> hierarchy_wf(final(h)@),
{
    match get_cgroup(h, pid) {
        Some(path) => {
            let i = h.find(path.as_slice());
            if i < h.groups.len() {
                assert(h@.groups[i as int].1 == h.groups@[i as int].1@);
                let mut m = h.groups[i].1.memory;
                let r = m.charge(bytes);
                set_memory(h, i, m);
                return r;
            }
            Ok(())
        },
        None => Ok(()),
    }
}

/// Track memory release: uncharged from the process's group
pub fn track_free(h: &mut CgroupHierarchy, pid: u32, bytes: u64)
    ensures
        ({
            let i = group_of_pid(old(h)@, pid);
            if i < old(h)@.groups.len() {
                let m = old(h)@.groups[i].1.memory;
                final(h)@ == with_memory(old(h)@, i, MemoryController {
                    current: if m.current < bytes { 0 } else { (m.current - bytes) as u64 },
                    ..m
                })
            } else {
                final(h)@ == old(h)@
            }
        }),
        hierarchy_wf(old(h)@) ==> hierarchy_wf(final(h)@),
{
    match get_cgroup(h, pid) {
        Some(path) => {
            let i = h.find(path.as_slice());
            if i < h.groups.len() {
                assert(h@.groups[i as int].1 == h.groups@[i as int].1@);
                let mut m = h.groups[i].1.memory;
                m.uncharge(bytes);
                set_memory(h, i, m);
            }
        },
        None => {},
    }
}

/// Trigger OOM killer for a cgroup: the victim is its first process, and
/// the kill is counted
pub fn oom_kill(h: &mut CgroupHierarchy, path: &[u8]) -> (r: Result<u32, CgroupError>)
    ensures
        ({
            let i = key_pos(old(h)@.groups, path@);
            if i < old(h)@.groups.len() && old(h)@.groups[i].1.procs.len() > 0 {
                let m = old(h)@.groups[i].1.memory;
                r == Ok::<u32, CgroupError>(old(h)@.groups[i].1.procs[0])
                    && final(h)@ == with_memory(old(h)@, i, MemoryController {
                        events: MemoryEvents { oom_kill: m.events.oom_kill.wrapping_add(1), ..m.events },
                        ..m
                    })
            } else {
                r == Err::<u32, CgroupError>(CgroupError::NotFound) && final(h)@ == old(h)@
            }
        }),
        hierarchy_wf(old(h)@) ==> hierarchy_wf(final(h)@),
{
    let i = h.find(path);
    if i >= h.groups.len() {
        return Err(CgroupError::NotFound);
    }
    assert(h@.groups[i as int].1 == h.groups@[i as int].1@);
    if h.groups[i].1.procs.len() > 0 {
        let pid = h.groups[i].1.procs[0];
        let mut m = h.groups[i].1.memory;
        m.events.oom_kill = m.events.oom_kill.wrapping_add(1);
        set_memory(h, i, m);
        return Ok(pid);
    }
    Err(CgroupError::NotFound)
}

} // verus!
