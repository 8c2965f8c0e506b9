//! PIDs controller: process count limits, against fork bombs.
use vstd::prelude::*;
use super::{CgroupError, res_bytes};
use crate::text::{bytes_equal, dec, parse_unsigned, parse_u64, push_dec, trim, trim_bytes};
use crate::wire::extend_bytes;

verus! {

/// Max PIDs value (unlimited)
pub const PIDS_MAX: u64 = 0xFFFF_FFFF_FFFF_FFFF;

/// PIDs controller state
#[derive(Clone, Copy, Debug)]
pub struct PidsController {
    /// Current number of processes
    pub current: u64,
    /// Maximum number of processes
    pub max: u64,
    /// Peak process count
    pub peak: u64,
    /// Number of times max was hit
    pub events_max: u64,
}

impl PidsController {
    /// Create new PIDs controller
    pub fn new() -> (r: Self)
        ensures
            r == (PidsController { current: 0, max: PIDS_MAX, peak: 0, events_max: 0 }),
    {
        PidsController { current: 0, max: PIDS_MAX, peak: 0, events_max: 0 }
    }

    /// Try to allocate a PID slot; at the limit, count the refusal instead
    pub fn try_charge(&mut self) -> (r: bool)
        ensures
            r == (old(self).current < old(self).max),
            r ==> *final(self) == (PidsController {
                current: (old(self).current + 1) as u64,
                peak: if old(self).current + 1 > old(self).peak { (old(self).current + 1) as u64 } else { old(self).peak },
                ..*old(self)
            }),
            !r ==> *final(self) == (PidsController { events_max: old(self).events_max.wrapping_add(1), ..*old(self) }),
    {
        if self.current >= self.max {
            self.events_max = self.events_max.wrapping_add(1);
            return false;
        }
        self.current = self.current + 1;
        if self.current > self.peak {
            self.peak = self.current;
        }
        true
    }

    /// Release a PID slot
    pub fn uncharge(&mut self)
        ensures
            *final(self) == (PidsController { current: old(self).current.wrapping_sub(1), ..*old(self) }),
    {
        self.current = self.current.wrapping_sub(1);
    }

    /// Check if at limit
    pub fn at_limit(&self) -> (r: bool)
        ensures
            r == (self.current >= self.max),
    {
        self.current >= self.max
    }
}

impl Default for PidsController {
    fn default() -> (r: Self)
        ensures
            r == (PidsController { current: 0, max: PIDS_MAX, peak: 0, events_max: 0 }),
    {
        Self::new()
    }
}

/// What reading a PIDs controller file gives.
pub open spec fn pids_read(c: PidsController, file: Seq<u8>) -> Result<Seq<u8>, CgroupError> {
    if file == /* "current" */ seq![99u8, 117u8, 114u8, 114u8, 101u8, 110u8, 116u8] {
        Ok(dec(c.current as nat))
    } else if file == /* "max" */ seq![109u8, 97u8, 120u8] {
        Ok(if c.max == PIDS_MAX { /* "max" */ seq![109u8, 97u8, 120u8] } else { dec(c.max as nat) })
    } else if file == /* "peak" */ seq![112u8, 101u8, 97u8, 107u8] {
        Ok(dec(c.peak as nat))
    } else if file == /* "events" */ seq![101u8, 118u8, 101u8, 110u8, 116u8, 115u8] {
        Ok(/* "max " */ seq![109u8, 97u8, 120u8, 32u8] + dec(c.events_max as nat))
    } else {
        Err(CgroupError::NotFound)
    }
}

/// The controller after writing `value` to a PIDs controller file, or why not.
pub open spec fn pids_write(c: PidsController, file: Seq<u8>, value: Seq<u8>) -> Result<PidsController, CgroupError> {
    let v = trim(value);
    if file == /* "max" */ seq![109u8, 97u8, 120u8] {
        if v == /* "max" */ seq![109u8, 97u8, 120u8] {
            Ok(PidsController { max: PIDS_MAX, ..c })
        } else {
            match parse_unsigned(v, u64::MAX as nat) {
                Some(n) => Ok(PidsController { max: n as u64, ..c }),
                None => Err(CgroupError::InvalidPath),
            }
        }
    } else {
        Err(CgroupError::NotFound)
    }
}

/// Read a PIDs controller file
pub fn read_file(controller: &PidsController, file: &[u8]) -> (r: Result<Vec<u8>, CgroupError>)
    ensures
        res_bytes(r) == pids_read(*controller, file@),
{
    let mut out: Vec<u8> = Vec::new();
    if bytes_equal(file, /* "current" */ [99u8, 117u8, 114u8, 114u8, 101u8, 110u8, 116u8].as_slice()) {
        push_dec(&mut out, controller.current);
    } else if bytes_equal(file, /* "max" */ [109u8, 97u8, 120u8].as_slice()) {
        if controller.max == PIDS_MAX {
            extend_bytes(&mut out, /* "max" */ [109u8, 97u8, 120u8].as_slice());
        } else {
            push_dec(&mut out, controller.max);
        }
    } else if bytes_equal(file, /* "peak" */ [112u8, 101u8, 97u8, 107u8].as_slice()) {
        push_dec(&mut out, controller.peak);
    } else if bytes_equal(file, /* "events" */ [101u8, 118u8, 101u8, 110u8, 116u8, 115u8].as_slice()) {
        extend_bytes(&mut out, /* "max " */ [109u8, 97u8, 120u8, 32u8].as_slice());
        push_dec(&mut out, controller.events_max);
    } else {
        return Err(CgroupError::NotFound);
    }
    assert(res_bytes(Ok::<Vec<u8>, CgroupError>(out)) =~= pids_read(*controller, file@));
    Ok(out)
}

/// Write a PIDs controller file
pub fn write_file(controller: &mut PidsController, file: &[u8], value: &[u8]) -> (r: Result<(), CgroupError>)
    ensures
        match pids_write(*old(controller), file@, value@) {
            Ok(c) => r is Ok && *final(controller) == c,
            Err(e) => r == Err::<(), CgroupError>(e) && *final(controller) == *old(controller),
        },
{
    let value = trim_bytes(value);
    if bytes_equal(file, /* "max" */ [109u8, 97u8, 120u8].as_slice()) {
        let max = if bytes_equal(value.as_slice(), /* "max" */ [109u8, 97u8, 120u8].as_slice()) {
            PIDS_MAX
        } else {
            match parse_u64(value.as_slice()) {
                Some(v) => v,
                None => {
                    return Err(CgroupError::InvalidPath);
                },
            }
        };
        controller.max = max;
        Ok(())
    } else {
        Err(CgroupError::NotFound)
    }
}

/// Apply PIDs limits to a process (nothing to set up yet)
pub fn apply_to_process(pid: u32, controller: &PidsController) -> (r: Result<(), CgroupError>)
    ensures
        r is Ok,
{
    Ok(())
}

/// Check if a fork is allowed
pub fn can_fork(controller: &mut PidsController) -> (r: bool)
    ensures
        r == (old(controller).current < old(controller).max),
        r ==> *final(controller) == (PidsController {
            current: (old(controller).current + 1) as u64,
            peak: if old(controller).current + 1 > old(controller).peak { (old(controller).current + 1) as u64 } else { old(controller).peak },
            ..*old(controller)
        }),
        !r ==> *final(controller) == (PidsController { events_max: old(controller).events_max.wrapping_add(1), ..*old(controller) }),
{
    controller.try_charge()
}

/// Called when a process exits
pub fn process_exit(controller: &mut PidsController)
    ensures
        *final(controller) == (PidsController { current: old(controller).current.wrapping_sub(1), ..*old(controller) }),
{
    controller.uncharge();
}

} // verus!
