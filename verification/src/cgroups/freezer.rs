//! Freezer controller: freeze and thaw every process of a group.
use vstd::prelude::*;
use super::{Cgroup, CgroupError, CgroupHierarchy, CgroupView, HierarchyView, get_cgroup, group_of_pid, hierarchy_wf, key_pos, lemma_wf_same_links, res_bytes};
use crate::text::{bytes_equal, trim, trim_bytes};
use crate::wire::extend_bytes;

verus! {

/// Freezer controller state
#[derive(Clone, Copy, Debug)]
pub struct FreezerController {
    /// Requested frozen state
    pub requested: bool,
    /// Actual frozen state (all processes frozen)
    pub frozen: bool,
    /// Self-frozen flag (for debugging)
    pub self_freezing: bool,
    /// Number of frozen processes
    pub frozen_count: u32,
    /// Number of processes in cgroup
    pub total_count: u32,
}

/// A thawed controller with nothing requested.
pub open spec fn freezer_initial() -> FreezerController {
    FreezerController { requested: false, frozen: false, self_freezing: false, frozen_count: 0, total_count: 0 }
}

/// The name of the freezer state: frozen, freezing (requested only) or thawed.
pub open spec fn state_text(c: FreezerController) -> Seq<u8> {
    if c.frozen {
        /* "FROZEN" */ seq![70u8, 82u8, 79u8, 90u8, 69u8, 78u8]
    } else if c.requested {
        /* "FREEZING" */ seq![70u8, 82u8, 69u8, 69u8, 90u8, 73u8, 78u8, 71u8]
    } else {
        /* "THAWED" */ seq![84u8, 72u8, 65u8, 87u8, 69u8, 68u8]
    }
}

impl FreezerController {
    /// Create new freezer controller
    pub fn new() -> (r: Self)
        ensures
            r == freezer_initial(),
    {
        FreezerController { requested: false, frozen: false, self_freezing: false, frozen_count: 0, total_count: 0 }
    }

    /// Check if frozen
    pub fn is_frozen(&self) -> (r: bool)
        ensures
            r == self.frozen,
    {
        self.frozen
    }

    /// Check if freezing was requested and is not done yet
    pub fn is_freezing(&self) -> (r: bool)
        ensures
            r == (self.requested && !self.frozen),
    {
        self.requested && !self.frozen
    }

    /// Get freezer state string
    pub fn state(&self) -> (r: &'static str)
        ensures
            r@ == (if self.frozen { "FROZEN"@ } else if self.requested { "FREEZING"@ } else { "THAWED"@ }),
    {
        if self.frozen {
            "FROZEN"
        } else if self.requested {
            "FREEZING"
        } else {
            "THAWED"
        }
    }
}

impl Default for FreezerController {
    fn default() -> (r: Self)
        ensures
            r == freezer_initial(),
    {
        Self::new()
    }
}

/// What reading a freezer controller file gives.
pub open spec fn freezer_read(c: FreezerController, file: Seq<u8>) -> Result<Seq<u8>, CgroupError> {
    if file == /* "state" */ seq![115u8, 116u8, 97u8, 116u8, 101u8] {
        Ok(state_text(c))
    } else if file == /* "self_freezing" */ seq![115u8, 101u8, 108u8, 102u8, 95u8, 102u8, 114u8, 101u8, 101u8, 122u8, 105u8, 110u8, 103u8] {
        Ok(if c.self_freezing { /* "1" */ seq![49u8] } else { /* "0" */ seq![48u8] })
    } else {
        Err(CgroupError::NotFound)
    }
}

/// The controller after writing `value` to a freezer controller file, or
/// why not: `FROZEN` or `1` requests freezing, `THAWED` or `0` thaws.
pub open spec fn freezer_write(c: FreezerController, file: Seq<u8>, value: Seq<u8>) -> Result<FreezerController, CgroupError> {
    let v = trim(value);
    if file == /* "state" */ seq![115u8, 116u8, 97u8, 116u8, 101u8] {
        if v == /* "FROZEN" */ seq![70u8, 82u8, 79u8, 90u8, 69u8, 78u8] || v == /* "1" */ seq![49u8] {
            Ok(FreezerController { requested: true, ..c })
        } else if v == /* "THAWED" */ seq![84u8, 72u8, 65u8, 87u8, 69u8, 68u8] || v == /* "0" */ seq![48u8] {
            Ok(FreezerController { requested: false, frozen: false, ..c })
        } else {
            Err(CgroupError::InvalidPath)
        }
    } else {
        Err(CgroupError::NotFound)
    }
}

/// Read a freezer controller file
pub fn read_file(controller: &FreezerController, file: &[u8]) -> (r: Result<Vec<u8>, CgroupError>)
    ensures
        res_bytes(r) == freezer_read(*controller, file@),
{
    let mut out: Vec<u8> = Vec::new();
    if bytes_equal(file, /* "state" */ [115u8, 116u8, 97u8, 116u8, 101u8].as_slice()) {
        if controller.frozen {
            extend_bytes(&mut out, /* "FROZEN" */ [70u8, 82u8, 79u8, 90u8, 69u8, 78u8].as_slice());
        } else if controller.requested {
            extend_bytes(&mut out, /* "FREEZING" */ [70u8, 82u8, 69u8, 69u8, 90u8, 73u8, 78u8, 71u8].as_slice());
        } else {
            extend_bytes(&mut out, /* "THAWED" */ [84u8, 72u8, 65u8, 87u8, 69u8, 68u8].as_slice());
        }
    } else if bytes_equal(file, /* "self_freezing" */ [115u8, 101u8, 108u8, 102u8, 95u8, 102u8, 114u8, 101u8, 101u8, 122u8, 105u8, 110u8, 103u8].as_slice()) {
        out.push(if controller.self_freezing { 49u8 } else { 48u8 });
    } else {
        return Err(CgroupError::NotFound);
    }
    assert(res_bytes(Ok::<Vec<u8>, CgroupError>(out)) =~= freezer_read(*controller, file@));
    Ok(out)
}

/// Write a freezer controller file
pub fn write_file(controller: &mut FreezerController, file: &[u8], value: &[u8]) -> (r: Result<(), CgroupError>)
    ensures
        match freezer_write(*old(controller), file@, value@) {
            Ok(c) => r is Ok && *final(controller) == c,
            Err(e) => r == Err::<(), CgroupError>(e) && *final(controller) == *old(controller),
        },
{
    let value = trim_bytes(value);
    let one = [49u8];
    let zero = [48u8];
    assert(one@ =~= /* "1" */ seq![49u8]);
    assert(zero@ =~= /* "0" */ seq![48u8]);
    if bytes_equal(file, /* "state" */ [115u8, 116u8, 97u8, 116u8, 101u8].as_slice()) {
        if bytes_equal(value.as_slice(), /* "FROZEN" */ [70u8, 82u8, 79u8, 90u8, 69u8, 78u8].as_slice()) || bytes_equal(value.as_slice(), one.as_slice()) {
            controller.requested = true;
        } else if bytes_equal(value.as_slice(), /* "THAWED" */ [84u8, 72u8, 65u8, 87u8, 69u8, 68u8].as_slice()) || bytes_equal(value.as_slice(), zero.as_slice()) {
            controller.requested = false;
            controller.frozen = false;
        } else {
            return Err(CgroupError::InvalidPath);
        }
        Ok(())
    } else {
        Err(CgroupError::NotFound)
    }
}

/// Freeze a single process (the task freezer stops it)
fn freeze_process(pid: u32) -> (r: Result<(), CgroupError>)
    ensures
        r is Ok,
{
    Ok(())
}

/// Thaw a single process (the task freezer resumes it)
fn thaw_process(pid: u32) -> (r: Result<(), CgroupError>)
    ensures
        r is Ok,
{
    Ok(())
}

/// Apply freezer state to a process
pub fn apply_to_process(pid: u32, controller: &FreezerController) -> (r: Result<(), CgroupError>)
    ensures
        r is Ok,
{
    if controller.requested {
        match freeze_process(pid) {
            Ok(()) => {},
            Err(e) => return Err(e),
        }
    }
    Ok(())
}


/// The freezer after freezing a group of `n` processes: all counted and frozen.
pub open spec fn frozen_freezer(f: FreezerController, n: nat) -> FreezerController {
    FreezerController { total_count: n as u32, frozen_count: n as u32, frozen: true, ..f }
}

/// The freezer after thawing: nothing frozen, nothing requested.
pub open spec fn thawed_freezer(f: FreezerController) -> FreezerController {
    FreezerController { frozen_count: 0, frozen: false, requested: false, ..f }
}

/// Freeze all processes in a cgroup
pub fn freeze_cgroup(cgroup: &mut Cgroup) -> (r: Result<(), CgroupError>)
    ensures
        r is Ok,
        final(cgroup)@ == (CgroupView { freezer: frozen_freezer(old(cgroup)@.freezer, old(cgroup)@.procs.len()), ..old(cgroup)@ }),
{
    let mut i: usize = 0;
    while i < cgroup.procs.len()
        invariant
            i <= cgroup.procs@.len(),
        decreases cgroup.procs@.len() - i,
    {
        match freeze_process(cgroup.procs[i]) {
            Ok(()) => {},
            Err(e) => return Err(e),
        }
        i = i + 1;
    }
    let total = cgroup.procs.len() as u32;
    cgroup.freezer.total_count = total;
    cgroup.freezer.frozen_count = total;
    cgroup.freezer.frozen = true;
    Ok(())
}

/// Thaw all processes in a cgroup
pub fn thaw_cgroup(cgroup: &mut Cgroup) -> (r: Result<(), CgroupError>)
    ensures
        r is Ok,
        final(cgroup)@ == (CgroupView { freezer: thawed_freezer(old(cgroup)@.freezer), ..old(cgroup)@ }),
{
    let mut i: usize = 0;
    while i < cgroup.procs.len()
        invariant
            i <= cgroup.procs@.len(),
        decreases cgroup.procs@.len() - i,
    {
        match thaw_process(cgroup.procs[i]) {
            Ok(()) => {},
            Err(e) => return Err(e),
        }
        i = i + 1;
    }
    cgroup.freezer.frozen_count = 0;
    cgroup.freezer.frozen = false;
    cgroup.freezer.requested = false;
    Ok(())
}

/// Check if a process should be frozen (for scheduler): its group has
/// freezing requested
pub fn should_freeze(h: &CgroupHierarchy, pid: u32) -> (r: bool)
    ensures
        r == (group_of_pid(h@, pid) < h@.groups.len() && h@.groups[group_of_pid(h@, pid)].1.freezer.requested),
{
    match get_cgroup(h, pid) {
        Some(path) => {
            let i = h.find(path.as_slice());
            if i < h.groups.len() {
                assert(h@.groups[i as int].1 == h.groups@[i as int].1@);
                return h.groups[i].1.freezer.requested;
            }
            false
        },
        None => false,
    }
}

/// The freezer after one more of its processes froze: all frozen once the
/// count reaches the total.
pub open spec fn one_more_frozen(f: FreezerController) -> FreezerController {
    FreezerController {
        frozen_count: (f.frozen_count + 1) as u32,
        frozen: if f.frozen_count + 1 >= f.total_count { true } else { f.frozen },
        ..f
    }
}

/// The freezer after one of its processes thawed or exited: the count goes
/// down, and never below zero.
pub open spec fn one_less_frozen(f: FreezerController) -> FreezerController {
    FreezerController { frozen_count: if f.frozen_count <= 1 { 0 } else { (f.frozen_count - 1) as u32 }, ..f }
}

/// The hierarchy with the freezer of group `i` replaced.
pub open spec fn with_freezer(h: HierarchyView, i: int, f: FreezerController) -> HierarchyView {
    HierarchyView { groups: h.groups.update(i, (h.groups[i].0, CgroupView { freezer: f, ..h.groups[i].1 })), ..h }
}

/// Replace the freezer of group `i`.
fn set_freezer(h: &mut CgroupHierarchy, i: usize, f: FreezerController)
    requires
        i < old(h)@.groups.len(),
    ensures
        final(h)@ == with_freezer(old(h)@, i as int, f),
        hierarchy_wf(old(h)@) ==> hierarchy_wf(final(h)@),
{
    let ghost s = h@.groups;
    let (k, mut g) = h.groups.remove(i);
    assert(s[i as int] == (k@, g@));
    g.freezer = f;
    h.groups.insert(i, (k, g));
    assert(h@.groups =~= with_freezer(old(h)@, i as int, f).groups);
    proof {
        if hierarchy_wf(old(h)@) {
            lemma_wf_same_links(s, h@.groups);
        }
    }
}

/// Called when process enters frozen state
pub fn process_frozen(h: &mut CgroupHierarchy, pid: u32)
    requires
        group_of_pid(old(h)@, pid) < old(h)@.groups.len() ==> old(h)@.groups[group_of_pid(old(h)@, pid)].1.freezer.frozen_count < u32::MAX,
    ensures
        final(h)@ == (if group_of_pid(old(h)@, pid) < old(h)@.groups.len() {
            with_freezer(old(h)@, group_of_pid(old(h)@, pid), one_more_frozen(old(h)@.groups[group_of_pid(old(h)@, pid)].1.freezer))
        } else {
            old(h)@
        }),
        hierarchy_wf(old(h)@) ==> hierarchy_wf(final(h)@),
{
    match get_cgroup(h, pid) {
        Some(path) => {
            let i = h.find(path.as_slice());
            if i < h.groups.len() {
                assert(h@.groups[i as int].1 == h.groups@[i as int].1@);
                let mut f = h.groups[i].1.freezer;
                let count = f.frozen_count;
                f.frozen_count = count + 1;
                if count + 1 >= f.total_count {
                    f.frozen = true;
                }
                set_freezer(h, i, f);
            }
        },
        None => {},
    }
}

/// Called when process exits frozen state (thawed or exits)
pub fn process_thawed(h: &mut CgroupHierarchy, pid: u32)
    ensures
        final(h)@ == (if group_of_pid(old(h)@, pid) < old(h)@.groups.len() {
            with_freezer(old(h)@, group_of_pid(old(h)@, pid), one_less_frozen(old(h)@.groups[group_of_pid(old(h)@, pid)].1.freezer))
        } else {
            old(h)@
        }),
        hierarchy_wf(old(h)@) ==> hierarchy_wf(final(h)@),
{
    match get_cgroup(h, pid) {
        Some(path) => {
            let i = h.find(path.as_slice());
            if i < h.groups.len() {
                assert(h@.groups[i as int].1 == h.groups@[i as int].1@);
                let mut f = h.groups[i].1.freezer;
                let prev = f.frozen_count;
                f.frozen_count = prev.wrapping_sub(1);
                if prev <= 1 {
                    f.frozen_count = 0;
                }
                set_freezer(h, i, f);
            }
        },
        None => {},
    }
}

} // verus!
