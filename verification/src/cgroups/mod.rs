//! Control groups (v2): a hierarchy of groups, the processes in them, and
//! the resource controllers of each group.
use vstd::prelude::*;

pub mod cpu;
pub mod devices;
pub mod freezer;
pub mod io;
pub mod memory;
pub mod pids;

use crate::text::{bytes_equal, dec, key_less, parse_unsigned, parse_u32, push_dec, split_words, starts_with, trim, trim_bytes, words, key_lt, last_index, lemma_key_lt_irreflexive, lemma_key_lt_total, lemma_key_lt_transitive, lemma_last_index_bounds, rfind_byte};
use crate::wire::{copy_range, extend_bytes};
use vstd::slice::slice_to_vec;

verus! {

/// Cgroup errors
#[derive(Clone, Copy, Debug, PartialEq, Eq, Structural)]
pub enum CgroupError {
    /// Cgroup not found
    NotFound,
    /// Cgroup already exists
    AlreadyExists,
    /// Invalid path
    InvalidPath,
    /// Not empty (has children or processes)
    NotEmpty,
    /// Controller not available
    ControllerNotAvailable,
    /// Resource limit exceeded
    ResourceLimitExceeded,
    /// Permission denied
    PermissionDenied,
    /// Operation not supported
    NotSupported,
}

impl CgroupError {
    /// The errno value of this error.
    pub fn to_errno(&self) -> (r: i32)
        ensures
            r == match self {
                CgroupError::NotFound => -2i32,
                CgroupError::AlreadyExists => -17i32,
                CgroupError::InvalidPath => -22i32,
                CgroupError::NotEmpty => -39i32,
                CgroupError::ControllerNotAvailable => -95i32,
                CgroupError::ResourceLimitExceeded => -12i32,
                CgroupError::PermissionDenied => -1i32,
                CgroupError::NotSupported => -95i32,
            },
    {
        match self {
            CgroupError::NotFound => -2,
            CgroupError::AlreadyExists => -17,
            CgroupError::InvalidPath => -22,
            CgroupError::NotEmpty => -39,
            CgroupError::ControllerNotAvailable => -95,
            CgroupError::ResourceLimitExceeded => -12,
            CgroupError::PermissionDenied => -1,
            CgroupError::NotSupported => -95,
        }
    }
}

/// The bytes a result holds, if it holds any.
pub open spec fn res_bytes(r: Result<Vec<u8>, CgroupError>) -> Result<Seq<u8>, CgroupError> {
    match r {
        Ok(v) => Ok(v@),
        Err(e) => Err(e),
    }
}

/// The pressure stall text every controller reports (no stalls tracked).
pub open spec fn psi_text() -> Seq<u8> {
    /* "some avg10=0.00 avg60=0.00 avg300=0.00 total=0\nfull avg10=0.00 avg60=0.00 avg300=0.00 total=0" */ seq![115u8, 111u8, 109u8, 101u8, 32u8, 97u8, 118u8, 103u8, 49u8, 48u8, 61u8, 48u8, 46u8, 48u8, 48u8, 32u8, 97u8, 118u8, 103u8, 54u8, 48u8, 61u8, 48u8, 46u8, 48u8, 48u8, 32u8, 97u8, 118u8, 103u8, 51u8, 48u8, 48u8, 61u8, 48u8, 46u8, 48u8, 48u8, 32u8, 116u8, 111u8, 116u8, 97u8, 108u8, 61u8, 48u8, 10u8, 102u8, 117u8, 108u8, 108u8, 32u8, 97u8, 118u8, 103u8, 49u8, 48u8, 61u8, 48u8, 46u8, 48u8, 48u8, 32u8, 97u8, 118u8, 103u8, 54u8, 48u8, 61u8, 48u8, 46u8, 48u8, 48u8, 32u8, 97u8, 118u8, 103u8, 51u8, 48u8, 48u8, 61u8, 48u8, 46u8, 48u8, 48u8, 32u8, 116u8, 111u8, 116u8, 97u8, 108u8, 61u8, 48u8]
}

/// Append the pressure stall text.
pub fn push_psi(out: &mut Vec<u8>)
    ensures
        final(out)@ == old(out)@ + psi_text(),
{
    crate::wire::extend_bytes(out, /* "some avg10=0.00 avg60=0.00 avg300=0.00 total=0\nfull avg10=0.00 avg60=0.00 avg300=0.00 total=0" */ [115u8, 111u8, 109u8, 101u8, 32u8, 97u8, 118u8, 103u8, 49u8, 48u8, 61u8, 48u8, 46u8, 48u8, 48u8, 32u8, 97u8, 118u8, 103u8, 54u8, 48u8, 61u8, 48u8, 46u8, 48u8, 48u8, 32u8, 97u8, 118u8, 103u8, 51u8, 48u8, 48u8, 61u8, 48u8, 46u8, 48u8, 48u8, 32u8, 116u8, 111u8, 116u8, 97u8, 108u8, 61u8, 48u8, 10u8, 102u8, 117u8, 108u8, 108u8, 32u8, 97u8, 118u8, 103u8, 49u8, 48u8, 61u8, 48u8, 46u8, 48u8, 48u8, 32u8, 97u8, 118u8, 103u8, 54u8, 48u8, 61u8, 48u8, 46u8, 48u8, 48u8, 32u8, 97u8, 118u8, 103u8, 51u8, 48u8, 48u8, 61u8, 48u8, 46u8, 48u8, 48u8, 32u8, 116u8, 111u8, 116u8, 97u8, 108u8, 61u8, 48u8].as_slice());
}



/// Controller types
#[derive(Clone, Copy, Debug, PartialEq, Eq, Structural)]
pub enum ControllerType {
    Memory,
    Cpu,
    Io,
    Pids,
    Devices,
    Freezer,
    CpuSet,
    Hugetlb,
    Rdma,
    Misc,
}

/// The name of a controller.
pub open spec fn controller_name(c: ControllerType) -> Seq<u8> {
    match c {
        ControllerType::Memory => /* "memory" */ seq![109u8, 101u8, 109u8, 111u8, 114u8, 121u8],
        ControllerType::Cpu => /* "cpu" */ seq![99u8, 112u8, 117u8],
        ControllerType::Io => /* "io" */ seq![105u8, 111u8],
        ControllerType::Pids => /* "pids" */ seq![112u8, 105u8, 100u8, 115u8],
        ControllerType::Devices => /* "devices" */ seq![100u8, 101u8, 118u8, 105u8, 99u8, 101u8, 115u8],
        ControllerType::Freezer => /* "freezer" */ seq![102u8, 114u8, 101u8, 101u8, 122u8, 101u8, 114u8],
        ControllerType::CpuSet => /* "cpuset" */ seq![99u8, 112u8, 117u8, 115u8, 101u8, 116u8],
        ControllerType::Hugetlb => /* "hugetlb" */ seq![104u8, 117u8, 103u8, 101u8, 116u8, 108u8, 98u8],
        ControllerType::Rdma => /* "rdma" */ seq![114u8, 100u8, 109u8, 97u8],
        ControllerType::Misc => /* "misc" */ seq![109u8, 105u8, 115u8, 99u8],
    }
}

/// The controller a name names.
pub open spec fn controller_of_name(s: Seq<u8>) -> Option<ControllerType> {
    if s == /* "memory" */ seq![109u8, 101u8, 109u8, 111u8, 114u8, 121u8] {
        Some(ControllerType::Memory)
    } else if s == /* "cpu" */ seq![99u8, 112u8, 117u8] {
        Some(ControllerType::Cpu)
    } else if s == /* "io" */ seq![105u8, 111u8] {
        Some(ControllerType::Io)
    } else if s == /* "pids" */ seq![112u8, 105u8, 100u8, 115u8] {
        Some(ControllerType::Pids)
    } else if s == /* "devices" */ seq![100u8, 101u8, 118u8, 105u8, 99u8, 101u8, 115u8] {
        Some(ControllerType::Devices)
    } else if s == /* "freezer" */ seq![102u8, 114u8, 101u8, 101u8, 122u8, 101u8, 114u8] {
        Some(ControllerType::Freezer)
    } else if s == /* "cpuset" */ seq![99u8, 112u8, 117u8, 115u8, 101u8, 116u8] {
        Some(ControllerType::CpuSet)
    } else if s == /* "hugetlb" */ seq![104u8, 117u8, 103u8, 101u8, 116u8, 108u8, 98u8] {
        Some(ControllerType::Hugetlb)
    } else if s == /* "rdma" */ seq![114u8, 100u8, 109u8, 97u8] {
        Some(ControllerType::Rdma)
    } else if s == /* "misc" */ seq![109u8, 105u8, 115u8, 99u8] {
        Some(ControllerType::Misc)
    } else {
        None
    }
}

impl ControllerType {
    /// The name of this controller.
    pub fn name(&self) -> (r: Vec<u8>)
        ensures
            r@ == controller_name(*self),
    {
        let mut out: Vec<u8> = Vec::new();
        match self {
            ControllerType::Memory => extend_bytes(&mut out, /* "memory" */ [109u8, 101u8, 109u8, 111u8, 114u8, 121u8].as_slice()),
            ControllerType::Cpu => extend_bytes(&mut out, /* "cpu" */ [99u8, 112u8, 117u8].as_slice()),
            ControllerType::Io => extend_bytes(&mut out, /* "io" */ [105u8, 111u8].as_slice()),
            ControllerType::Pids => extend_bytes(&mut out, /* "pids" */ [112u8, 105u8, 100u8, 115u8].as_slice()),
            ControllerType::Devices => extend_bytes(&mut out, /* "devices" */ [100u8, 101u8, 118u8, 105u8, 99u8, 101u8, 115u8].as_slice()),
            ControllerType::Freezer => extend_bytes(&mut out, /* "freezer" */ [102u8, 114u8, 101u8, 101u8, 122u8, 101u8, 114u8].as_slice()),
            ControllerType::CpuSet => extend_bytes(&mut out, /* "cpuset" */ [99u8, 112u8, 117u8, 115u8, 101u8, 116u8].as_slice()),
            ControllerType::Hugetlb => extend_bytes(&mut out, /* "hugetlb" */ [104u8, 117u8, 103u8, 101u8, 116u8, 108u8, 98u8].as_slice()),
            ControllerType::Rdma => extend_bytes(&mut out, /* "rdma" */ [114u8, 100u8, 109u8, 97u8].as_slice()),
            ControllerType::Misc => extend_bytes(&mut out, /* "misc" */ [109u8, 105u8, 115u8, 99u8].as_slice()),
        }
        assert(out@ =~= controller_name(*self));
        out
    }

    /// The controller a name names.
    pub fn from_name(name: &[u8]) -> (r: Option<Self>)
        ensures
            r == controller_of_name(name@),
    {
        if bytes_equal(name, /* "memory" */ [109u8, 101u8, 109u8, 111u8, 114u8, 121u8].as_slice()) {
            Some(ControllerType::Memory)
        } else if bytes_equal(name, /* "cpu" */ [99u8, 112u8, 117u8].as_slice()) {
            Some(ControllerType::Cpu)
        } else if bytes_equal(name, /* "io" */ [105u8, 111u8].as_slice()) {
            Some(ControllerType::Io)
        } else if bytes_equal(name, /* "pids" */ [112u8, 105u8, 100u8, 115u8].as_slice()) {
            Some(ControllerType::Pids)
        } else if bytes_equal(name, /* "devices" */ [100u8, 101u8, 118u8, 105u8, 99u8, 101u8, 115u8].as_slice()) {
            Some(ControllerType::Devices)
        } else if bytes_equal(name, /* "freezer" */ [102u8, 114u8, 101u8, 101u8, 122u8, 101u8, 114u8].as_slice()) {
            Some(ControllerType::Freezer)
        } else if bytes_equal(name, /* "cpuset" */ [99u8, 112u8, 117u8, 115u8, 101u8, 116u8].as_slice()) {
            Some(ControllerType::CpuSet)
        } else if bytes_equal(name, /* "hugetlb" */ [104u8, 117u8, 103u8, 101u8, 116u8, 108u8, 98u8].as_slice()) {
            Some(ControllerType::Hugetlb)
        } else if bytes_equal(name, /* "rdma" */ [114u8, 100u8, 109u8, 97u8].as_slice()) {
            Some(ControllerType::Rdma)
        } else if bytes_equal(name, /* "misc" */ [109u8, 105u8, 115u8, 99u8].as_slice()) {
            Some(ControllerType::Misc)
        } else {
            None
        }
    }
}

/// Every controller's name names it back.
pub proof fn lemma_controller_name_roundtrip(c: ControllerType)
    ensures
        controller_of_name(controller_name(c)) == Some(c),
{
    match c {
        ControllerType::Memory => {
            assert(controller_name(c) =~= /* "memory" */ seq![109u8, 101u8, 109u8, 111u8, 114u8, 121u8]);
        },
        ControllerType::Cpu => {
            assert(controller_name(c) =~= /* "cpu" */ seq![99u8, 112u8, 117u8]);
        },
        ControllerType::Io => {
            assert(controller_name(c) =~= /* "io" */ seq![105u8, 111u8]);
        },
        ControllerType::Pids => {
            assert(controller_name(c) =~= /* "pids" */ seq![112u8, 105u8, 100u8, 115u8]);
        },
        ControllerType::Devices => {
            assert(controller_name(c) =~= /* "devices" */ seq![100u8, 101u8, 118u8, 105u8, 99u8, 101u8, 115u8]);
        },
        ControllerType::Freezer => {
            assert(controller_name(c) =~= /* "freezer" */ seq![102u8, 114u8, 101u8, 101u8, 122u8, 101u8, 114u8]);
        },
        ControllerType::CpuSet => {
            assert(controller_name(c) =~= /* "cpuset" */ seq![99u8, 112u8, 117u8, 115u8, 101u8, 116u8]);
        },
        ControllerType::Hugetlb => {
            assert(controller_name(c) =~= /* "hugetlb" */ seq![104u8, 117u8, 103u8, 101u8, 116u8, 108u8, 98u8]);
        },
        ControllerType::Rdma => {
            assert(controller_name(c) =~= /* "rdma" */ seq![114u8, 100u8, 109u8, 97u8]);
        },
        ControllerType::Misc => {
            assert(controller_name(c) =~= /* "misc" */ seq![109u8, 105u8, 115u8, 99u8]);
        },
    }
}

/// A control group
pub struct Cgroup {
    /// Cgroup ID
    pub id: u64,
    /// Cgroup path
    pub path: Vec<u8>,
    /// Parent cgroup path
    pub parent: Option<Vec<u8>>,
    /// Child cgroups
    pub children: Vec<Vec<u8>>,
    /// Member processes
    pub procs: Vec<u32>,
    /// Enabled controllers
    pub controllers: Vec<ControllerType>,
    /// Memory controller
    pub memory: memory::MemoryController,
    /// CPU controller
    pub cpu: cpu::CpuController,
    /// I/O controller
    pub io: io::IoController,
    /// PIDs controller
    pub pids: pids::PidsController,
    /// Devices controller
    pub devices: devices::DevicesController,
    /// Freezer controller
    pub freezer: freezer::FreezerController,
    /// Frozen state
    pub frozen: bool,
    /// Populated (has processes)
    pub populated: bool,
}

/// What a control group holds.
pub struct CgroupView {
    pub id: u64,
    pub path: Seq<u8>,
    pub parent: Option<Seq<u8>>,
    pub children: Seq<Seq<u8>>,
    pub procs: Seq<u32>,
    pub controllers: Seq<ControllerType>,
    pub memory: memory::MemoryController,
    pub cpu: cpu::CpuController,
    pub io: io::IoControllerView,
    pub pids: pids::PidsController,
    pub rules: Seq<devices::DeviceRule>,
    pub default_allow: bool,
    pub freezer: freezer::FreezerController,
    pub frozen: bool,
    pub populated: bool,
}

/// The byte strings of a list, as sequences.
pub open spec fn texts_view(v: Seq<Vec<u8>>) -> Seq<Seq<u8>> {
    v.map_values(|t: Vec<u8>| t@)
}

/// An optional byte string, as a sequence.
pub open spec fn opt_text_view(o: Option<Vec<u8>>) -> Option<Seq<u8>> {
    match o {
        Some(t) => Some(t@),
        None => None,
    }
}

impl View for Cgroup {
    type V = CgroupView;

    open spec fn view(&self) -> CgroupView {
        CgroupView {
            id: self.id,
            path: self.path@,
            parent: opt_text_view(self.parent),
            children: texts_view(self.children@),
            procs: self.procs@,
            controllers: self.controllers@,
            memory: self.memory,
            cpu: self.cpu,
            io: self.io@,
            pids: self.pids,
            rules: self.devices.rules@,
            default_allow: self.devices.default_allow,
            freezer: self.freezer,
            frozen: self.frozen,
            populated: self.populated,
        }
    }
}

/// The path of a child of `parent` called `name`.
pub open spec fn child_path(parent: Seq<u8>, name: Seq<u8>) -> Seq<u8> {
    if parent == /* "/" */ seq![47u8] {
        /* "/" */ seq![47u8] + name
    } else {
        parent + /* "/" */ seq![47u8] + name
    }
}

/// The controllers the root group starts with.
pub open spec fn root_controllers() -> Seq<ControllerType> {
    seq![ControllerType::Memory, ControllerType::Cpu, ControllerType::Io, ControllerType::Pids, ControllerType::Devices, ControllerType::Freezer]
}

/// A group with fresh controllers, no processes and no children.
pub open spec fn fresh_group(id: u64, path: Seq<u8>, parent: Option<Seq<u8>>, controllers: Seq<ControllerType>) -> CgroupView {
    CgroupView {
        id,
        path,
        parent,
        children: Seq::empty(),
        procs: Seq::empty(),
        controllers,
        memory: memory::memory_new(),
        cpu: cpu::cpu_initial(),
        io: io::io_initial(),
        pids: pids::PidsController { current: 0, max: pids::PIDS_MAX, peak: 0, events_max: 0 },
        rules: Seq::empty(),
        default_allow: true,
        freezer: freezer::freezer_initial(),
        frozen: false,
        populated: false,
    }
}

impl Cgroup {
    /// Create root cgroup
    fn new_root() -> (r: Self)
        ensures
            r@ == fresh_group(0, /* "/" */ seq![47u8], None, root_controllers()),
    {
        let mut path: Vec<u8> = Vec::new();
        path.push(47);
        let controllers = vec![
            ControllerType::Memory,
            ControllerType::Cpu,
            ControllerType::Io,
            ControllerType::Pids,
            ControllerType::Devices,
            ControllerType::Freezer,
        ];
        let r = Cgroup {
            id: 0,
            path,
            parent: None,
            children: Vec::new(),
            procs: Vec::new(),
            controllers,
            memory: memory::MemoryController::new(),
            cpu: cpu::CpuController::new(),
            io: io::IoController::new(),
            pids: pids::PidsController::new(),
            devices: devices::DevicesController::new(),
            freezer: freezer::FreezerController::new(),
            frozen: false,
            populated: false,
        };
        assert(r@.path =~= /* "/" */ seq![47u8]);
        assert(r@.controllers =~= root_controllers());
        assert(r@.children =~= Seq::<Seq<u8>>::empty());
        r
    }

    /// Create child cgroup
    fn new_child(parent_path: &[u8], name: &[u8], id: u64) -> (r: Self)
        ensures
            r@ == fresh_group(id, child_path(parent_path@, name@), Some(parent_path@), Seq::empty()),
    {
        let mut path: Vec<u8> = Vec::new();
        let slash = [47u8];
        assert(slash@ =~= /* "/" */ seq![47u8]);
        if bytes_equal(parent_path, slash.as_slice()) {
            path.push(47);
        } else {
            extend_bytes(&mut path, parent_path);
            path.push(47);
        }
        extend_bytes(&mut path, name);
        let r = Cgroup {
            id,
            path,
            parent: Some(crate::wire::copy_range(parent_path, 0, parent_path.len())),
            children: Vec::new(),
            procs: Vec::new(),
            controllers: Vec::new(),
            memory: memory::MemoryController::new(),
            cpu: cpu::CpuController::new(),
            io: io::IoController::new(),
            pids: pids::PidsController::new(),
            devices: devices::DevicesController::new(),
            freezer: freezer::FreezerController::new(),
            frozen: false,
            populated: false,
        };
        assert(parent_path@.subrange(0, parent_path@.len() as int) =~= parent_path@);
        assert(r@.path =~= child_path(parent_path@, name@));
        assert(r@.children =~= Seq::<Seq<u8>>::empty());
        assert(r@.controllers =~= Seq::<ControllerType>::empty());
        r
    }
}



// -----------------------------------------------------------------------------
// The hierarchy
// -----------------------------------------------------------------------------

/// The unified hierarchy: each group under its path, in path order.
pub struct CgroupHierarchy {
    /// (path, group) entries, sorted by path
    pub groups: Vec<(Vec<u8>, Cgroup)>,
    /// Next cgroup ID to hand out
    pub next_id: u64,
    /// Whether the subsystem has been set up
    pub initialized: bool,
}

/// What a hierarchy holds.
pub struct HierarchyView {
    pub groups: Seq<(Seq<u8>, CgroupView)>,
    pub next_id: u64,
    pub initialized: bool,
}

/// A hierarchy entry, as a path and what its group holds.
pub open spec fn entry_view(e: (Vec<u8>, Cgroup)) -> (Seq<u8>, CgroupView) {
    (e.0@, e.1@)
}

impl View for CgroupHierarchy {
    type V = HierarchyView;

    open spec fn view(&self) -> HierarchyView {
        HierarchyView {
            groups: self.groups@.map_values(|e: (Vec<u8>, Cgroup)| entry_view(e)),
            next_id: self.next_id,
            initialized: self.initialized,
        }
    }
}

/// Index of the first entry at or after `i` stored under `k` (or the end).
pub open spec fn key_pos_from(s: Seq<(Seq<u8>, CgroupView)>, k: Seq<u8>, i: int) -> int
    decreases s.len() - i,
{
    if 0 <= i < s.len() && s[i].0 != k { key_pos_from(s, k, i + 1) } else { i }
}

/// Index of the entry stored under `k`, or the number of entries.
pub open spec fn key_pos(s: Seq<(Seq<u8>, CgroupView)>, k: Seq<u8>) -> int {
    key_pos_from(s, k, 0)
}

proof fn lemma_key_pos_from(s: Seq<(Seq<u8>, CgroupView)>, k: Seq<u8>, i: int)
    requires
        0 <= i <= s.len(),
    ensures
        i <= key_pos_from(s, k, i) <= s.len(),
        key_pos_from(s, k, i) < s.len() ==> s[key_pos_from(s, k, i)].0 == k,
        forall|m: int| i <= m < key_pos_from(s, k, i) ==> #[trigger] s[m].0 != k,
    decreases s.len() - i,
{
    if i < s.len() && s[i].0 != k {
        lemma_key_pos_from(s, k, i + 1);
    }
}

/// Where a key is found: its entry holds it, and no entry before does.
pub proof fn lemma_key_pos(s: Seq<(Seq<u8>, CgroupView)>, k: Seq<u8>)
    ensures
        0 <= key_pos(s, k) <= s.len(),
        key_pos(s, k) < s.len() ==> s[key_pos(s, k)].0 == k,
        forall|m: int| 0 <= m < key_pos(s, k) ==> #[trigger] s[m].0 != k,
{
    lemma_key_pos_from(s, k, 0);
}

/// Whether the entries' paths strictly increase.
pub open spec fn keys_sorted(s: Seq<(Seq<u8>, CgroupView)>) -> bool {
    forall|i: int, j: int| #![trigger s[i], s[j]] 0 <= i < j < s.len() ==> key_lt(s[i].0, s[j].0)
}

/// Whether some entry is stored under `c` and names `p` as its parent.
pub open spec fn has_child_entry(s: Seq<(Seq<u8>, CgroupView)>, c: Seq<u8>, p: Seq<u8>) -> bool {
    exists|m: int| 0 <= m < s.len() && s[m].0 == c && #[trigger] s[m].1.parent == Some(p)
}

/// Whether every child a group lists is stored in the hierarchy and names
/// that group as its parent.
pub open spec fn children_linked(s: Seq<(Seq<u8>, CgroupView)>) -> bool {
    forall|i: int, j: int|
        0 <= i < s.len() && 0 <= j < s[i].1.children.len() ==> has_child_entry(s, #[trigger] s[i].1.children[j], s[i].0)
}

/// Well-formed hierarchy: paths in order, children linked to their parents.
pub open spec fn hierarchy_wf(h: HierarchyView) -> bool {
    keys_sorted(h.groups) && children_linked(h.groups)
}

/// In a sorted hierarchy an entry's path finds that entry.
pub proof fn lemma_key_pos_unique(s: Seq<(Seq<u8>, CgroupView)>, m: int)
    requires
        keys_sorted(s),
        0 <= m < s.len(),
    ensures
        key_pos(s, s[m].0) == m,
{
    lemma_key_pos(s, s[m].0);
    let p = key_pos(s, s[m].0);
    if p < m {
        assert(key_lt(s[p].0, s[m].0));
        lemma_key_lt_irreflexive(s[m].0);
    }
}

/// Whether a process list holds `pid`.
fn contains_pid(procs: &Vec<u32>, pid: u32) -> (r: bool)
    ensures
        r == procs@.contains(pid),
{
    let mut i: usize = 0;
    while i < procs.len()
        invariant
            i <= procs@.len(),
            forall|k: int| 0 <= k < i ==> procs@[k] != pid,
        decreases procs@.len() - i,
    {
        if procs[i] == pid {
            assert(procs@[i as int] == pid);
            return true;
        }
        i = i + 1;
    }
    false
}

/// Whether a controller list holds `c`.
fn contains_controller(cs: &Vec<ControllerType>, c: ControllerType) -> (r: bool)
    ensures
        r == cs@.contains(c),
{
    let mut i: usize = 0;
    while i < cs.len()
        invariant
            i <= cs@.len(),
            forall|k: int| 0 <= k < i ==> cs@[k] != c,
        decreases cs@.len() - i,
    {
        if cs[i] == c {
            assert(cs@[i as int] == c);
            return true;
        }
        i = i + 1;
    }
    false
}

impl CgroupHierarchy {
    /// Index of the group stored under `key`, or the number of groups.
    pub fn find(&self, key: &[u8]) -> (r: usize)
        ensures
            r == key_pos(self@.groups, key@),
            r <= self@.groups.len(),
    {
        proof {
            lemma_key_pos(self@.groups, key@);
        }
        let mut i: usize = 0;
        while i < self.groups.len() && !bytes_equal(self.groups[i].0.as_slice(), key)
            invariant
                i <= self@.groups.len(),
                key_pos(self@.groups, key@) == key_pos_from(self@.groups, key@, i as int),
            decreases self@.groups.len() - i,
        {
            assert(self@.groups[i as int].0 == self.groups@[i as int].0@);
            i = i + 1;
        }
        proof {
            if i < self.groups.len() {
                assert(self@.groups[i as int].0 == self.groups@[i as int].0@);
            }
        }
        i
    }
}

/// Index of the first group holding `pid`, or the number of groups.
pub open spec fn pid_pos_from(s: Seq<(Seq<u8>, CgroupView)>, pid: u32, i: int) -> int
    decreases s.len() - i,
{
    if 0 <= i < s.len() && !s[i].1.procs.contains(pid) { pid_pos_from(s, pid, i + 1) } else { i }
}

/// The path of the first group holding `pid`, or the root's.
pub open spec fn cgroup_path_of(h: HierarchyView, pid: u32) -> Seq<u8> {
    let i = pid_pos_from(h.groups, pid, 0);
    if 0 <= i < h.groups.len() { h.groups[i].0 } else { /* "/" */ seq![47u8] }
}

/// A process that no group holds is in the root group.
pub proof fn lemma_unattached_in_root(h: HierarchyView, pid: u32)
    requires
        forall|m: int| 0 <= m < h.groups.len() ==> !(#[trigger] h.groups[m].1.procs.contains(pid)),
    ensures
        cgroup_path_of(h, pid) == /* "/" */ seq![47u8],
{
    lemma_pid_pos_from(h.groups, pid, 0);
}

/// Index of the group of a process: of the path its lookup gives.
pub open spec fn group_of_pid(h: HierarchyView, pid: u32) -> int {
    key_pos(h.groups, cgroup_path_of(h, pid))
}

proof fn lemma_pid_pos_from(s: Seq<(Seq<u8>, CgroupView)>, pid: u32, i: int)
    requires
        0 <= i <= s.len(),
    ensures
        i <= pid_pos_from(s, pid, i) <= s.len(),
        pid_pos_from(s, pid, i) < s.len() ==> s[pid_pos_from(s, pid, i)].1.procs.contains(pid),
        forall|m: int| i <= m < pid_pos_from(s, pid, i) ==> !(#[trigger] s[m].1.procs.contains(pid)),
    decreases s.len() - i,
{
    if i < s.len() && !s[i].1.procs.contains(pid) {
        lemma_pid_pos_from(s, pid, i + 1);
    }
}

/// A fresh hierarchy holding only the root group.
pub open spec fn hierarchy_initial() -> HierarchyView {
    HierarchyView {
        groups: seq![(/* "/" */ seq![47u8], fresh_group(0, /* "/" */ seq![47u8], None, root_controllers()))],
        next_id: 1,
        initialized: true,
    }
}

/// Initialize cgroups subsystem: the hierarchy with its root group
pub fn init() -> (r: CgroupHierarchy)
    ensures
        r@ == hierarchy_initial(),
        hierarchy_wf(r@),
{
    let root = Cgroup::new_root();
    let mut key: Vec<u8> = Vec::new();
    key.push(47);
    let mut groups: Vec<(Vec<u8>, Cgroup)> = Vec::new();
    groups.push((key, root));
    let r = CgroupHierarchy { groups, next_id: 1, initialized: true };
    assert(r@.groups =~= hierarchy_initial().groups);
    r
}

/// Get cgroup for a process: the path of the first group holding it, or
/// the root
pub fn get_cgroup(h: &CgroupHierarchy, pid: u32) -> (r: Option<Vec<u8>>)
    ensures
        r matches Some(p) && p@ == cgroup_path_of(h@, pid),
{
    let ghost s = h@.groups;
    let mut i: usize = 0;
    while i < h.groups.len()
        invariant
            s == h@.groups,
            i <= s.len(),
            pid_pos_from(s, pid, 0) == pid_pos_from(s, pid, i as int),
        decreases s.len() - i,
    {
        assert(s[i as int].1.procs == h.groups@[i as int].1.procs@);
        if contains_pid(&h.groups[i].1.procs, pid) {
            assert(s[i as int].0 == h.groups@[i as int].0@);
            return Some(slice_to_vec(h.groups[i].0.as_slice()));
        }
        i = i + 1;
    }
    let mut root: Vec<u8> = Vec::new();
    root.push(47);
    assert(root@ =~= /* "/" */ seq![47u8]);
    Some(root)
}

/// Cgroup info for queries
#[derive(Clone, Debug)]
pub struct CgroupInfo {
    pub id: u64,
    pub path: Vec<u8>,
    pub controllers: Vec<Vec<u8>>,
    pub process_count: usize,
    pub frozen: bool,
}

/// What a query entry holds.
pub struct CgroupInfoView {
    pub id: u64,
    pub path: Seq<u8>,
    pub controllers: Seq<Seq<u8>>,
    pub process_count: nat,
    pub frozen: bool,
}

impl View for CgroupInfo {
    type V = CgroupInfoView;

    open spec fn view(&self) -> CgroupInfoView {
        CgroupInfoView {
            id: self.id,
            path: self.path@,
            controllers: texts_view(self.controllers@),
            process_count: self.process_count as nat,
            frozen: self.frozen,
        }
    }
}

/// The names of a list of controllers.
pub open spec fn controller_names(cs: Seq<ControllerType>) -> Seq<Seq<u8>> {
    cs.map_values(|c: ControllerType| controller_name(c))
}

/// What a query reports of a group.
pub open spec fn info_of(g: CgroupView) -> CgroupInfoView {
    CgroupInfoView {
        id: g.id,
        path: g.path,
        controllers: controller_names(g.controllers),
        process_count: g.procs.len(),
        frozen: g.frozen,
    }
}

/// The names of a group's controllers.
fn names_of(cs: &Vec<ControllerType>) -> (r: Vec<Vec<u8>>)
    ensures
        texts_view(r@) == controller_names(cs@),
{
    let mut out: Vec<Vec<u8>> = Vec::new();
    let mut i: usize = 0;
    while i < cs.len()
        invariant
            i <= cs@.len(),
            texts_view(out@) == controller_names(cs@.subrange(0, i as int)),
        decreases cs@.len() - i,
    {
        let ghost before = out@;
        let n = cs[i].name();
        out.push(n);
        assert(texts_view(out@) =~= texts_view(before).push(n@));
        assert(controller_names(cs@.subrange(0, i + 1)) =~= controller_names(cs@.subrange(0, i as int)).push(controller_name(cs@[i as int])));
        i = i + 1;
    }
    assert(cs@.subrange(0, cs@.len() as int) =~= cs@);
    out
}

/// List cgroups, in path order
pub fn list_cgroups(h: &CgroupHierarchy) -> (r: Vec<CgroupInfo>)
    ensures
        r@.map_values(|x: CgroupInfo| x@) == h@.groups.map_values(|e: (Seq<u8>, CgroupView)| info_of(e.1)),
{
    let ghost s = h@.groups;
    let mut out: Vec<CgroupInfo> = Vec::new();
    let mut i: usize = 0;
    while i < h.groups.len()
        invariant
            s == h@.groups,
            i <= s.len(),
            out@.map_values(|x: CgroupInfo| x@) == s.subrange(0, i as int).map_values(|e: (Seq<u8>, CgroupView)| info_of(e.1)),
        decreases s.len() - i,
    {
        let g = &h.groups[i].1;
        assert(s[i as int].1 == g@);
        let info = CgroupInfo {
            id: g.id,
            path: slice_to_vec(g.path.as_slice()),
            controllers: names_of(&g.controllers),
            process_count: g.procs.len(),
            frozen: g.frozen,
        };
        let ghost before = out@;
        out.push(info);
        assert(out@.map_values(|x: CgroupInfo| x@) =~= before.map_values(|x: CgroupInfo| x@).push(info_of(g@)));
        assert(s.subrange(0, i + 1).map_values(|e: (Seq<u8>, CgroupView)| info_of(e.1)) =~= s.subrange(0, i as int).map_values(|e: (Seq<u8>, CgroupView)| info_of(e.1)).push(info_of(s[i as int].1)));
        assert(out@.map_values(|x: CgroupInfo| x@) =~= s.subrange(0, i + 1).map_values(|e: (Seq<u8>, CgroupView)| info_of(e.1)));
        i = i + 1;
    }
    assert(s.subrange(0, s.len() as int) =~= s);
    out
}

/// Procfs-style cgroup listing for a process: `0::PATH` and a newline
pub fn proc_cgroup(h: &CgroupHierarchy, pid: u32) -> (r: Vec<u8>)
    ensures
        r@ == /* "0::" */ seq![48u8, 58u8, 58u8] + cgroup_path_of(h@, pid) + /* "\n" */ seq![10u8],
{
    let mut out: Vec<u8> = Vec::new();
    extend_bytes(&mut out, /* "0::" */ [48u8, 58u8, 58u8].as_slice());
    match get_cgroup(h, pid) {
        Some(path) => {
            extend_bytes(&mut out, path.as_slice());
            out.push(10);
        },
        None => {
            out.push(47);
            out.push(10);
        },
    }
    assert(out@ =~= /* "0::" */ seq![48u8, 58u8, 58u8] + cgroup_path_of(h@, pid) + /* "\n" */ seq![10u8]);
    out
}

/// The parent of a path: none for the root or a path without `/`, the
/// root for a top-level path, else everything before the last `/`.
pub open spec fn parent_of(path: Seq<u8>) -> Option<Seq<u8>> {
    if path == /* "/" */ seq![47u8] {
        None
    } else {
        let i = last_index(path, 47u8);
        if i < 0 {
            None
        } else if i == 0 {
            Some(/* "/" */ seq![47u8])
        } else {
            Some(path.subrange(0, i))
        }
    }
}

/// Get parent path
fn parent_path(path: &[u8]) -> (r: Option<Vec<u8>>)
    ensures
        match r {
            Some(p) => parent_of(path@) == Some(p@),
            None => parent_of(path@) is None,
        },
{
    let slash = [47u8];
    assert(slash@ =~= /* "/" */ seq![47u8]);
    if bytes_equal(path, slash.as_slice()) {
        return None;
    }
    proof {
        lemma_last_index_bounds(path@, 47u8);
    }
    let last = match rfind_byte(path, 47) {
        Some(i) => i,
        None => return None,
    };
    if last == 0 {
        let mut root: Vec<u8> = Vec::new();
        root.push(47);
        assert(root@ =~= /* "/" */ seq![47u8]);
        Some(root)
    } else {
        Some(copy_range(path, 0, last))
    }
}



/// Index of the first entry at or after `i` whose path does not come
/// before `k` (or the end).
pub open spec fn ins_pos_from(s: Seq<(Seq<u8>, CgroupView)>, k: Seq<u8>, i: int) -> int
    decreases s.len() - i,
{
    if 0 <= i < s.len() && key_lt(s[i].0, k) { ins_pos_from(s, k, i + 1) } else { i }
}

/// Where a new path goes to keep the entries in path order.
pub open spec fn ins_pos(s: Seq<(Seq<u8>, CgroupView)>, k: Seq<u8>) -> int {
    ins_pos_from(s, k, 0)
}

proof fn lemma_ins_pos_from(s: Seq<(Seq<u8>, CgroupView)>, k: Seq<u8>, i: int)
    requires
        0 <= i <= s.len(),
    ensures
        i <= ins_pos_from(s, k, i) <= s.len(),
        ins_pos_from(s, k, i) < s.len() ==> !key_lt(s[ins_pos_from(s, k, i)].0, k),
        forall|m: int| i <= m < ins_pos_from(s, k, i) ==> key_lt(#[trigger] s[m].0, k),
    decreases s.len() - i,
{
    if i < s.len() && key_lt(s[i].0, k) {
        lemma_ins_pos_from(s, k, i + 1);
    }
}

/// The part of a path after its last `/`.
pub open spec fn last_segment(path: Seq<u8>) -> Seq<u8> {
    path.subrange(last_index(path, 47u8) + 1, path.len() as int)
}

/// An entry with `c` added to its group's children.
pub open spec fn with_child(e: (Seq<u8>, CgroupView), c: Seq<u8>) -> (Seq<u8>, CgroupView) {
    (e.0, CgroupView { children: e.1.children.push(c), ..e.1 })
}

/// The hierarchy after creating the group `path`, or why not: the path
/// must start with `/`, be new, and have an existing parent, which lists
/// the new group as a child.
pub open spec fn hierarchy_create(h: HierarchyView, path: Seq<u8>) -> Result<HierarchyView, CgroupError> {
    let s = h.groups;
    if path.len() == 0 || path[0] != 47 {
        Err(CgroupError::InvalidPath)
    } else if key_pos(s, path) < s.len() {
        Err(CgroupError::AlreadyExists)
    } else {
        match parent_of(path) {
            None => Err(CgroupError::InvalidPath),
            Some(pp) => {
                let pi = key_pos(s, pp);
                if pi >= s.len() {
                    Err(CgroupError::NotFound)
                } else {
                    let child = fresh_group(h.next_id, child_path(pp, last_segment(path)), Some(pp), Seq::empty());
                    let s1 = s.update(pi, with_child(s[pi], path));
                    Ok(HierarchyView {
                        groups: s1.insert(ins_pos(s1, path), (path, child)),
                        next_id: h.next_id.wrapping_add(1),
                        ..h
                    })
                }
            },
        }
    }
}

/// The list without any copy of `p`.
pub open spec fn without_path(cs: Seq<Seq<u8>>, p: Seq<u8>) -> Seq<Seq<u8>>
    decreases cs.len(),
{
    if cs.len() == 0 {
        cs
    } else if cs.last() == p {
        without_path(cs.drop_last(), p)
    } else {
        without_path(cs.drop_last(), p).push(cs.last())
    }
}

proof fn lemma_without_path(cs: Seq<Seq<u8>>, p: Seq<u8>)
    ensures
        forall|k: int| 0 <= k < without_path(cs, p).len() ==> #[trigger] without_path(cs, p)[k] != p && cs.contains(without_path(cs, p)[k]),
        !cs.contains(p) ==> without_path(cs, p) == cs,
    decreases cs.len(),
{
    if cs.len() > 0 {
        lemma_without_path(cs.drop_last(), p);
        let r = without_path(cs, p);
        let r0 = without_path(cs.drop_last(), p);
        assert forall|k: int| 0 <= k < r.len() implies #[trigger] r[k] != p && cs.contains(r[k]) by {
            if cs.last() != p && k == r0.len() {
                assert(r[k] == cs[cs.len() - 1]);
            } else {
                assert(r[k] == r0[k]);
                let w = choose|w: int| 0 <= w < cs.drop_last().len() && cs.drop_last()[w] == r0[k];
                assert(cs[w] == r0[k]);
            }
        }
        if !cs.contains(p) {
            assert forall|w: int| 0 <= w < cs.drop_last().len() implies cs.drop_last()[w] != p by {
                assert(cs[w] == cs.drop_last()[w]);
            }
            assert(cs.last() != p) by {
                assert(cs[cs.len() - 1] == cs.last());
            }
            assert(cs.drop_last().push(cs.last()) =~= cs);
        }
    }
}

/// The hierarchy after removing the group `path`, or why not: the root
/// stays, the group must exist and have no children and no processes,
/// and it leaves its parent's list of children.
pub open spec fn hierarchy_remove(h: HierarchyView, path: Seq<u8>) -> Result<HierarchyView, CgroupError> {
    let s = h.groups;
    if path == /* "/" */ seq![47u8] {
        Err(CgroupError::PermissionDenied)
    } else {
        let i = key_pos(s, path);
        if i >= s.len() {
            Err(CgroupError::NotFound)
        } else if s[i].1.children.len() > 0 || s[i].1.procs.len() > 0 {
            Err(CgroupError::NotEmpty)
        } else {
            let s1 = match s[i].1.parent {
                Some(pp) => {
                    let pi = key_pos(s, pp);
                    if pi < s.len() {
                        s.update(pi, (s[pi].0, CgroupView { children: without_path(s[pi].1.children, path), ..s[pi].1 }))
                    } else {
                        s
                    }
                },
                None => s,
            };
            Ok(HierarchyView { groups: s1.remove(i), ..h })
        }
    }
}

impl CgroupHierarchy {
    /// Where a new path goes to keep the groups in path order.
    fn insert_pos(&self, key: &[u8]) -> (r: usize)
        ensures
            r == ins_pos(self@.groups, key@),
            r <= self@.groups.len(),
    {
        proof {
            lemma_ins_pos_from(self@.groups, key@, 0);
        }
        let mut i: usize = 0;
        while i < self.groups.len() && key_less(self.groups[i].0.as_slice(), key)
            invariant
                i <= self@.groups.len(),
                ins_pos(self@.groups, key@) == ins_pos_from(self@.groups, key@, i as int),
            decreases self@.groups.len() - i,
        {
            assert(self@.groups[i as int].0 == self.groups@[i as int].0@);
            i = i + 1;
        }
        proof {
            if i < self.groups.len() {
                assert(self@.groups[i as int].0 == self.groups@[i as int].0@);
            }
        }
        i
    }
}

/// The list without any copy of `p`.
fn filter_out(cs: &Vec<Vec<u8>>, p: &[u8]) -> (r: Vec<Vec<u8>>)
    ensures
        texts_view(r@) == without_path(texts_view(cs@), p@),
{
    let ghost v = texts_view(cs@);
    let mut out: Vec<Vec<u8>> = Vec::new();
    let mut i: usize = 0;
    assert(v.subrange(0, 0) =~= Seq::<Seq<u8>>::empty());
    while i < cs.len()
        invariant
            v == texts_view(cs@),
            i <= v.len(),
            texts_view(out@) == without_path(v.subrange(0, i as int), p@),
        decreases v.len() - i,
    {
        assert(v.subrange(0, i + 1).drop_last() =~= v.subrange(0, i as int));
        assert(v[i as int] == cs@[i as int]@);
        if !bytes_equal(cs[i].as_slice(), p) {
            let ghost before = out@;
            out.push(slice_to_vec(cs[i].as_slice()));
            assert(texts_view(out@) =~= texts_view(before).push(v[i as int]));
        }
        i = i + 1;
    }
    assert(v.subrange(0, v.len() as int) =~= v);
    out
}

/// Create a cgroup
pub fn create_cgroup(h: &mut CgroupHierarchy, path: &[u8]) -> (r: Result<(), CgroupError>)
    ensures
        match hierarchy_create(old(h)@, path@) {
            Ok(h2) => r is Ok && final(h)@ == h2,
            Err(e) => r == Err::<(), CgroupError>(e) && final(h)@ == old(h)@,
        },
        hierarchy_wf(old(h)@) ==> hierarchy_wf(final(h)@),
{
    proof {
        if hierarchy_wf(old(h)@) {
            lemma_create_wf(old(h)@, path@);
        }
    }
    if path.len() == 0 || path[0] != 47 {
        return Err(CgroupError::InvalidPath);
    }
    if h.find(path) < h.groups.len() {
        return Err(CgroupError::AlreadyExists);
    }
    let pp = match parent_path(path) {
        Some(p) => p,
        None => return Err(CgroupError::InvalidPath),
    };
    let pi = h.find(pp.as_slice());
    if pi >= h.groups.len() {
        return Err(CgroupError::NotFound);
    }
    proof {
        lemma_last_index_bounds(path@, 47u8);
    }
    let start = match rfind_byte(path, 47) {
        Some(i) => i + 1,
        None => 0,
    };
    let name = copy_range(path, start, path.len());
    let child = Cgroup::new_child(pp.as_slice(), name.as_slice(), h.next_id);
    h.next_id = h.next_id.wrapping_add(1);
    let ghost s = h@.groups;
    let (pk, mut pg) = h.groups.remove(pi);
    let ghost old_children = pg.children@;
    assert(s[pi as int] == (pk@, pg@));
    pg.children.push(slice_to_vec(path));
    assert(texts_view(pg.children@) =~= texts_view(old_children).push(path@));
    let ghost s1 = s.update(pi as int, with_child(s[pi as int], path@));
    assert((pk@, pg@) == with_child(s[pi as int], path@));
    h.groups.insert(pi, (pk, pg));
    assert(h@.groups =~= s1);
    let q = h.insert_pos(path);
    h.groups.insert(q, (slice_to_vec(path), child));
    assert(h@.groups =~= s1.insert(q as int, (path@, child@)));
    Ok(())
}

/// Remove a cgroup
pub fn remove_cgroup(h: &mut CgroupHierarchy, path: &[u8]) -> (r: Result<(), CgroupError>)
    ensures
        match hierarchy_remove(old(h)@, path@) {
            Ok(h2) => r is Ok && final(h)@ == h2,
            Err(e) => r == Err::<(), CgroupError>(e) && final(h)@ == old(h)@,
        },
        hierarchy_wf(old(h)@) ==> hierarchy_wf(final(h)@),
{
    proof {
        if hierarchy_wf(old(h)@) {
            lemma_remove_wf(old(h)@, path@);
        }
    }
    let slash = [47u8];
    assert(slash@ =~= /* "/" */ seq![47u8]);
    if bytes_equal(path, slash.as_slice()) {
        return Err(CgroupError::PermissionDenied);
    }
    let i = h.find(path);
    if i >= h.groups.len() {
        return Err(CgroupError::NotFound);
    }
    let ghost s = h@.groups;
    assert(s[i as int].1 == h.groups@[i as int].1@);
    if h.groups[i].1.children.len() > 0 || h.groups[i].1.procs.len() > 0 {
        return Err(CgroupError::NotEmpty);
    }
    let parent = match &h.groups[i].1.parent {
        Some(p) => Some(slice_to_vec(p.as_slice())),
        None => None,
    };
    let ghost s1 = match s[i as int].1.parent {
        Some(pp) => {
            let pi = key_pos(s, pp);
            if pi < s.len() {
                s.update(pi, (s[pi].0, CgroupView { children: without_path(s[pi].1.children, path@), ..s[pi].1 }))
            } else {
                s
            }
        },
        None => s,
    };
    match parent {
        Some(pp) => {
            let pi = h.find(pp.as_slice());
            if pi < h.groups.len() {
                let (pk, mut pg) = h.groups.remove(pi);
                let kept = filter_out(&pg.children, path);
                pg.children = kept;
                h.groups.insert(pi, (pk, pg));
            }
        },
        None => {},
    }
    assert(h@.groups =~= s1);
    h.groups.remove(i);
    assert(h@.groups =~= s1.remove(i as int));
    Ok(())
}

/// Creating a group keeps the hierarchy well formed.
pub proof fn lemma_create_wf(h: HierarchyView, path: Seq<u8>)
    requires
        hierarchy_wf(h),
    ensures
        hierarchy_create(h, path) matches Ok(h2) ==> hierarchy_wf(h2),
{
    if hierarchy_create(h, path) is Ok {
        let s = h.groups;
        let pp = parent_of(path)->Some_0;
        let pi = key_pos(s, pp);
        let child = fresh_group(h.next_id, child_path(pp, last_segment(path)), Some(pp), Seq::empty());
        let s1 = s.update(pi, with_child(s[pi], path));
        let q = ins_pos(s1, path);
        let t = s1.insert(q, (path, child));
        lemma_key_pos(s, path);
        lemma_key_pos(s, pp);
        lemma_ins_pos_from(s1, path, 0);
        assert forall|m: int| 0 <= m < s1.len() implies #[trigger] s1[m].0 == s[m].0 && s1[m].1.parent == s[m].1.parent by {
        }
        if q < s1.len() {
            lemma_key_lt_total(path, s1[q].0);
            assert(s1[q].0 != path);
        }
        assert(keys_sorted(t)) by {
            assert forall|i: int, j: int| #![trigger t[i], t[j]] 0 <= i < j < t.len() implies key_lt(t[i].0, t[j].0) by {
                if j < q {
                    assert(t[i] == s1[i] && t[j] == s1[j]);
                    assert(key_lt(s[i].0, s[j].0));
                } else if j == q {
                    assert(t[i] == s1[i]);
                } else if i < q {
                    assert(t[i] == s1[i] && t[j] == s1[j - 1]);
                    assert(key_lt(s[i].0, s[j - 1].0));
                } else if i == q {
                    assert(t[j] == s1[j - 1]);
                    if q < j - 1 {
                        assert(key_lt(s[q].0, s[j - 1].0));
                        lemma_key_lt_transitive(path, s1[q].0, s1[j - 1].0);
                    }
                } else {
                    assert(t[i] == s1[i - 1] && t[j] == s1[j - 1]);
                    assert(key_lt(s[i - 1].0, s[j - 1].0));
                }
            }
        }
        assert(children_linked(t)) by {
            assert forall|i: int, j: int| 0 <= i < t.len() && 0 <= j < t[i].1.children.len() implies has_child_entry(t, #[trigger] t[i].1.children[j], t[i].0) by {
                if i != q {
                    let m = if i < q { i } else { i - 1 };
                    assert(t[i] == s1[m]);
                    let c = t[i].1.children[j];
                    if m == pi && j == s[pi].1.children.len() {
                        assert(c == path);
                        assert(t[q].0 == path && t[q].1.parent == Some(pp));
                        assert(t[i].0 == pp);
                    } else {
                        assert(c == s[m].1.children[j]);
                        assert(has_child_entry(s, s[m].1.children[j], s[m].0));
                        let wi = choose|wi: int| 0 <= wi < s.len() && s[wi].0 == c && #[trigger] s[wi].1.parent == Some(s[m].0);
                        let tw = if wi < q { wi } else { wi + 1 };
                        assert(t[tw] == s1[wi]);
                        assert(t[tw].0 == c && t[tw].1.parent == Some(t[i].0));
                    }
                }
            }
        }
    }
}

/// Removing a group keeps the hierarchy well formed.
pub proof fn lemma_remove_wf(h: HierarchyView, path: Seq<u8>)
    requires
        hierarchy_wf(h),
    ensures
        hierarchy_remove(h, path) matches Ok(h2) ==> hierarchy_wf(h2),
{
    if hierarchy_remove(h, path) is Ok {
        let s = h.groups;
        let i = key_pos(s, path);
        lemma_key_pos(s, path);
        let s1 = match s[i].1.parent {
            Some(pp) => {
                let pi = key_pos(s, pp);
                if pi < s.len() {
                    s.update(pi, (s[pi].0, CgroupView { children: without_path(s[pi].1.children, path), ..s[pi].1 }))
                } else {
                    s
                }
            },
            None => s,
        };
        let t = s1.remove(i);
        match s[i].1.parent {
            Some(pp) => lemma_key_pos(s, pp),
            None => {},
        }
        assert forall|m: int| 0 <= m < s1.len() implies #[trigger] s1[m].0 == s[m].0 && s1[m].1.parent == s[m].1.parent by {
        }
        assert(keys_sorted(t)) by {
            assert forall|a: int, b: int| #![trigger t[a], t[b]] 0 <= a < b < t.len() implies key_lt(t[a].0, t[b].0) by {
                let ma = if a < i { a } else { a + 1 };
                let mb = if b < i { b } else { b + 1 };
                assert(t[a] == s1[ma] && t[b] == s1[mb]);
                assert(key_lt(s[ma].0, s[mb].0));
            }
        }
        assert(children_linked(t)) by {
            assert forall|a: int, j: int| 0 <= a < t.len() && 0 <= j < t[a].1.children.len() implies has_child_entry(t, #[trigger] t[a].1.children[j], t[a].0) by {
                let m = if a < i { a } else { a + 1 };
                assert(t[a] == s1[m]);
                let c = t[a].1.children[j];
                let filtered = s[i].1.parent matches Some(pp) && key_pos(s, pp) == m;
                if filtered {
                    let pp = s[i].1.parent->Some_0;
                    lemma_without_path(s[m].1.children, path);
                    assert(c == without_path(s[m].1.children, path)[j]);
                    assert(c != path);
                    let k = choose|k: int| 0 <= k < s[m].1.children.len() && s[m].1.children[k] == c;
                    assert(has_child_entry(s, s[m].1.children[k], s[m].0));
                } else {
                    assert(c == s[m].1.children[j]);
                    assert(has_child_entry(s, s[m].1.children[j], s[m].0));
                }
                let wi = choose|wi: int| 0 <= wi < s.len() && s[wi].0 == c && #[trigger] s[wi].1.parent == Some(s[m].0);
                if wi == i {
                    lemma_key_pos_unique(s, m);
                    assert(s[i].1.parent == Some(s[m].0));
                    assert(false);
                }
                let tw = if wi < i { wi } else { wi - 1 };
                assert(t[tw] == s1[wi]);
                assert(t[tw].0 == c && t[tw].1.parent == Some(t[a].0));
            }
        }
    }
}

/// Removing a group just created gives back the groups as they were.
pub proof fn lemma_create_then_remove(h: HierarchyView, path: Seq<u8>)
    requires
        hierarchy_wf(h),
        hierarchy_create(h, path) is Ok,
    ensures
        hierarchy_remove(hierarchy_create(h, path)->Ok_0, path) matches Ok(h3) && h3.groups == h.groups,
{
    let s = h.groups;
    let pp = parent_of(path)->Some_0;
    let pi = key_pos(s, pp);
    let child = fresh_group(h.next_id, child_path(pp, last_segment(path)), Some(pp), Seq::empty());
    let s1 = s.update(pi, with_child(s[pi], path));
    let q = ins_pos(s1, path);
    let t = s1.insert(q, (path, child));
    let h2 = hierarchy_create(h, path)->Ok_0;
    assert(h2.groups == t);
    lemma_create_wf(h, path);
    lemma_key_pos(s, path);
    lemma_key_pos(s, pp);
    lemma_ins_pos_from(s1, path, 0);
    assert(path != /* "/" */ seq![47u8]);
    assert(t[q] == (path, child));
    lemma_key_pos_unique(t, q);
    let pt = if pi < q { pi } else { pi + 1 };
    assert(t[pt] == s1[pi]);
    lemma_key_pos_unique(t, pt);
    assert(!s[pi].1.children.contains(path)) by {
        if s[pi].1.children.contains(path) {
            let k = choose|k: int| 0 <= k < s[pi].1.children.len() && s[pi].1.children[k] == path;
            assert(has_child_entry(s, s[pi].1.children[k], s[pi].0));
        }
    }
    lemma_without_path(s[pi].1.children, path);
    assert(s[pi].1.children.push(path).drop_last() =~= s[pi].1.children);
    let t1 = t.update(pt, (t[pt].0, CgroupView { children: without_path(t[pt].1.children, path), ..t[pt].1 }));
    assert(t1[pt] == s[pi]);
    assert(t1.remove(q) =~= s);
}




/// Changing groups in ways that keep every path, child list and parent
/// keeps the hierarchy well formed.
pub proof fn lemma_wf_same_links(s: Seq<(Seq<u8>, CgroupView)>, t: Seq<(Seq<u8>, CgroupView)>)
    requires
        keys_sorted(s),
        children_linked(s),
        t.len() == s.len(),
        forall|m: int| 0 <= m < s.len() ==> (#[trigger] t[m]).0 == s[m].0 && t[m].1.children == s[m].1.children && t[m].1.parent == s[m].1.parent,
    ensures
        keys_sorted(t),
        children_linked(t),
{
    assert(keys_sorted(t)) by {
        assert forall|i: int, j: int| #![trigger t[i], t[j]] 0 <= i < j < t.len() implies key_lt(t[i].0, t[j].0) by {
            assert(key_lt(s[i].0, s[j].0));
        }
    }
    assert(children_linked(t)) by {
        assert forall|i: int, j: int| 0 <= i < t.len() && 0 <= j < t[i].1.children.len() implies has_child_entry(t, #[trigger] t[i].1.children[j], t[i].0) by {
            assert(t[i].1.children[j] == s[i].1.children[j]);
            assert(has_child_entry(s, s[i].1.children[j], s[i].0));
            let wi = choose|wi: int| 0 <= wi < s.len() && s[wi].0 == s[i].1.children[j] && #[trigger] s[wi].1.parent == Some(s[i].0);
            assert(t[wi].0 == s[wi].0 && t[wi].1.parent == s[wi].1.parent);
        }
    }
}

/// The list without any copy of `pid`.
pub open spec fn without_pid(ps: Seq<u32>, pid: u32) -> Seq<u32>
    decreases ps.len(),
{
    if ps.len() == 0 {
        ps
    } else if ps.last() == pid {
        without_pid(ps.drop_last(), pid)
    } else {
        without_pid(ps.drop_last(), pid).push(ps.last())
    }
}

proof fn lemma_without_pid(ps: Seq<u32>, pid: u32)
    ensures
        !without_pid(ps, pid).contains(pid),
    decreases ps.len(),
{
    if ps.len() > 0 {
        lemma_without_pid(ps.drop_last(), pid);
        let r0 = without_pid(ps.drop_last(), pid);
        if ps.last() != pid {
            assert forall|k: int| 0 <= k < r0.len() + 1 implies r0.push(ps.last())[k] != pid by {
                if k < r0.len() {
                    assert(r0.push(ps.last())[k] == r0[k]);
                }
            }
        }
    }
}

/// An entry whose group no longer lists `pid`, populated while it still
/// has processes.
pub open spec fn detached(e: (Seq<u8>, CgroupView), pid: u32) -> (Seq<u8>, CgroupView) {
    (e.0, CgroupView { procs: without_pid(e.1.procs, pid), populated: without_pid(e.1.procs, pid).len() > 0, ..e.1 })
}

/// The hierarchy after moving `pid` into the group `path`, and the
/// outcome: the process leaves every group first, then joins the group if
/// it exists.
pub open spec fn hierarchy_attach(h: HierarchyView, path: Seq<u8>, pid: u32) -> (HierarchyView, Result<(), CgroupError>) {
    let s1 = h.groups.map_values(|e: (Seq<u8>, CgroupView)| detached(e, pid));
    let i = key_pos(s1, path);
    if i >= s1.len() {
        (HierarchyView { groups: s1, ..h }, Err(CgroupError::NotFound))
    } else {
        (HierarchyView {
            groups: s1.update(i, (s1[i].0, CgroupView { procs: s1[i].1.procs.push(pid), populated: true, ..s1[i].1 })),
            ..h
        }, Ok(()))
    }
}

/// The list without any copy of `pid`.
fn remove_pid(ps: &Vec<u32>, pid: u32) -> (r: Vec<u32>)
    ensures
        r@ == without_pid(ps@, pid),
{
    let mut out: Vec<u32> = Vec::new();
    let mut i: usize = 0;
    assert(ps@.subrange(0, 0) =~= Seq::<u32>::empty());
    while i < ps.len()
        invariant
            i <= ps@.len(),
            out@ == without_pid(ps@.subrange(0, i as int), pid),
        decreases ps@.len() - i,
    {
        assert(ps@.subrange(0, i + 1).drop_last() =~= ps@.subrange(0, i as int));
        if ps[i] != pid {
            out.push(ps[i]);
        }
        i = i + 1;
    }
    assert(ps@.subrange(0, ps@.len() as int) =~= ps@);
    out
}

/// Apply cgroup limits to a process, for each controller the group has on
fn apply_limits(pid: u32, cgroup: &Cgroup) -> (r: Result<(), CgroupError>)
    ensures
        r is Ok,
{
    if contains_controller(&cgroup.controllers, ControllerType::Memory) {
        match memory::apply_to_process(pid, &cgroup.memory) {
            Ok(()) => {},
            Err(e) => return Err(e),
        }
    }
    if contains_controller(&cgroup.controllers, ControllerType::Cpu) {
        match cpu::apply_to_process(pid, &cgroup.cpu) {
            Ok(()) => {},
            Err(e) => return Err(e),
        }
    }
    if contains_controller(&cgroup.controllers, ControllerType::Pids) {
        match pids::apply_to_process(pid, &cgroup.pids) {
            Ok(()) => {},
            Err(e) => return Err(e),
        }
    }
    Ok(())
}

/// Add a process to a cgroup (taking it out of every other group)
pub fn attach_process(h: &mut CgroupHierarchy, path: &[u8], pid: u32) -> (r: Result<(), CgroupError>)
    ensures
        (final(h)@, r) == hierarchy_attach(old(h)@, path@, pid),
        hierarchy_wf(old(h)@) ==> hierarchy_wf(final(h)@),
{
    let ghost s = h@.groups;
    let ghost s1 = s.map_values(|e: (Seq<u8>, CgroupView)| detached(e, pid));
    let n = h.groups.len();
    let mut i: usize = 0;
    while i < n
        invariant
            n == s.len(),
            s1 == s.map_values(|e: (Seq<u8>, CgroupView)| detached(e, pid)),
            i <= n,
            h@.groups.len() == n,
            h@.next_id == old(h)@.next_id,
            h@.initialized == old(h)@.initialized,
            forall|m: int| 0 <= m < i ==> #[trigger] h@.groups[m] == s1[m],
            forall|m: int| i <= m < n ==> #[trigger] h@.groups[m] == s[m],
        decreases n - i,
    {
        let ghost before = h@.groups;
        let (k, mut g) = h.groups.remove(i);
        assert(before[i as int] == (k@, g@));
        let kept = remove_pid(&g.procs, pid);
        g.procs = kept;
        g.populated = g.procs.len() > 0;
        assert((k@, g@) == s1[i as int]);
        h.groups.insert(i, (k, g));
        assert(h@.groups =~= before.update(i as int, s1[i as int]));
        i = i + 1;
    }
    assert(h@.groups =~= s1);
    proof {
        if hierarchy_wf(old(h)@) {
            lemma_wf_same_links(s, s1);
        }
    }
    let j = h.find(path);
    if j >= h.groups.len() {
        return Err(CgroupError::NotFound);
    }
    let (k, mut g) = h.groups.remove(j);
    assert(s1[j as int] == (k@, g@));
    g.procs.push(pid);
    g.populated = true;
    let applied = apply_limits(pid, &g);
    h.groups.insert(j, (k, g));
    let ghost t = s1.update(j as int, (s1[j as int].0, CgroupView { procs: s1[j as int].1.procs.push(pid), populated: true, ..s1[j as int].1 }));
    assert(h@.groups =~= t);
    proof {
        if hierarchy_wf(old(h)@) {
            lemma_wf_same_links(s1, t);
        }
    }
    match applied {
        Ok(()) => Ok(()),
        Err(e) => Err(e),
    }
}

/// After a process joins a group, the lookup of its group gives that
/// group's path, and no other group holds it.
pub proof fn lemma_attach_then_lookup(h: HierarchyView, path: Seq<u8>, pid: u32)
    requires
        hierarchy_attach(h, path, pid).1 is Ok,
    ensures
        cgroup_path_of(hierarchy_attach(h, path, pid).0, pid) == path,
        forall|m: int| 0 <= m < h.groups.len() && m != key_pos(h.groups, path) ==> !(#[trigger] hierarchy_attach(h, path, pid).0.groups[m].1.procs.contains(pid)),
        hierarchy_attach(h, path, pid).0.groups[key_pos(h.groups, path)].1.procs.to_multiset().count(pid) == 1,
{
    let s1 = h.groups.map_values(|e: (Seq<u8>, CgroupView)| detached(e, pid));
    let i = key_pos(s1, path);
    let t = hierarchy_attach(h, path, pid).0.groups;
    lemma_key_pos(s1, path);
    assert forall|m: int| 0 <= m < t.len() && m != i implies !(#[trigger] t[m].1.procs.contains(pid)) by {
        lemma_without_pid(h.groups[m].1.procs, pid);
    }
    assert(t[i].1.procs.contains(pid)) by {
        assert(t[i].1.procs[t[i].1.procs.len() - 1] == pid);
    }
    assert(t[i].1.procs.to_multiset().count(pid) == 1) by {
        broadcast use vstd::seq_lib::group_to_multiset_ensures;
        let d = s1[i].1.procs;
        lemma_without_pid(h.groups[i].1.procs, pid);
        assert(!d.contains(pid));
        assert(d.to_multiset().count(pid) == 0);
        assert(t[i].1.procs == d.push(pid));
    }
    lemma_pid_pos_from(t, pid, 0);
    let r = pid_pos_from(t, pid, 0);
    if r < i {
        assert(t[r].1.procs.contains(pid));
    }
    assert(key_pos(s1, path) == key_pos(h.groups, path)) by {
        lemma_key_pos(h.groups, path);
        let k = key_pos(h.groups, path);
        if k < i {
            assert(s1[k].0 == h.groups[k].0);
        } else if i < k {
            assert(s1[i].0 == h.groups[i].0);
        }
    }
}

/// The hierarchy after enabling controller `c` in group `path`, or why
/// not: the parent, when it exists, must have it on; on twice is once.
pub open spec fn hierarchy_enable(h: HierarchyView, path: Seq<u8>, c: ControllerType) -> Result<HierarchyView, CgroupError> {
    let s = h.groups;
    let i = key_pos(s, path);
    if i >= s.len() {
        Err(CgroupError::NotFound)
    } else {
        let blocked = match s[i].1.parent {
            Some(pp) => key_pos(s, pp) < s.len() && !s[key_pos(s, pp)].1.controllers.contains(c),
            None => false,
        };
        if blocked {
            Err(CgroupError::ControllerNotAvailable)
        } else if s[i].1.controllers.contains(c) {
            Ok(h)
        } else {
            Ok(HierarchyView {
                groups: s.update(i, (s[i].0, CgroupView { controllers: s[i].1.controllers.push(c), ..s[i].1 })),
                ..h
            })
        }
    }
}

/// The list without any copy of `c`.
pub open spec fn without_controller(cs: Seq<ControllerType>, c: ControllerType) -> Seq<ControllerType>
    decreases cs.len(),
{
    if cs.len() == 0 {
        cs
    } else if cs.last() == c {
        without_controller(cs.drop_last(), c)
    } else {
        without_controller(cs.drop_last(), c).push(cs.last())
    }
}

/// Whether a child listed in `cs` exists and has controller `c` on.
pub open spec fn child_uses(s: Seq<(Seq<u8>, CgroupView)>, cs: Seq<Seq<u8>>, c: ControllerType) -> bool {
    exists|j: int| 0 <= j < cs.len() && key_pos(s, #[trigger] cs[j]) < s.len() && s[key_pos(s, cs[j])].1.controllers.contains(c)
}

/// The hierarchy after disabling controller `c` in group `path`, or why
/// not: no child of the group may have it on.
pub open spec fn hierarchy_disable(h: HierarchyView, path: Seq<u8>, c: ControllerType) -> Result<HierarchyView, CgroupError> {
    let s = h.groups;
    let i = key_pos(s, path);
    if i >= s.len() {
        Err(CgroupError::NotFound)
    } else if child_uses(s, s[i].1.children, c) {
        Err(CgroupError::NotEmpty)
    } else {
        Ok(HierarchyView {
            groups: s.update(i, (s[i].0, CgroupView { controllers: without_controller(s[i].1.controllers, c), ..s[i].1 })),
            ..h
        })
    }
}

/// The list without any copy of `c`.
fn remove_controller(cs: &Vec<ControllerType>, c: ControllerType) -> (r: Vec<ControllerType>)
    ensures
        r@ == without_controller(cs@, c),
{
    let mut out: Vec<ControllerType> = Vec::new();
    let mut i: usize = 0;
    assert(cs@.subrange(0, 0) =~= Seq::<ControllerType>::empty());
    while i < cs.len()
        invariant
            i <= cs@.len(),
            out@ == without_controller(cs@.subrange(0, i as int), c),
        decreases cs@.len() - i,
    {
        assert(cs@.subrange(0, i + 1).drop_last() =~= cs@.subrange(0, i as int));
        if cs[i] != c {
            out.push(cs[i]);
        }
        i = i + 1;
    }
    assert(cs@.subrange(0, cs@.len() as int) =~= cs@);
    out
}

/// Enable a controller for a cgroup
pub fn enable_controller(h: &mut CgroupHierarchy, path: &[u8], controller: ControllerType) -> (r: Result<(), CgroupError>)
    ensures
        match hierarchy_enable(old(h)@, path@, controller) {
            Ok(h2) => r is Ok && final(h)@ == h2,
            Err(e) => r == Err::<(), CgroupError>(e) && final(h)@ == old(h)@,
        },
        hierarchy_wf(old(h)@) ==> hierarchy_wf(final(h)@),
{
    let ghost s = h@.groups;
    let i = h.find(path);
    if i >= h.groups.len() {
        return Err(CgroupError::NotFound);
    }
    assert(s[i as int].1 == h.groups@[i as int].1@);
    let parent = match &h.groups[i].1.parent {
        Some(p) => Some(slice_to_vec(p.as_slice())),
        None => None,
    };
    match parent {
        Some(pp) => {
            let pi = h.find(pp.as_slice());
            if pi < h.groups.len() {
                assert(s[pi as int].1 == h.groups@[pi as int].1@);
                if !contains_controller(&h.groups[pi].1.controllers, controller) {
                    return Err(CgroupError::ControllerNotAvailable);
                }
            }
        },
        None => {},
    }
    if !contains_controller(&h.groups[i].1.controllers, controller) {
        let (k, mut g) = h.groups.remove(i);
        assert(s[i as int] == (k@, g@));
        g.controllers.push(controller);
        h.groups.insert(i, (k, g));
        let ghost t = s.update(i as int, (s[i as int].0, CgroupView { controllers: s[i as int].1.controllers.push(controller), ..s[i as int].1 }));
        assert(h@.groups =~= t);
        proof {
            if hierarchy_wf(old(h)@) {
                lemma_wf_same_links(s, t);
            }
        }
    }
    Ok(())
}

/// Disable a controller for a cgroup
pub fn disable_controller(h: &mut CgroupHierarchy, path: &[u8], controller: ControllerType) -> (r: Result<(), CgroupError>)
    ensures
        match hierarchy_disable(old(h)@, path@, controller) {
            Ok(h2) => r is Ok && final(h)@ == h2,
            Err(e) => r == Err::<(), CgroupError>(e) && final(h)@ == old(h)@,
        },
        hierarchy_wf(old(h)@) ==> hierarchy_wf(final(h)@),
{
    let ghost s = h@.groups;
    let i = h.find(path);
    if i >= h.groups.len() {
        return Err(CgroupError::NotFound);
    }
    assert(s[i as int].1 == h.groups@[i as int].1@);
    let ghost cs = s[i as int].1.children;
    let mut j: usize = 0;
    while j < h.groups[i].1.children.len()
        invariant
            s == h@.groups,
            h@ == old(h)@,
            i < s.len(),
            i == key_pos(s, path@),
            cs == s[i as int].1.children,
            cs == texts_view(h.groups@[i as int].1.children@),
            j <= cs.len(),
            forall|k: int| 0 <= k < j ==> !(key_pos(s, #[trigger] cs[k]) < s.len() && s[key_pos(s, cs[k])].1.controllers.contains(controller)),
        decreases cs.len() - j,
    {
        assert(cs[j as int] == h.groups@[i as int].1.children@[j as int]@);
        let ci = h.find(h.groups[i].1.children[j].as_slice());
        if ci < h.groups.len() {
            assert(s[ci as int].1 == h.groups@[ci as int].1@);
            if contains_controller(&h.groups[ci].1.controllers, controller) {
                assert(child_uses(s, cs, controller));
                return Err(CgroupError::NotEmpty);
            }
        }
        j = j + 1;
    }
    let (k, mut g) = h.groups.remove(i);
    assert(s[i as int] == (k@, g@));
    let kept = remove_controller(&g.controllers, controller);
    g.controllers = kept;
    h.groups.insert(i, (k, g));
    let ghost t = s.update(i as int, (s[i as int].0, CgroupView { controllers: without_controller(s[i as int].1.controllers, controller), ..s[i as int].1 }));
    assert(h@.groups =~= t);
    proof {
        if hierarchy_wf(old(h)@) {
            lemma_wf_same_links(s, t);
        }
    }
    Ok(())
}

/// Enabling a controller a second time changes nothing.
pub proof fn lemma_enable_idempotent(h: HierarchyView, path: Seq<u8>, c: ControllerType)
    requires
        hierarchy_enable(h, path, c) is Ok,
    ensures
        hierarchy_enable(hierarchy_enable(h, path, c)->Ok_0, path, c) == hierarchy_enable(h, path, c),
{
    let s = h.groups;
    let i = key_pos(s, path);
    let h2 = hierarchy_enable(h, path, c)->Ok_0;
    let t = h2.groups;
    lemma_key_pos(s, path);
    if !s[i].1.controllers.contains(c) {
        assert(t[i].1.controllers[s[i].1.controllers.len() as int] == c);
        assert(key_pos(t, path) == i) by {
            lemma_key_pos(t, path);
            let k = key_pos(t, path);
            if k < i {
                assert(t[k].0 == s[k].0);
            } else if k > i {
                assert(t[i].0 == path);
            }
        }
        match s[i].1.parent {
            Some(pp) => {
                lemma_key_pos(s, pp);
                lemma_key_pos(t, pp);
                let kp = key_pos(s, pp);
                assert(key_pos(t, pp) == kp) by {
                    let k2 = key_pos(t, pp);
                    if k2 < kp {
                        assert(t[k2].0 == s[k2].0);
                    } else if kp < k2 {
                        assert(t[kp].0 == s[kp].0);
                    }
                }
                if kp < s.len() && kp != i {
                    assert(t[kp] == s[kp]);
                }
            },
            None => {},
        }
    }
}

/// After a controller is disabled in a group, the group does not list it.
pub proof fn lemma_disable_removes(h: HierarchyView, path: Seq<u8>, c: ControllerType)
    requires
        hierarchy_disable(h, path, c) is Ok,
    ensures
        !hierarchy_disable(h, path, c)->Ok_0.groups[key_pos(h.groups, path)].1.controllers.contains(c),
{
    let i = key_pos(h.groups, path);
    lemma_key_pos(h.groups, path);
    lemma_without_controller(h.groups[i].1.controllers, c);
    let t = hierarchy_disable(h, path, c)->Ok_0.groups;
    assert(t[i].1.controllers == without_controller(h.groups[i].1.controllers, c));
}

proof fn lemma_without_controller(cs: Seq<ControllerType>, c: ControllerType)
    ensures
        !without_controller(cs, c).contains(c),
    decreases cs.len(),
{
    if cs.len() > 0 {
        lemma_without_controller(cs.drop_last(), c);
        let r0 = without_controller(cs.drop_last(), c);
        if cs.last() != c {
            assert forall|k: int| 0 <= k < r0.len() + 1 implies r0.push(cs.last())[k] != c by {
                if k < r0.len() {
                    assert(r0.push(cs.last())[k] == r0[k]);
                }
            }
        }
    }
}




/// Whether `s` starts with `p`.
pub open spec fn has_prefix(s: Seq<u8>, p: Seq<u8>) -> bool {
    p.len() <= s.len() && s.subrange(0, p.len() as int) == p
}

/// The parts joined with `sep` between each two.
pub open spec fn join_with(parts: Seq<Seq<u8>>, sep: Seq<u8>) -> Seq<u8>
    decreases parts.len(),
{
    if parts.len() == 0 {
        Seq::empty()
    } else if parts.len() == 1 {
        parts[0]
    } else {
        join_with(parts.drop_last(), sep) + sep + parts.last()
    }
}

proof fn lemma_join_push(parts: Seq<Seq<u8>>, sep: Seq<u8>, x: Seq<u8>)
    ensures
        join_with(parts.push(x), sep) == (if parts.len() == 0 { x } else { join_with(parts, sep) + sep + x }),
{
    assert(parts.push(x).drop_last() =~= parts);
}

/// Process IDs in decimal.
pub open spec fn pid_texts(ps: Seq<u32>) -> Seq<Seq<u8>> {
    ps.map_values(|p: u32| dec(p as nat))
}

/// `1` or `0`.
pub open spec fn bit_text(b: bool) -> Seq<u8> {
    if b { /* "1" */ seq![49u8] } else { /* "0" */ seq![48u8] }
}

/// What reading a file of group `g` gives: the core `cgroup.*` files, or
/// a controller's file after its `memory.`, `cpu.`, `io.` or `pids.` prefix.
pub open spec fn group_read(g: CgroupView, file: Seq<u8>) -> Result<Seq<u8>, CgroupError> {
    if file == /* "cgroup.type" */ seq![99u8, 103u8, 114u8, 111u8, 117u8, 112u8, 46u8, 116u8, 121u8, 112u8, 101u8] {
        Ok(/* "domain" */ seq![100u8, 111u8, 109u8, 97u8, 105u8, 110u8])
    } else if file == /* "cgroup.procs" */ seq![99u8, 103u8, 114u8, 111u8, 117u8, 112u8, 46u8, 112u8, 114u8, 111u8, 99u8, 115u8] {
        Ok(join_with(pid_texts(g.procs), /* "\n" */ seq![10u8]))
    } else if file == /* "cgroup.controllers" */ seq![99u8, 103u8, 114u8, 111u8, 117u8, 112u8, 46u8, 99u8, 111u8, 110u8, 116u8, 114u8, 111u8, 108u8, 108u8, 101u8, 114u8, 115u8] || file == /* "cgroup.subtree_control" */ seq![99u8, 103u8, 114u8, 111u8, 117u8, 112u8, 46u8, 115u8, 117u8, 98u8, 116u8, 114u8, 101u8, 101u8, 95u8, 99u8, 111u8, 110u8, 116u8, 114u8, 111u8, 108u8] {
        Ok(join_with(controller_names(g.controllers), /* " " */ seq![32u8]))
    } else if file == /* "cgroup.events" */ seq![99u8, 103u8, 114u8, 111u8, 117u8, 112u8, 46u8, 101u8, 118u8, 101u8, 110u8, 116u8, 115u8] {
        Ok(/* "populated " */ seq![112u8, 111u8, 112u8, 117u8, 108u8, 97u8, 116u8, 101u8, 100u8, 32u8] + bit_text(g.populated) + /* "\nfrozen " */ seq![10u8, 102u8, 114u8, 111u8, 122u8, 101u8, 110u8, 32u8] + bit_text(g.frozen))
    } else if file == /* "cgroup.freeze" */ seq![99u8, 103u8, 114u8, 111u8, 117u8, 112u8, 46u8, 102u8, 114u8, 101u8, 101u8, 122u8, 101u8] {
        Ok(bit_text(g.frozen))
    } else if has_prefix(file, /* "memory." */ seq![109u8, 101u8, 109u8, 111u8, 114u8, 121u8, 46u8]) {
        memory::memory_read(g.memory, file.subrange(7, file.len() as int))
    } else if has_prefix(file, /* "cpu." */ seq![99u8, 112u8, 117u8, 46u8]) {
        cpu::cpu_read(g.cpu, file.subrange(4, file.len() as int))
    } else if has_prefix(file, /* "io." */ seq![105u8, 111u8, 46u8]) {
        io::io_read(g.io, file.subrange(3, file.len() as int))
    } else if has_prefix(file, /* "pids." */ seq![112u8, 105u8, 100u8, 115u8, 46u8]) {
        pids::pids_read(g.pids, file.subrange(5, file.len() as int))
    } else {
        Err(CgroupError::NotFound)
    }
}

/// What reading a file of the group `path` gives.
pub open spec fn hierarchy_read(h: HierarchyView, path: Seq<u8>, file: Seq<u8>) -> Result<Seq<u8>, CgroupError> {
    let i = key_pos(h.groups, path);
    if i >= h.groups.len() { Err(CgroupError::NotFound) } else { group_read(h.groups[i].1, file) }
}

/// Append the process IDs, one per line.
fn push_pid_lines(out: &mut Vec<u8>, ps: &Vec<u32>)
    ensures
        final(out)@ == old(out)@ + join_with(pid_texts(ps@), /* "\n" */ seq![10u8]),
{
    let ghost base = out@;
    let mut i: usize = 0;
    assert(pid_texts(ps@.subrange(0, 0)) =~= Seq::<Seq<u8>>::empty());
    while i < ps.len()
        invariant
            i <= ps@.len(),
            out@ == base + join_with(pid_texts(ps@.subrange(0, i as int)), /* "\n" */ seq![10u8]),
        decreases ps@.len() - i,
    {
        proof {
            assert(pid_texts(ps@.subrange(0, i + 1)) =~= pid_texts(ps@.subrange(0, i as int)).push(dec(ps@[i as int] as nat)));
            lemma_join_push(pid_texts(ps@.subrange(0, i as int)), /* "\n" */ seq![10u8], dec(ps@[i as int] as nat));
        }
        if i > 0 {
            out.push(10);
        }
        push_dec(out, ps[i] as u64);
        assert(out@ =~= base + join_with(pid_texts(ps@.subrange(0, i + 1)), /* "\n" */ seq![10u8]));
        i = i + 1;
    }
    assert(ps@.subrange(0, ps@.len() as int) =~= ps@);
}

/// Append the controller names, separated by spaces.
fn push_controller_names(out: &mut Vec<u8>, cs: &Vec<ControllerType>)
    ensures
        final(out)@ == old(out)@ + join_with(controller_names(cs@), /* " " */ seq![32u8]),
{
    let ghost base = out@;
    let mut i: usize = 0;
    assert(controller_names(cs@.subrange(0, 0)) =~= Seq::<Seq<u8>>::empty());
    while i < cs.len()
        invariant
            i <= cs@.len(),
            out@ == base + join_with(controller_names(cs@.subrange(0, i as int)), /* " " */ seq![32u8]),
        decreases cs@.len() - i,
    {
        proof {
            assert(controller_names(cs@.subrange(0, i + 1)) =~= controller_names(cs@.subrange(0, i as int)).push(controller_name(cs@[i as int])));
            lemma_join_push(controller_names(cs@.subrange(0, i as int)), /* " " */ seq![32u8], controller_name(cs@[i as int]));
        }
        if i > 0 {
            out.push(32);
        }
        let n = cs[i].name();
        extend_bytes(out, n.as_slice());
        assert(out@ =~= base + join_with(controller_names(cs@.subrange(0, i + 1)), /* " " */ seq![32u8]));
        i = i + 1;
    }
    assert(cs@.subrange(0, cs@.len() as int) =~= cs@);
}

/// Append `1` or `0`.
fn push_bit(out: &mut Vec<u8>, b: bool)
    ensures
        final(out)@ == old(out)@ + bit_text(b),
{
    out.push(if b { 49u8 } else { 48u8 });
    assert(final(out)@ =~= old(out)@ + bit_text(b));
}

/// Read a file of one group
fn read_group(g: &Cgroup, file: &[u8]) -> (r: Result<Vec<u8>, CgroupError>)
    ensures
        res_bytes(r) == group_read(g@, file@),
{
    let mut out: Vec<u8> = Vec::new();
    if bytes_equal(file, /* "cgroup.type" */ [99u8, 103u8, 114u8, 111u8, 117u8, 112u8, 46u8, 116u8, 121u8, 112u8, 101u8].as_slice()) {
        extend_bytes(&mut out, /* "domain" */ [100u8, 111u8, 109u8, 97u8, 105u8, 110u8].as_slice());
    } else if bytes_equal(file, /* "cgroup.procs" */ [99u8, 103u8, 114u8, 111u8, 117u8, 112u8, 46u8, 112u8, 114u8, 111u8, 99u8, 115u8].as_slice()) {
        push_pid_lines(&mut out, &g.procs);
    } else if bytes_equal(file, /* "cgroup.controllers" */ [99u8, 103u8, 114u8, 111u8, 117u8, 112u8, 46u8, 99u8, 111u8, 110u8, 116u8, 114u8, 111u8, 108u8, 108u8, 101u8, 114u8, 115u8].as_slice()) || bytes_equal(file, /* "cgroup.subtree_control" */ [99u8, 103u8, 114u8, 111u8, 117u8, 112u8, 46u8, 115u8, 117u8, 98u8, 116u8, 114u8, 101u8, 101u8, 95u8, 99u8, 111u8, 110u8, 116u8, 114u8, 111u8, 108u8].as_slice()) {
        push_controller_names(&mut out, &g.controllers);
    } else if bytes_equal(file, /* "cgroup.events" */ [99u8, 103u8, 114u8, 111u8, 117u8, 112u8, 46u8, 101u8, 118u8, 101u8, 110u8, 116u8, 115u8].as_slice()) {
        extend_bytes(&mut out, /* "populated " */ [112u8, 111u8, 112u8, 117u8, 108u8, 97u8, 116u8, 101u8, 100u8, 32u8].as_slice());
        push_bit(&mut out, g.populated);
        extend_bytes(&mut out, /* "\nfrozen " */ [10u8, 102u8, 114u8, 111u8, 122u8, 101u8, 110u8, 32u8].as_slice());
        push_bit(&mut out, g.frozen);
    } else if bytes_equal(file, /* "cgroup.freeze" */ [99u8, 103u8, 114u8, 111u8, 117u8, 112u8, 46u8, 102u8, 114u8, 101u8, 101u8, 122u8, 101u8].as_slice()) {
        push_bit(&mut out, g.frozen);
    } else if starts_with(file, /* "memory." */ [109u8, 101u8, 109u8, 111u8, 114u8, 121u8, 46u8].as_slice()) {
        let rest = copy_range(file, 7, file.len());
        return memory::read_file(&g.memory, rest.as_slice());
    } else if starts_with(file, /* "cpu." */ [99u8, 112u8, 117u8, 46u8].as_slice()) {
        let rest = copy_range(file, 4, file.len());
        return cpu::read_file(&g.cpu, rest.as_slice());
    } else if starts_with(file, /* "io." */ [105u8, 111u8, 46u8].as_slice()) {
        let rest = copy_range(file, 3, file.len());
        return io::read_file(&g.io, rest.as_slice());
    } else if starts_with(file, /* "pids." */ [112u8, 105u8, 100u8, 115u8, 46u8].as_slice()) {
        let rest = copy_range(file, 5, file.len());
        return pids::read_file(&g.pids, rest.as_slice());
    } else {
        return Err(CgroupError::NotFound);
    }
    assert(res_bytes(Ok::<Vec<u8>, CgroupError>(out)) =~= group_read(g@, file@));
    Ok(out)
}

/// Read a cgroup file (for cgroup filesystem)
pub fn read_file(h: &CgroupHierarchy, path: &[u8], file: &[u8]) -> (r: Result<Vec<u8>, CgroupError>)
    ensures
        res_bytes(r) == hierarchy_read(h@, path@, file@),
{
    let i = h.find(path);
    if i >= h.groups.len() {
        return Err(CgroupError::NotFound);
    }
    assert(h@.groups[i as int].1 == h.groups@[i as int].1@);
    read_group(&h.groups[i].1, file)
}

/// The controllers after one `+name` or `-name` word: a known name is
/// added or taken out, anything else changes nothing.
pub open spec fn subtree_word(cs: Seq<ControllerType>, w: Seq<u8>) -> Seq<ControllerType> {
    if w.len() > 0 && w[0] == 43 {
        match controller_of_name(w.drop_first()) {
            Some(c) => cs.push(c),
            None => cs,
        }
    } else if w.len() > 0 && w[0] == 45 {
        match controller_of_name(w.drop_first()) {
            Some(c) => without_controller(cs, c),
            None => cs,
        }
    } else {
        cs
    }
}

/// The controllers after the words `ws`, taken in order.
pub open spec fn subtree_words(cs: Seq<ControllerType>, ws: Seq<Seq<u8>>) -> Seq<ControllerType>
    decreases ws.len(),
{
    if ws.len() == 0 { cs } else { subtree_words(subtree_word(cs, ws[0]), ws.drop_first()) }
}

/// Group `g` after writing `value` to one of its files (other than
/// `cgroup.procs`), or why not.
pub open spec fn group_write(g: CgroupView, file: Seq<u8>, value: Seq<u8>) -> Result<CgroupView, CgroupError> {
    if file == /* "cgroup.subtree_control" */ seq![99u8, 103u8, 114u8, 111u8, 117u8, 112u8, 46u8, 115u8, 117u8, 98u8, 116u8, 114u8, 101u8, 101u8, 95u8, 99u8, 111u8, 110u8, 116u8, 114u8, 111u8, 108u8] {
        Ok(CgroupView { controllers: subtree_words(g.controllers, words(value)), ..g })
    } else if file == /* "cgroup.freeze" */ seq![99u8, 103u8, 114u8, 111u8, 117u8, 112u8, 46u8, 102u8, 114u8, 101u8, 101u8, 122u8, 101u8] {
        if trim(value) == /* "1" */ seq![49u8] {
            Ok(CgroupView { frozen: true, freezer: freezer::frozen_freezer(g.freezer, g.procs.len()), ..g })
        } else {
            Ok(CgroupView { frozen: false, freezer: freezer::thawed_freezer(g.freezer), ..g })
        }
    } else if has_prefix(file, /* "memory." */ seq![109u8, 101u8, 109u8, 111u8, 114u8, 121u8, 46u8]) {
        match memory::memory_write(g.memory, file.subrange(7, file.len() as int), value) {
            Ok(m) => Ok(CgroupView { memory: m, ..g }),
            Err(e) => Err(e),
        }
    } else if has_prefix(file, /* "cpu." */ seq![99u8, 112u8, 117u8, 46u8]) {
        match cpu::cpu_write(g.cpu, file.subrange(4, file.len() as int), value) {
            Ok(c) => Ok(CgroupView { cpu: c, ..g }),
            Err(e) => Err(e),
        }
    } else if has_prefix(file, /* "io." */ seq![105u8, 111u8, 46u8]) {
        match io::io_write(g.io, file.subrange(3, file.len() as int), value) {
            Ok(c) => Ok(CgroupView { io: c, ..g }),
            Err(e) => Err(e),
        }
    } else if has_prefix(file, /* "pids." */ seq![112u8, 105u8, 100u8, 115u8, 46u8]) {
        match pids::pids_write(g.pids, file.subrange(5, file.len() as int), value) {
            Ok(c) => Ok(CgroupView { pids: c, ..g }),
            Err(e) => Err(e),
        }
    } else {
        Err(CgroupError::NotFound)
    }
}

/// The hierarchy after writing `value` to a file of group `path`, or why
/// not: writing a process ID to `cgroup.procs` moves that process into
/// the group.
pub open spec fn hierarchy_write(h: HierarchyView, path: Seq<u8>, file: Seq<u8>, value: Seq<u8>) -> Result<HierarchyView, CgroupError> {
    let s = h.groups;
    let i = key_pos(s, path);
    if i >= s.len() {
        Err(CgroupError::NotFound)
    } else if file == /* "cgroup.procs" */ seq![99u8, 103u8, 114u8, 111u8, 117u8, 112u8, 46u8, 112u8, 114u8, 111u8, 99u8, 115u8] {
        match parse_unsigned(trim(value), u32::MAX as nat) {
            Some(pid) => Ok(hierarchy_attach(h, path, pid as u32).0),
            None => Err(CgroupError::InvalidPath),
        }
    } else {
        match group_write(s[i].1, file, value) {
            Ok(g) => Ok(HierarchyView { groups: s.update(i, (s[i].0, g)), ..h }),
            Err(e) => Err(e),
        }
    }
}

/// Apply `+name` / `-name` words to a group's controllers
fn apply_subtree_words(g: &mut Cgroup, value: &[u8])
    ensures
        final(g)@ == (CgroupView { controllers: subtree_words(old(g)@.controllers, words(value@)), ..old(g)@ }),
{
    let parts = split_words(value);
    let ghost ws = texts_view(parts@);
    let ghost n = ws.len() as int;
    let mut i: usize = 0;
    assert(ws.subrange(0, n) =~= ws);
    while i < parts.len()
        invariant
            ws == texts_view(parts@),
            n == ws.len(),
            ws == words(value@),
            i <= n,
            subtree_words(old(g)@.controllers, ws) == subtree_words(g@.controllers, ws.subrange(i as int, n)),
            g@ == (CgroupView { controllers: g@.controllers, ..old(g)@ }),
        decreases n - i,
    {
        let p = parts[i].as_slice();
        assert(ws[i as int] == p@);
        assert(ws.subrange(i as int, n)[0] == ws[i as int]);
        assert(ws.subrange(i as int, n).drop_first() =~= ws.subrange(i + 1, n));
        if p.len() > 0 && p[0] == 43 {
            let name = copy_range(p, 1, p.len());
            assert(name@ =~= p@.drop_first());
            match ControllerType::from_name(name.as_slice()) {
                Some(c) => g.controllers.push(c),
                None => {},
            }
        } else if p.len() > 0 && p[0] == 45 {
            let name = copy_range(p, 1, p.len());
            assert(name@ =~= p@.drop_first());
            match ControllerType::from_name(name.as_slice()) {
                Some(c) => {
                    let kept = remove_controller(&g.controllers, c);
                    g.controllers = kept;
                },
                None => {},
            }
        }
        i = i + 1;
    }
    assert(ws.subrange(i as int, n) =~= Seq::<Seq<u8>>::empty());
}

/// Write a file of one group (other than `cgroup.procs`)
#[verifier::spinoff_prover]
#[verifier::rlimit(60)]
fn write_group(g: &mut Cgroup, file: &[u8], value: &[u8]) -> (r: Result<(), CgroupError>)
    requires
        file@ == /* "cpu.max" */ seq![99u8, 112u8, 117u8, 46u8, 109u8, 97u8, 120u8] ==> words(trim(value@)).len() > 0,
    ensures
        match group_write(old(g)@, file@, value@) {
            Ok(g2) => r is Ok && final(g)@ == g2,
            Err(e) => r == Err::<(), CgroupError>(e) && final(g)@ == old(g)@,
        },
{
    if bytes_equal(file, /* "cgroup.subtree_control" */ [99u8, 103u8, 114u8, 111u8, 117u8, 112u8, 46u8, 115u8, 117u8, 98u8, 116u8, 114u8, 101u8, 101u8, 95u8, 99u8, 111u8, 110u8, 116u8, 114u8, 111u8, 108u8].as_slice()) {
        apply_subtree_words(g, value);
        Ok(())
    } else if bytes_equal(file, /* "cgroup.freeze" */ [99u8, 103u8, 114u8, 111u8, 117u8, 112u8, 46u8, 102u8, 114u8, 101u8, 101u8, 122u8, 101u8].as_slice()) {
        let v = trim_bytes(value);
        let one = [49u8];
        assert(one@ =~= /* "1" */ seq![49u8]);
        let frozen = bytes_equal(v.as_slice(), one.as_slice());
        g.frozen = frozen;
        if frozen {
            freezer::freeze_cgroup(g)
        } else {
            freezer::thaw_cgroup(g)
        }
    } else if starts_with(file, /* "memory." */ [109u8, 101u8, 109u8, 111u8, 114u8, 121u8, 46u8].as_slice()) {
        let rest = copy_range(file, 7, file.len());
        memory::write_file(&mut g.memory, rest.as_slice(), value)
    } else if starts_with(file, /* "cpu." */ [99u8, 112u8, 117u8, 46u8].as_slice()) {
        let rest = copy_range(file, 4, file.len());
        proof {
            assert(file@ =~= file@.subrange(0, 4) + rest@);
            if rest@ == /* "max" */ seq![109u8, 97u8, 120u8] {
                assert(file@.subrange(0, 4) =~= /* "cpu." */ seq![99u8, 112u8, 117u8, 46u8]);
                assert(file@ =~= /* "cpu.max" */ seq![99u8, 112u8, 117u8, 46u8, 109u8, 97u8, 120u8]);
            }
        }
        cpu::write_file(&mut g.cpu, rest.as_slice(), value)
    } else if starts_with(file, /* "io." */ [105u8, 111u8, 46u8].as_slice()) {
        let rest = copy_range(file, 3, file.len());
        io::write_file(&mut g.io, rest.as_slice(), value)
    } else if starts_with(file, /* "pids." */ [112u8, 105u8, 100u8, 115u8, 46u8].as_slice()) {
        let rest = copy_range(file, 5, file.len());
        pids::write_file(&mut g.pids, rest.as_slice(), value)
    } else {
        Err(CgroupError::NotFound)
    }
}

/// Attaching a process to a group that exists succeeds.
proof fn lemma_attach_existing(h: HierarchyView, path: Seq<u8>, pid: u32)
    requires
        key_pos(h.groups, path) < h.groups.len(),
    ensures
        hierarchy_attach(h, path, pid).1 is Ok,
{
    let s1 = h.groups.map_values(|e: (Seq<u8>, CgroupView)| detached(e, pid));
    lemma_key_pos(h.groups, path);
    lemma_key_pos(s1, path);
    let k = key_pos(h.groups, path);
    assert(s1[k].0 == path);
}

/// Write a cgroup file. Writing `cpu.max` of an existing group needs at
/// least one word.
pub fn write_file(h: &mut CgroupHierarchy, path: &[u8], file: &[u8], value: &[u8]) -> (r: Result<(), CgroupError>)
    requires
        key_pos(old(h)@.groups, path@) < old(h)@.groups.len() && file@ == /* "cpu.max" */ seq![99u8, 112u8, 117u8, 46u8, 109u8, 97u8, 120u8] ==> words(trim(value@)).len() > 0,
    ensures
        match hierarchy_write(old(h)@, path@, file@, value@) {
            Ok(h2) => r is Ok && final(h)@ == h2,
            Err(e) => r == Err::<(), CgroupError>(e) && final(h)@ == old(h)@,
        },
        hierarchy_wf(old(h)@) ==> hierarchy_wf(final(h)@),
{
    let i = h.find(path);
    if i >= h.groups.len() {
        return Err(CgroupError::NotFound);
    }
    if bytes_equal(file, /* "cgroup.procs" */ [99u8, 103u8, 114u8, 111u8, 117u8, 112u8, 46u8, 112u8, 114u8, 111u8, 99u8, 115u8].as_slice()) {
        let v = trim_bytes(value);
        let pid = match parse_u32(v.as_slice()) {
            Some(p) => p,
            None => return Err(CgroupError::InvalidPath),
        };
        proof {
            lemma_attach_existing(old(h)@, path@, pid);
        }
        return attach_process(h, path, pid);
    }
    let ghost s = h@.groups;
    let (k, mut g) = h.groups.remove(i);
    assert(s[i as int] == (k@, g@));
    let r = write_group(&mut g, file, value);
    h.groups.insert(i, (k, g));
    assert(h@.groups =~= s.update(i as int, (s[i as int].0, g@)));
    proof {
        if r is Err {
            assert(h@.groups =~= s);
        }
        if hierarchy_wf(old(h)@) {
            lemma_wf_same_links(s, h@.groups);
        }
    }
    r
}

/// Reading `cgroup.freeze` after writing it gives `1` when `1` was
/// written and `0` otherwise.
pub proof fn lemma_freeze_write_then_read(h: HierarchyView, path: Seq<u8>, value: Seq<u8>)
    requires
        key_pos(h.groups, path) < h.groups.len(),
    ensures
        hierarchy_write(h, path, /* "cgroup.freeze" */ seq![99u8, 103u8, 114u8, 111u8, 117u8, 112u8, 46u8, 102u8, 114u8, 101u8, 101u8, 122u8, 101u8], value) matches Ok(h2)
            && hierarchy_read(h2, path, /* "cgroup.freeze" */ seq![99u8, 103u8, 114u8, 111u8, 117u8, 112u8, 46u8, 102u8, 114u8, 101u8, 101u8, 122u8, 101u8]) == Ok::<Seq<u8>, CgroupError>(bit_text(trim(value) == /* "1" */ seq![49u8])),
{
    let s = h.groups;
    let i = key_pos(s, path);
    lemma_key_pos(s, path);
    let h2 = hierarchy_write(h, path, /* "cgroup.freeze" */ seq![99u8, 103u8, 114u8, 111u8, 117u8, 112u8, 46u8, 102u8, 114u8, 101u8, 101u8, 122u8, 101u8], value)->Ok_0;
    assert(key_pos(h2.groups, path) == i) by {
        lemma_key_pos(h2.groups, path);
        let k = key_pos(h2.groups, path);
        if k < i {
            assert(h2.groups[k].0 == s[k].0);
        } else if k > i {
            assert(h2.groups[i].0 == path);
        }
    }
}

/// Writing a controller file through the hierarchy and reading it back
/// gives what the controller itself gives for the same write and read.
pub proof fn lemma_memory_write_then_read(h: HierarchyView, path: Seq<u8>, file: Seq<u8>, value: Seq<u8>, read: Seq<u8>)
    requires
        key_pos(h.groups, path) < h.groups.len(),
        memory::memory_write(h.groups[key_pos(h.groups, path)].1.memory, file, value) is Ok,
    ensures
        hierarchy_write(h, path, /* "memory." */ seq![109u8, 101u8, 109u8, 111u8, 114u8, 121u8, 46u8] + file, value) matches Ok(h2)
            && hierarchy_read(h2, path, /* "memory." */ seq![109u8, 101u8, 109u8, 111u8, 114u8, 121u8, 46u8] + read)
                == memory::memory_read(memory::memory_write(h.groups[key_pos(h.groups, path)].1.memory, file, value)->Ok_0, read),
{
    let s = h.groups;
    let i = key_pos(s, path);
    lemma_key_pos(s, path);
    let f = /* "memory." */ seq![109u8, 101u8, 109u8, 111u8, 114u8, 121u8, 46u8] + file;
    let rd = /* "memory." */ seq![109u8, 101u8, 109u8, 111u8, 114u8, 121u8, 46u8] + read;
    assert(f.subrange(0, 7) =~= /* "memory." */ seq![109u8, 101u8, 109u8, 111u8, 114u8, 121u8, 46u8]);
    assert(f.subrange(7, f.len() as int) =~= file);
    assert(rd.subrange(0, 7) =~= /* "memory." */ seq![109u8, 101u8, 109u8, 111u8, 114u8, 121u8, 46u8]);
    assert(rd.subrange(7, rd.len() as int) =~= read);
    assert(f != /* "cgroup.procs" */ seq![99u8, 103u8, 114u8, 111u8, 117u8, 112u8, 46u8, 112u8, 114u8, 111u8, 99u8, 115u8]) by {
        assert(f[0] != /* "cgroup.procs" */ seq![99u8, 103u8, 114u8, 111u8, 117u8, 112u8, 46u8, 112u8, 114u8, 111u8, 99u8, 115u8][0]);
    }
    assert(f != /* "cgroup.subtree_control" */ seq![99u8, 103u8, 114u8, 111u8, 117u8, 112u8, 46u8, 115u8, 117u8, 98u8, 116u8, 114u8, 101u8, 101u8, 95u8, 99u8, 111u8, 110u8, 116u8, 114u8, 111u8, 108u8]) by {
        assert(f[0] != /* "cgroup.subtree_control" */ seq![99u8, 103u8, 114u8, 111u8, 117u8, 112u8, 46u8, 115u8, 117u8, 98u8, 116u8, 114u8, 101u8, 101u8, 95u8, 99u8, 111u8, 110u8, 116u8, 114u8, 111u8, 108u8][0]);
    }
    assert(f != /* "cgroup.freeze" */ seq![99u8, 103u8, 114u8, 111u8, 117u8, 112u8, 46u8, 102u8, 114u8, 101u8, 101u8, 122u8, 101u8]) by {
        assert(f[0] != /* "cgroup.freeze" */ seq![99u8, 103u8, 114u8, 111u8, 117u8, 112u8, 46u8, 102u8, 114u8, 101u8, 101u8, 122u8, 101u8][0]);
    }
    assert(rd != /* "cgroup.type" */ seq![99u8, 103u8, 114u8, 111u8, 117u8, 112u8, 46u8, 116u8, 121u8, 112u8, 101u8] && rd != /* "cgroup.procs" */ seq![99u8, 103u8, 114u8, 111u8, 117u8, 112u8, 46u8, 112u8, 114u8, 111u8, 99u8, 115u8] && rd != /* "cgroup.controllers" */ seq![99u8, 103u8, 114u8, 111u8, 117u8, 112u8, 46u8, 99u8, 111u8, 110u8, 116u8, 114u8, 111u8, 108u8, 108u8, 101u8, 114u8, 115u8]
        && rd != /* "cgroup.subtree_control" */ seq![99u8, 103u8, 114u8, 111u8, 117u8, 112u8, 46u8, 115u8, 117u8, 98u8, 116u8, 114u8, 101u8, 101u8, 95u8, 99u8, 111u8, 110u8, 116u8, 114u8, 111u8, 108u8] && rd != /* "cgroup.events" */ seq![99u8, 103u8, 114u8, 111u8, 117u8, 112u8, 46u8, 101u8, 118u8, 101u8, 110u8, 116u8, 115u8] && rd != /* "cgroup.freeze" */ seq![99u8, 103u8, 114u8, 111u8, 117u8, 112u8, 46u8, 102u8, 114u8, 101u8, 101u8, 122u8, 101u8]) by {
        assert(rd[0] == 109u8);
    }
    let h2 = hierarchy_write(h, path, f, value)->Ok_0;
    assert(key_pos(h2.groups, path) == i) by {
        lemma_key_pos(h2.groups, path);
        let k = key_pos(h2.groups, path);
        if k < i {
            assert(h2.groups[k].0 == s[k].0);
        } else if k > i {
            assert(h2.groups[i].0 == path);
        }
    }
}

} // verus!
