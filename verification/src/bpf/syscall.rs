//! The bpf() system call and the registry of loaded programs and maps.
use vstd::prelude::*;
use std::collections::BTreeMap;
use super::BpfError;
use super::maps::{BpfMap, BpfMapType, BpfMapView, MapContents};
use super::programs::{BpfProgram, BpfProgType, BpfProgramView};

verus! {

broadcast use vstd::laws_cmp::group_laws_cmp, vstd::std_specs::btree::group_btree_axioms;

/// BPF command
#[derive(Clone, Copy, Debug, PartialEq, Eq, Structural)]
pub enum BpfCmd {
    /// Create a map
    MapCreate,
    /// Look up element in map
    MapLookupElem,
    /// Update element in map
    MapUpdateElem,
    /// Delete element from map
    MapDeleteElem,
    /// Get next key
    MapGetNextKey,
    /// Load a program
    ProgLoad,
    /// Attach a program
    ProgAttach,
    /// Detach a program
    ProgDetach,
    /// Test run a program
    ProgTestRun,
    /// Get next program ID
    ProgGetNextId,
    /// Get next map ID
    MapGetNextId,
    /// Get program by ID
    ProgGetFdById,
    /// Get map by ID
    MapGetFdById,
    /// Get object info
    ObjGetInfoByFd,
    /// Query program
    ProgQuery,
    /// Raw tracepoint open
    RawTracepointOpen,
    /// BTF load
    BtfLoad,
    /// BTF get fd by ID
    BtfGetFdById,
    /// Task fd query
    TaskFdQuery,
    /// Map freeze
    MapFreeze,
    /// Pin object
    ObjPin,
    /// Get object
    ObjGet,
    /// Link create
    LinkCreate,
    /// Link update
    LinkUpdate,
    /// Link get FD by ID
    LinkGetFdById,
    /// Link get next ID
    LinkGetNextId,
    /// Enable stats
    EnableStats,
    /// Iter create
    IterCreate,
    /// Link detach
    LinkDetach,
    /// Prog bind map
    ProgBindMap,
}

impl BpfCmd {
    /// The numeric code of this value on the wire.
    pub open spec fn code(self) -> u32 {
        match self {
            BpfCmd::MapCreate => 0x0,
            BpfCmd::MapLookupElem => 0x1,
            BpfCmd::MapUpdateElem => 0x2,
            BpfCmd::MapDeleteElem => 0x3,
            BpfCmd::MapGetNextKey => 0x4,
            BpfCmd::ProgLoad => 0x5,
            BpfCmd::ProgAttach => 0x6,
            BpfCmd::ProgDetach => 0x7,
            BpfCmd::ProgTestRun => 0x8,
            BpfCmd::ProgGetNextId => 0x9,
            BpfCmd::MapGetNextId => 0xa,
            BpfCmd::ProgGetFdById => 0xb,
            BpfCmd::MapGetFdById => 0xc,
            BpfCmd::ObjGetInfoByFd => 0xd,
            BpfCmd::ProgQuery => 0xe,
            BpfCmd::RawTracepointOpen => 0xf,
            BpfCmd::BtfLoad => 0x10,
            BpfCmd::BtfGetFdById => 0x11,
            BpfCmd::TaskFdQuery => 0x12,
            BpfCmd::MapFreeze => 0x13,
            BpfCmd::ObjPin => 0x14,
            BpfCmd::ObjGet => 0x15,
            BpfCmd::LinkCreate => 0x16,
            BpfCmd::LinkUpdate => 0x17,
            BpfCmd::LinkGetFdById => 0x18,
            BpfCmd::LinkGetNextId => 0x19,
            BpfCmd::EnableStats => 0x1a,
            BpfCmd::IterCreate => 0x1b,
            BpfCmd::LinkDetach => 0x1c,
            BpfCmd::ProgBindMap => 0x1d,
        }
    }

    /// The numeric code of this value on the wire.
    pub fn to_u32(&self) -> (r: u32)
        ensures
            r == self.code(),
    {
        match self {
            BpfCmd::MapCreate => 0x0,
            BpfCmd::MapLookupElem => 0x1,
            BpfCmd::MapUpdateElem => 0x2,
            BpfCmd::MapDeleteElem => 0x3,
            BpfCmd::MapGetNextKey => 0x4,
            BpfCmd::ProgLoad => 0x5,
            BpfCmd::ProgAttach => 0x6,
            BpfCmd::ProgDetach => 0x7,
            BpfCmd::ProgTestRun => 0x8,
            BpfCmd::ProgGetNextId => 0x9,
            BpfCmd::MapGetNextId => 0xa,
            BpfCmd::ProgGetFdById => 0xb,
            BpfCmd::MapGetFdById => 0xc,
            BpfCmd::ObjGetInfoByFd => 0xd,
            BpfCmd::ProgQuery => 0xe,
            BpfCmd::RawTracepointOpen => 0xf,
            BpfCmd::BtfLoad => 0x10,
            BpfCmd::BtfGetFdById => 0x11,
            BpfCmd::TaskFdQuery => 0x12,
            BpfCmd::MapFreeze => 0x13,
            BpfCmd::ObjPin => 0x14,
            BpfCmd::ObjGet => 0x15,
            BpfCmd::LinkCreate => 0x16,
            BpfCmd::LinkUpdate => 0x17,
            BpfCmd::LinkGetFdById => 0x18,
            BpfCmd::LinkGetNextId => 0x19,
            BpfCmd::EnableStats => 0x1a,
            BpfCmd::IterCreate => 0x1b,
            BpfCmd::LinkDetach => 0x1c,
            BpfCmd::ProgBindMap => 0x1d,
        }
    }

    /// The value whose code is `v`, if any.
    pub open spec fn decode(v: u32) -> Option<BpfCmd> {
        if v == 0x0 { Some(BpfCmd::MapCreate) } else { if v == 0x1 { Some(BpfCmd::MapLookupElem) } else { if v == 0x2 { Some(BpfCmd::MapUpdateElem) } else { if v == 0x3 { Some(BpfCmd::MapDeleteElem) } else { if v == 0x4 { Some(BpfCmd::MapGetNextKey) } else { if v == 0x5 { Some(BpfCmd::ProgLoad) } else { if v == 0x6 { Some(BpfCmd::ProgAttach) } else { if v == 0x7 { Some(BpfCmd::ProgDetach) } else { if v == 0x8 { Some(BpfCmd::ProgTestRun) } else { if v == 0x9 { Some(BpfCmd::ProgGetNextId) } else { if v == 0xa { Some(BpfCmd::MapGetNextId) } else { if v == 0xb { Some(BpfCmd::ProgGetFdById) } else { if v == 0xc { Some(BpfCmd::MapGetFdById) } else { if v == 0xd { Some(BpfCmd::ObjGetInfoByFd) } else { if v == 0xe { Some(BpfCmd::ProgQuery) } else { if v == 0xf { Some(BpfCmd::RawTracepointOpen) } else { if v == 0x10 { Some(BpfCmd::BtfLoad) } else { if v == 0x11 { Some(BpfCmd::BtfGetFdById) } else { if v == 0x12 { Some(BpfCmd::TaskFdQuery) } else { if v == 0x13 { Some(BpfCmd::MapFreeze) } else { if v == 0x14 { Some(BpfCmd::ObjPin) } else { if v == 0x15 { Some(BpfCmd::ObjGet) } else { if v == 0x16 { Some(BpfCmd::LinkCreate) } else { if v == 0x17 { Some(BpfCmd::LinkUpdate) } else { if v == 0x18 { Some(BpfCmd::LinkGetFdById) } else { if v == 0x19 { Some(BpfCmd::LinkGetNextId) } else { if v == 0x1a { Some(BpfCmd::EnableStats) } else { if v == 0x1b { Some(BpfCmd::IterCreate) } else { if v == 0x1c { Some(BpfCmd::LinkDetach) } else { if v == 0x1d { Some(BpfCmd::ProgBindMap) } else { None } } } } } } } } } } } } } } } } } } } } } } } } } } } } } }
    }

    /// The value whose code is `v`, if any.
    pub fn from_u32(v: u32) -> (r: Option<BpfCmd>)
        ensures
            r == BpfCmd::decode(v),
    {
        match v {
            0x0 => Some(BpfCmd::MapCreate),
            0x1 => Some(BpfCmd::MapLookupElem),
            0x2 => Some(BpfCmd::MapUpdateElem),
            0x3 => Some(BpfCmd::MapDeleteElem),
            0x4 => Some(BpfCmd::MapGetNextKey),
            0x5 => Some(BpfCmd::ProgLoad),
            0x6 => Some(BpfCmd::ProgAttach),
            0x7 => Some(BpfCmd::ProgDetach),
            0x8 => Some(BpfCmd::ProgTestRun),
            0x9 => Some(BpfCmd::ProgGetNextId),
            0xa => Some(BpfCmd::MapGetNextId),
            0xb => Some(BpfCmd::ProgGetFdById),
            0xc => Some(BpfCmd::MapGetFdById),
            0xd => Some(BpfCmd::ObjGetInfoByFd),
            0xe => Some(BpfCmd::ProgQuery),
            0xf => Some(BpfCmd::RawTracepointOpen),
            0x10 => Some(BpfCmd::BtfLoad),
            0x11 => Some(BpfCmd::BtfGetFdById),
            0x12 => Some(BpfCmd::TaskFdQuery),
            0x13 => Some(BpfCmd::MapFreeze),
            0x14 => Some(BpfCmd::ObjPin),
            0x15 => Some(BpfCmd::ObjGet),
            0x16 => Some(BpfCmd::LinkCreate),
            0x17 => Some(BpfCmd::LinkUpdate),
            0x18 => Some(BpfCmd::LinkGetFdById),
            0x19 => Some(BpfCmd::LinkGetNextId),
            0x1a => Some(BpfCmd::EnableStats),
            0x1b => Some(BpfCmd::IterCreate),
            0x1c => Some(BpfCmd::LinkDetach),
            0x1d => Some(BpfCmd::ProgBindMap),
            _ => None,
        }
    }

    /// Decoding the code of a value gives the value back.
    pub proof fn lemma_code_roundtrip(self)
        ensures
            BpfCmd::decode(self.code()) == Some(self),
    {
    }

}


/// Loaded programs and maps, and the IDs the next ones get.
pub struct BpfRegistry {
    /// Loaded BPF programs
    programs: BTreeMap<u32, BpfProgram>,
    /// BPF maps
    maps: BTreeMap<u32, BpfMap>,
    /// Next program ID
    next_prog_id: u32,
    /// Next map ID
    next_map_id: u32,
}

impl BpfRegistry {
    /// Loaded programs by ID.
    pub closed spec fn programs(&self) -> Map<u32, BpfProgram> {
        self.programs@
    }

    /// Maps by ID.
    pub closed spec fn maps(&self) -> Map<u32, BpfMap> {
        self.maps@
    }

    /// The ID the next program gets.
    pub closed spec fn next_prog_id(&self) -> u32 {
        self.next_prog_id
    }

    /// The ID the next map gets.
    pub closed spec fn next_map_id(&self) -> u32 {
        self.next_map_id
    }
}

/// The BPF subsystem as it starts: nothing loaded, IDs from 1.
pub fn init() -> (r: BpfRegistry)
    ensures
        r.programs() == Map::<u32, BpfProgram>::empty(),
        r.maps() == Map::<u32, BpfMap>::empty(),
        r.next_prog_id() == 1,
        r.next_map_id() == 1,
{
    BpfRegistry { programs: BTreeMap::new(), maps: BTreeMap::new(), next_prog_id: 1, next_map_id: 1 }
}

/// bpf() syscall: command 0 creates a hash map (8-byte keys and values,
/// 1024 entries), command 5 loads an empty socket filter; both answer the
/// new object's ID. Other commands are refused.
pub fn sys_bpf(reg: &mut BpfRegistry, cmd: u32, attr: u64, size: u32) -> (r: Result<i32, BpfError>)
    ensures
        cmd == 0 ==> {
            let id = old(reg).next_map_id();
            &&& r == Ok::<i32, BpfError>(id as i32)
            &&& final(reg).next_map_id() == id.wrapping_add(1)
            &&& final(reg).next_prog_id() == old(reg).next_prog_id()
            &&& final(reg).programs() == old(reg).programs()
            &&& final(reg).maps().dom() == old(reg).maps().dom().insert(id)
            &&& final(reg).maps()[id].wf()
            &&& final(reg).maps()[id]@ == (BpfMapView {
                id,
                map_type: BpfMapType::Hash,
                key_size: 8,
                value_size: 8,
                max_entries: 1024,
                refs: 1,
                contents: MapContents::Hash(Map::empty()),
            })
            &&& forall|k: u32| k != id && old(reg).maps().dom().contains(k) ==> final(reg).maps()[k] == old(reg).maps()[k]
        },
        cmd == 5 ==> {
            let id = old(reg).next_prog_id();
            &&& r == Ok::<i32, BpfError>(id as i32)
            &&& final(reg).next_prog_id() == id.wrapping_add(1)
            &&& final(reg).next_map_id() == old(reg).next_map_id()
            &&& final(reg).maps() == old(reg).maps()
            &&& final(reg).programs().dom() == old(reg).programs().dom().insert(id)
            &&& final(reg).programs()[id]@ == (BpfProgramView {
                id,
                prog_type: BpfProgType::SocketFilter,
                insns: Seq::empty(),
                jited: None,
                name: Seq::empty(),
                attach_type: None,
                license: "GPL"@,
                run_count: 0,
                run_time_ns: 0,
                refs: 1,
            })
            &&& forall|k: u32| k != id && old(reg).programs().dom().contains(k) ==> final(reg).programs()[k] == old(reg).programs()[k]
        },
        cmd != 0 && cmd != 5 ==> r == Err::<i32, BpfError>(BpfError::InvalidProgram) && *final(reg) == *old(reg),
{
    if cmd == 0 {
        let map_id = reg.next_map_id;
        reg.next_map_id = reg.next_map_id.wrapping_add(1);
        let map = BpfMap::new(map_id, BpfMapType::Hash, 8, 8, 1024);
        reg.maps.insert(map_id, map);
        Ok(map_id as i32)
    } else if cmd == 5 {
        let prog_id = reg.next_prog_id;
        reg.next_prog_id = reg.next_prog_id.wrapping_add(1);
        let prog = BpfProgram::new(prog_id, BpfProgType::SocketFilter, Vec::new());
        reg.programs.insert(prog_id, prog);
        Ok(prog_id as i32)
    } else {
        Err(BpfError::InvalidProgram)
    }
}

} // verus!
