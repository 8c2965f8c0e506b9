//! BPF maps: hash tables kept in key order, arrays, queues, stacks and a
//! ring buffer.
//!
//! A hash map keeps its entries sorted by key in byte-wise lexicographic
//! order, so that walking it with `get_next_key` visits the keys in
//! increasing order. Array indices are the first four key bytes read as a
//! little-endian `u32`.
use vstd::prelude::*;
use vstd::slice::slice_to_vec;
use super::BpfError;
use crate::wire::{from_le32, le32, make_u32, push_u32_le};
use crate::text::{key_lt, key_less, bytes_equal, lemma_key_lt_irreflexive, lemma_key_lt_transitive,
    lemma_key_lt_total, lemma_key_lt_asymmetric};

pub mod map_flags;

verus! {

/// BPF map types
#[derive(Clone, Copy, Debug, PartialEq, Eq, Structural)]
pub enum BpfMapType {
    /// Unspecified
    Unspec,
    /// Hash table
    Hash,
    /// Array
    Array,
    /// Program array (tail calls)
    ProgArray,
    /// Perf event array
    PerfEventArray,
    /// Per-CPU hash
    PercpuHash,
    /// Per-CPU array
    PercpuArray,
    /// Stack trace
    StackTrace,
    /// cgroup array
    CgroupArray,
    /// LRU hash
    LruHash,
    /// LRU per-CPU hash
    LruPercpuHash,
    /// LPM trie
    LpmTrie,
    /// Array of maps
    ArrayOfMaps,
    /// Hash of maps
    HashOfMaps,
    /// Device map
    Devmap,
    /// Socket map
    Sockmap,
    /// CPU map
    Cpumap,
    /// Xsk map
    Xskmap,
    /// Socket hash
    Sockhash,
    /// cgroup storage
    CgroupStorage,
    /// Reuseport socket array
    ReuseportSockarray,
    /// Per-CPU cgroup storage
    PercpuCgroupStorage,
    /// Queue
    Queue,
    /// Stack
    Stack,
    /// Socket local storage
    SkStorage,
    /// Device map hash
    DevmapHash,
    /// Struct ops
    StructOps,
    /// Ring buffer
    Ringbuf,
    /// Inode storage
    InodeStorage,
    /// Task storage
    TaskStorage,
    /// Bloom filter
    BloomFilter,
    /// User ring buffer
    UserRingbuf,
    /// cgroup storage (v2)
    CgroupStorageV2,
}

impl BpfMapType {
    /// The numeric code of this value on the wire.
    pub open spec fn code(self) -> u32 {
        match self {
            BpfMapType::Unspec => 0x0,
            BpfMapType::Hash => 0x1,
            BpfMapType::Array => 0x2,
            BpfMapType::ProgArray => 0x3,
            BpfMapType::PerfEventArray => 0x4,
            BpfMapType::PercpuHash => 0x5,
            BpfMapType::PercpuArray => 0x6,
            BpfMapType::StackTrace => 0x7,
            BpfMapType::CgroupArray => 0x8,
            BpfMapType::LruHash => 0x9,
            BpfMapType::LruPercpuHash => 0xa,
            BpfMapType::LpmTrie => 0xb,
            BpfMapType::ArrayOfMaps => 0xc,
            BpfMapType::HashOfMaps => 0xd,
            BpfMapType::Devmap => 0xe,
            BpfMapType::Sockmap => 0xf,
            BpfMapType::Cpumap => 0x10,
            BpfMapType::Xskmap => 0x11,
            BpfMapType::Sockhash => 0x12,
            BpfMapType::CgroupStorage => 0x13,
            BpfMapType::ReuseportSockarray => 0x14,
            BpfMapType::PercpuCgroupStorage => 0x15,
            BpfMapType::Queue => 0x16,
            BpfMapType::Stack => 0x17,
            BpfMapType::SkStorage => 0x18,
            BpfMapType::DevmapHash => 0x19,
            BpfMapType::StructOps => 0x1a,
            BpfMapType::Ringbuf => 0x1b,
            BpfMapType::InodeStorage => 0x1c,
            BpfMapType::TaskStorage => 0x1d,
            BpfMapType::BloomFilter => 0x1e,
            BpfMapType::UserRingbuf => 0x1f,
            BpfMapType::CgroupStorageV2 => 0x20,
        }
    }

    /// The numeric code of this value on the wire.
    pub fn to_u32(&self) -> (r: u32)
        ensures
            r == self.code(),
    {
        match self {
            BpfMapType::Unspec => 0x0,
            BpfMapType::Hash => 0x1,
            BpfMapType::Array => 0x2,
            BpfMapType::ProgArray => 0x3,
            BpfMapType::PerfEventArray => 0x4,
            BpfMapType::PercpuHash => 0x5,
            BpfMapType::PercpuArray => 0x6,
            BpfMapType::StackTrace => 0x7,
            BpfMapType::CgroupArray => 0x8,
            BpfMapType::LruHash => 0x9,
            BpfMapType::LruPercpuHash => 0xa,
            BpfMapType::LpmTrie => 0xb,
            BpfMapType::ArrayOfMaps => 0xc,
            BpfMapType::HashOfMaps => 0xd,
            BpfMapType::Devmap => 0xe,
            BpfMapType::Sockmap => 0xf,
            BpfMapType::Cpumap => 0x10,
            BpfMapType::Xskmap => 0x11,
            BpfMapType::Sockhash => 0x12,
            BpfMapType::CgroupStorage => 0x13,
            BpfMapType::ReuseportSockarray => 0x14,
            BpfMapType::PercpuCgroupStorage => 0x15,
            BpfMapType::Queue => 0x16,
            BpfMapType::Stack => 0x17,
            BpfMapType::SkStorage => 0x18,
            BpfMapType::DevmapHash => 0x19,
            BpfMapType::StructOps => 0x1a,
            BpfMapType::Ringbuf => 0x1b,
            BpfMapType::InodeStorage => 0x1c,
            BpfMapType::TaskStorage => 0x1d,
            BpfMapType::BloomFilter => 0x1e,
            BpfMapType::UserRingbuf => 0x1f,
            BpfMapType::CgroupStorageV2 => 0x20,
        }
    }

    /// The value whose code is `v`, if any.
    pub open spec fn decode(v: u32) -> Option<BpfMapType> {
        if v == 0x0 { Some(BpfMapType::Unspec) } else { if v == 0x1 { Some(BpfMapType::Hash) } else { if v == 0x2 { Some(BpfMapType::Array) } else { if v == 0x3 { Some(BpfMapType::ProgArray) } else { if v == 0x4 { Some(BpfMapType::PerfEventArray) } else { if v == 0x5 { Some(BpfMapType::PercpuHash) } else { if v == 0x6 { Some(BpfMapType::PercpuArray) } else { if v == 0x7 { Some(BpfMapType::StackTrace) } else { if v == 0x8 { Some(BpfMapType::CgroupArray) } else { if v == 0x9 { Some(BpfMapType::LruHash) } else { if v == 0xa { Some(BpfMapType::LruPercpuHash) } else { if v == 0xb { Some(BpfMapType::LpmTrie) } else { if v == 0xc { Some(BpfMapType::ArrayOfMaps) } else { if v == 0xd { Some(BpfMapType::HashOfMaps) } else { if v == 0xe { Some(BpfMapType::Devmap) } else { if v == 0xf { Some(BpfMapType::Sockmap) } else { if v == 0x10 { Some(BpfMapType::Cpumap) } else { if v == 0x11 { Some(BpfMapType::Xskmap) } else { if v == 0x12 { Some(BpfMapType::Sockhash) } else { if v == 0x13 { Some(BpfMapType::CgroupStorage) } else { if v == 0x14 { Some(BpfMapType::ReuseportSockarray) } else { if v == 0x15 { Some(BpfMapType::PercpuCgroupStorage) } else { if v == 0x16 { Some(BpfMapType::Queue) } else { if v == 0x17 { Some(BpfMapType::Stack) } else { if v == 0x18 { Some(BpfMapType::SkStorage) } else { if v == 0x19 { Some(BpfMapType::DevmapHash) } else { if v == 0x1a { Some(BpfMapType::StructOps) } else { if v == 0x1b { Some(BpfMapType::Ringbuf) } else { if v == 0x1c { Some(BpfMapType::InodeStorage) } else { if v == 0x1d { Some(BpfMapType::TaskStorage) } else { if v == 0x1e { Some(BpfMapType::BloomFilter) } else { if v == 0x1f { Some(BpfMapType::UserRingbuf) } else { if v == 0x20 { Some(BpfMapType::CgroupStorageV2) } else { None } } } } } } } } } } } } } } } } } } } } } } } } } } } } } } } } }
    }

    /// The value whose code is `v`, if any.
    pub fn from_u32(v: u32) -> (r: Option<BpfMapType>)
        ensures
            r == BpfMapType::decode(v),
    {
        match v {
            0x0 => Some(BpfMapType::Unspec),
            0x1 => Some(BpfMapType::Hash),
            0x2 => Some(BpfMapType::Array),
            0x3 => Some(BpfMapType::ProgArray),
            0x4 => Some(BpfMapType::PerfEventArray),
            0x5 => Some(BpfMapType::PercpuHash),
            0x6 => Some(BpfMapType::PercpuArray),
            0x7 => Some(BpfMapType::StackTrace),
            0x8 => Some(BpfMapType::CgroupArray),
            0x9 => Some(BpfMapType::LruHash),
            0xa => Some(BpfMapType::LruPercpuHash),
            0xb => Some(BpfMapType::LpmTrie),
            0xc => Some(BpfMapType::ArrayOfMaps),
            0xd => Some(BpfMapType::HashOfMaps),
            0xe => Some(BpfMapType::Devmap),
            0xf => Some(BpfMapType::Sockmap),
            0x10 => Some(BpfMapType::Cpumap),
            0x11 => Some(BpfMapType::Xskmap),
            0x12 => Some(BpfMapType::Sockhash),
            0x13 => Some(BpfMapType::CgroupStorage),
            0x14 => Some(BpfMapType::ReuseportSockarray),
            0x15 => Some(BpfMapType::PercpuCgroupStorage),
            0x16 => Some(BpfMapType::Queue),
            0x17 => Some(BpfMapType::Stack),
            0x18 => Some(BpfMapType::SkStorage),
            0x19 => Some(BpfMapType::DevmapHash),
            0x1a => Some(BpfMapType::StructOps),
            0x1b => Some(BpfMapType::Ringbuf),
            0x1c => Some(BpfMapType::InodeStorage),
            0x1d => Some(BpfMapType::TaskStorage),
            0x1e => Some(BpfMapType::BloomFilter),
            0x1f => Some(BpfMapType::UserRingbuf),
            0x20 => Some(BpfMapType::CgroupStorageV2),
            _ => None,
        }
    }

    /// Decoding the code of a value gives the value back.
    pub proof fn lemma_code_roundtrip(self)
        ensures
            BpfMapType::decode(self.code()) == Some(self),
    {
    }

}


/// Map definition (for ELF sections)
#[derive(Clone, Copy, Debug)]
pub struct BpfMapDef {
    /// Map type
    pub type_: u32,
    /// Key size in bytes
    pub key_size: u32,
    /// Value size in bytes
    pub value_size: u32,
    /// Maximum entries
    pub max_entries: u32,
    /// Map flags
    pub map_flags: u32,
}

// -----------------------------------------------------------------------------
// Sorted key/value table
// -----------------------------------------------------------------------------

/// Keys in strictly increasing order.
pub open spec fn keys_sorted(ks: Seq<Seq<u8>>) -> bool {
    forall|i: int, j: int| 0 <= i < j < ks.len() ==> key_lt(#[trigger] ks[i], #[trigger] ks[j])
}

/// The map that parallel key and value sequences stand for.
pub open spec fn entries_map(ks: Seq<Seq<u8>>, vs: Seq<Seq<u8>>) -> Map<Seq<u8>, Seq<u8>> {
    Map::new(|k: Seq<u8>| ks.contains(k), |k: Seq<u8>| vs[ks.index_of(k)])
}

proof fn lemma_entries_map_index(ks: Seq<Seq<u8>>, vs: Seq<Seq<u8>>, i: int)
    requires
        keys_sorted(ks),
        0 <= i < ks.len(),
    ensures
        entries_map(ks, vs).dom().contains(ks[i]),
        entries_map(ks, vs)[ks[i]] == vs[i],
{
    assert(ks.contains(ks[i]));
    let j = ks.index_of(ks[i]);
    if j != i {
        lemma_key_lt_irreflexive(ks[i]);
    }
}

proof fn lemma_entries_map_eq(ks: Seq<Seq<u8>>, vs: Seq<Seq<u8>>, m: Map<Seq<u8>, Seq<u8>>)
    requires
        keys_sorted(ks),
        forall|i: int| 0 <= i < ks.len() ==> m.dom().contains(#[trigger] ks[i]) && m[ks[i]] == vs[i],
        forall|k: Seq<u8>| #[trigger] m.dom().contains(k) ==> ks.contains(k),
    ensures
        entries_map(ks, vs) == m,
{
    assert forall|k: Seq<u8>| #[trigger] entries_map(ks, vs).dom().contains(k) <==> m.dom().contains(k) by {
        if ks.contains(k) {
            let j = choose|j: int| 0 <= j < ks.len() && ks[j] == k;
            assert(m.dom().contains(ks[j]));
        }
    }
    assert forall|k: Seq<u8>| #[trigger] m.dom().contains(k) implies entries_map(ks, vs)[k] == m[k] by {
        let j = choose|j: int| 0 <= j < ks.len() && ks[j] == k;
        lemma_entries_map_index(ks, vs, j);
    }
    assert(entries_map(ks, vs) =~= m);
}

proof fn lemma_entries_map_len(ks: Seq<Seq<u8>>, vs: Seq<Seq<u8>>)
    requires
        keys_sorted(ks),
    ensures
        entries_map(ks, vs).dom().finite(),
        entries_map(ks, vs).dom().len() == ks.len(),
{
    broadcast use vstd::seq_lib::seq_to_set_is_finite;
    assert forall|i: int, j: int| 0 <= i < ks.len() && 0 <= j < ks.len() && i != j implies ks[i] != ks[j] by {
        lemma_key_lt_irreflexive(ks[i]);
    }
    ks.unique_seq_to_set();
    assert(entries_map(ks, vs).dom() =~= ks.to_set());
}

/// Entries kept in increasing key order, keys and values side by side.
struct SortedTable {
    keys: Vec<Vec<u8>>,
    values: Vec<Vec<u8>>,
}

impl SortedTable {
    spec fn ks(&self) -> Seq<Seq<u8>> {
        self.keys@.map_values(|k: Vec<u8>| k@)
    }

    spec fn vs(&self) -> Seq<Seq<u8>> {
        self.values@.map_values(|v: Vec<u8>| v@)
    }

    spec fn wf(&self) -> bool {
        &&& self.keys@.len() == self.values@.len()
        &&& keys_sorted(self.ks())
    }

    spec fn map(&self) -> Map<Seq<u8>, Seq<u8>> {
        entries_map(self.ks(), self.vs())
    }

    fn new() -> (t: Self)
        ensures
            t.wf(),
            t.map() == Map::<Seq<u8>, Seq<u8>>::empty(),
            t.ks().len() == 0,
    {
        let t = SortedTable { keys: Vec::new(), values: Vec::new() };
        assert(t.map() =~= Map::<Seq<u8>, Seq<u8>>::empty());
        t
    }

    fn len(&self) -> (n: usize)
        requires
            self.wf(),
        ensures
            n == self.map().dom().len(),
            self.map().dom().finite(),
    {
        proof {
            lemma_entries_map_len(self.ks(), self.vs());
        }
        self.keys.len()
    }

    /// Position of `key`: the number of keys before it, and whether it is there.
    fn find(&self, key: &[u8]) -> (res: (usize, bool))
        requires
            self.wf(),
        ensures
            res.0 <= self.ks().len(),
            forall|i: int| 0 <= i < res.0 ==> key_lt(#[trigger] self.ks()[i], key@),
            forall|i: int| res.0 < i < self.ks().len() ==> key_lt(key@, #[trigger] self.ks()[i]),
            res.1 <==> (res.0 < self.ks().len() && self.ks()[res.0 as int] == key@),
            !res.1 && res.0 < self.ks().len() ==> key_lt(key@, self.ks()[res.0 as int]),
            res.1 <==> self.map().dom().contains(key@),
    {
        let ghost ks = self.ks();
        let mut p: usize = 0;
        while p < self.keys.len() && key_less(self.keys[p].as_slice(), key)
            invariant
                p <= ks.len(),
                ks == self.ks(),
                self.wf(),
                forall|i: int| 0 <= i < p ==> key_lt(#[trigger] ks[i], key@),
            decreases ks.len() - p,
        {
            p = p + 1;
        }
        let found = p < self.keys.len() && bytes_equal(self.keys[p].as_slice(), key);
        proof {
            if p < ks.len() {
                lemma_key_lt_total(ks[p as int], key@);
                assert forall|i: int| p < i < ks.len() implies key_lt(key@, #[trigger] ks[i]) by {
                    assert(key_lt(ks[p as int], ks[i]));
                    if ks[p as int] != key@ {
                        lemma_key_lt_transitive(key@, ks[p as int], ks[i]);
                    }
                }
            }
            if found {
                assert(ks.contains(key@));
            } else if ks.contains(key@) {
                let j = choose|j: int| 0 <= j < ks.len() && ks[j] == key@;
                lemma_key_lt_irreflexive(key@);
                assert(key_lt(ks[j], key@) || key_lt(key@, ks[j]));
            }
        }
        (p, found)
    }

    /// The value stored under `key`, if any.
    fn get(&self, key: &[u8]) -> (r: Option<Vec<u8>>)
        requires
            self.wf(),
        ensures
            opt_bytes(r) == (if self.map().dom().contains(key@) {
                Some(self.map()[key@])
            } else {
                None
            }),
    {
        let (p, found) = self.find(key);
        if found {
            proof {
                lemma_entries_map_index(self.ks(), self.vs(), p as int);
            }
            Some(slice_to_vec(self.values[p].as_slice()))
        } else {
            None
        }
    }

    /// Store `value` under `key`, replacing any value there.
    fn insert(&mut self, key: &[u8], value: &[u8])
        requires
            old(self).wf(),
        ensures
            final(self).wf(),
            final(self).map() == old(self).map().insert(key@, value@),
    {
        let ghost ks0 = self.ks();
        let ghost vs0 = self.vs();
        let ghost m0 = self.map();
        let (p, found) = self.find(key);
        if found {
            self.values.set(p, slice_to_vec(value));
            proof {
                assert(self.ks() =~= ks0);
                assert(self.vs() =~= vs0.update(p as int, value@));
                let m = m0.insert(key@, value@);
                assert forall|i: int| 0 <= i < ks0.len() implies m.dom().contains(#[trigger] ks0[i])
                    && m[ks0[i]] == self.vs()[i] by {
                    lemma_entries_map_index(ks0, vs0, i);
                    if i != p {
                        assert(ks0[i] != key@) by {
                            lemma_key_lt_irreflexive(key@);
                        }
                    }
                }
                assert forall|k: Seq<u8>| #[trigger] m.dom().contains(k) implies ks0.contains(k) by {
                    if k == key@ {
                        assert(ks0[p as int] == k);
                    }
                }
                lemma_entries_map_eq(self.ks(), self.vs(), m);
            }
        } else {
            self.keys.insert(p, slice_to_vec(key));
            self.values.insert(p, slice_to_vec(value));
            proof {
                let ks1 = ks0.insert(p as int, key@);
                let vs1 = vs0.insert(p as int, value@);
                assert(self.ks() =~= ks1);
                assert(self.vs() =~= vs1);
                assert forall|i: int, j: int| 0 <= i < j < ks1.len() implies key_lt(#[trigger] ks1[i], #[trigger] ks1[j]) by {
                    if j < p {
                    } else if j == p {
                    } else if i < p {
                        assert(key_lt(ks0[i], key@));
                        if j - 1 > p {
                            lemma_key_lt_transitive(ks0[i], key@, ks0[j - 1]);
                        } else {
                            lemma_key_lt_transitive(ks0[i], key@, ks0[j - 1]);
                        }
                    } else if i == p {
                    } else {
                        assert(key_lt(ks0[i - 1], ks0[j - 1]));
                    }
                }
                let m = m0.insert(key@, value@);
                assert forall|i: int| 0 <= i < ks1.len() implies m.dom().contains(#[trigger] ks1[i])
                    && m[ks1[i]] == vs1[i] by {
                    if i < p {
                        lemma_entries_map_index(ks0, vs0, i);
                        lemma_key_lt_irreflexive(key@);
                    } else if i > p {
                        lemma_entries_map_index(ks0, vs0, i - 1);
                        lemma_key_lt_irreflexive(key@);
                    }
                }
                assert forall|k: Seq<u8>| #[trigger] m.dom().contains(k) implies ks1.contains(k) by {
                    if k == key@ {
                        assert(ks1[p as int] == k);
                    } else {
                        let j = choose|j: int| 0 <= j < ks0.len() && ks0[j] == k;
                        if j < p {
                            assert(ks1[j] == k);
                        } else {
                            assert(ks1[j + 1] == k);
                        }
                    }
                }
                lemma_entries_map_eq(ks1, vs1, m);
            }
        }
    }

    /// Remove `key`; whether it was there.
    fn remove(&mut self, key: &[u8]) -> (found: bool)
        requires
            old(self).wf(),
        ensures
            final(self).wf(),
            found == old(self).map().dom().contains(key@),
            final(self).map() == old(self).map().remove(key@),
            !found ==> final(self).map() == old(self).map(),
    {
        let ghost ks0 = self.ks();
        let ghost vs0 = self.vs();
        let ghost m0 = self.map();
        let (p, found) = self.find(key);
        if !found {
            assert(m0.remove(key@) =~= m0);
            return false;
        }
        self.keys.remove(p);
        self.values.remove(p);
        proof {
            let ks1 = ks0.remove(p as int);
            let vs1 = vs0.remove(p as int);
            assert(self.ks() =~= ks1);
            assert(self.vs() =~= vs1);
            assert forall|i: int, j: int| 0 <= i < j < ks1.len() implies key_lt(#[trigger] ks1[i], #[trigger] ks1[j]) by {
                let a = if i < p { i } else { i + 1 };
                let b = if j < p { j } else { j + 1 };
                assert(key_lt(ks0[a], ks0[b]));
            }
            let m = m0.remove(key@);
            assert forall|i: int| 0 <= i < ks1.len() implies m.dom().contains(#[trigger] ks1[i])
                && m[ks1[i]] == vs1[i] by {
                let a = if i < p { i } else { i + 1 };
                lemma_entries_map_index(ks0, vs0, a);
                lemma_key_lt_irreflexive(key@);
            }
            assert forall|k: Seq<u8>| #[trigger] m.dom().contains(k) implies ks1.contains(k) by {
                let j = choose|j: int| 0 <= j < ks0.len() && ks0[j] == k;
                if j < p {
                    assert(ks1[j] == k);
                } else {
                    assert(ks1[j - 1] == k);
                }
            }
            lemma_entries_map_eq(ks1, vs1, m);
        }
        true
    }

    /// The least key, if any.
    fn first_key(&self) -> (r: Option<Vec<u8>>)
        requires
            self.wf(),
        ensures
            opt_bytes(r) == next_key(self.map(), None),
    {
        let ghost ks = self.ks();
        let ghost m = self.map();
        if self.keys.len() == 0 {
            proof {
                assert forall|n: Seq<u8>| !is_next_key(m, None, n) by {}
            }
            None
        } else {
            proof {
                lemma_entries_map_index(ks, self.vs(), 0);
                assert forall|o: Seq<u8>| is_next_key(m, None, o) implies !key_lt(o, ks[0]) by {
                    let j = choose|j: int| 0 <= j < ks.len() && ks[j] == o;
                    if j > 0 {
                        lemma_key_lt_asymmetric(ks[0], ks[j]);
                    } else {
                        lemma_key_lt_irreflexive(o);
                    }
                }
                lemma_least_is_next(m, None, ks[0]);
            }
            Some(slice_to_vec(self.keys[0].as_slice()))
        }
    }

    /// The least key after `k`, if `k` is a key.
    fn key_after(&self, k: &[u8]) -> (r: Result<Option<Vec<u8>>, BpfError>)
        requires
            self.wf(),
        ensures
            res_opt_bytes(r) == if self.map().dom().contains(k@) {
                Ok(next_key(self.map(), Some(k@)))
            } else {
                Err::<Option<Seq<u8>>, BpfError>(BpfError::KeyNotFound)
            },
    {
        let ghost ks = self.ks();
        let ghost m = self.map();
        let (p, found) = self.find(k);
        if !found {
            return Err(BpfError::KeyNotFound);
        }
        let n = self.keys.len();
        if n - p <= 1 {
            proof {
                assert forall|o: Seq<u8>| !is_next_key(m, Some(k@), o) by {
                    if m.dom().contains(o) && key_lt(k@, o) {
                        let j = choose|j: int| 0 <= j < ks.len() && ks[j] == o;
                        if j < p {
                            lemma_key_lt_asymmetric(ks[j], k@);
                        } else {
                            lemma_key_lt_irreflexive(k@);
                        }
                    }
                }
            }
            Ok(None)
        } else {
            proof {
                let c = ks[p + 1];
                lemma_entries_map_index(ks, self.vs(), p + 1);
                assert(key_lt(ks[p as int], ks[p + 1]));
                assert forall|o: Seq<u8>| is_next_key(m, Some(k@), o) implies !key_lt(o, c) by {
                    let j = choose|j: int| 0 <= j < ks.len() && ks[j] == o;
                    if j < p {
                        lemma_key_lt_asymmetric(ks[j], k@);
                    } else if j == p {
                        lemma_key_lt_irreflexive(k@);
                    } else if j == p + 1 {
                        lemma_key_lt_irreflexive(c);
                    } else {
                        lemma_key_lt_asymmetric(c, ks[j]);
                    }
                }
                lemma_least_is_next(m, Some(k@), c);
            }
            Ok(Some(slice_to_vec(self.keys[p + 1].as_slice())))
        }
    }
}

/// The bytes a vector holds, if there is one.
pub open spec fn opt_bytes(o: Option<Vec<u8>>) -> Option<Seq<u8>> {
    match o {
        Some(v) => Some(v@),
        None => None,
    }
}

/// [`opt_bytes`] under a `Result`.
pub open spec fn res_opt_bytes(r: Result<Option<Vec<u8>>, BpfError>) -> Result<Option<Seq<u8>>, BpfError> {
    match r {
        Ok(o) => Ok(opt_bytes(o)),
        Err(e) => Err(e),
    }
}

/// `n` is a key of `m` that comes after `after` (any key, after nothing).
pub open spec fn is_next_key(m: Map<Seq<u8>, Seq<u8>>, after: Option<Seq<u8>>, n: Seq<u8>) -> bool {
    &&& m.dom().contains(n)
    &&& match after {
        Some(k) => key_lt(k, n),
        None => true,
    }
}

/// `n` is the least key of `m` after `after`.
pub open spec fn is_least_next_key(m: Map<Seq<u8>, Seq<u8>>, after: Option<Seq<u8>>, n: Seq<u8>) -> bool {
    &&& is_next_key(m, after, n)
    &&& forall|o: Seq<u8>| is_next_key(m, after, o) ==> !key_lt(o, n)
}

/// The least key of `m` after `after`, if there is one.
pub open spec fn next_key(m: Map<Seq<u8>, Seq<u8>>, after: Option<Seq<u8>>) -> Option<Seq<u8>> {
    if exists|n: Seq<u8>| is_least_next_key(m, after, n) {
        Some(choose|n: Seq<u8>| is_least_next_key(m, after, n))
    } else {
        None
    }
}

/// A least candidate is the next key.
pub proof fn lemma_least_is_next(m: Map<Seq<u8>, Seq<u8>>, after: Option<Seq<u8>>, c: Seq<u8>)
    requires
        is_next_key(m, after, c),
        forall|o: Seq<u8>| is_next_key(m, after, o) ==> !key_lt(o, c),
    ensures
        next_key(m, after) == Some(c),
{
    assert(is_least_next_key(m, after, c));
    let n = choose|n: Seq<u8>| is_least_next_key(m, after, n);
    assert(is_least_next_key(m, after, n));
    lemma_key_lt_total(n, c);
}

// -----------------------------------------------------------------------------
// Ring buffer, queue and stack
// -----------------------------------------------------------------------------

/// Where a reservation of `size` bytes (plus an 8-byte header) lands in a
/// ring of `capacity` bytes, and the producer position after it.
pub open spec fn ring_reserve(head: nat, tail: nat, capacity: nat, size: nat) -> Result<(nat, nat), BpfError> {
    let available = if head >= tail { capacity - (head - tail) } else { tail - head };
    if size + 8 > available {
        Err(BpfError::MapFull)
    } else {
        Ok((head, ((head + size + 8) as nat) % capacity))
    }
}

/// Ring buffer for BPF
struct RingBuffer {
    /// Data storage
    data: Vec<u8>,
    /// Head (producer)
    head: usize,
    /// Tail (consumer)
    tail: usize,
    /// Capacity
    capacity: usize,
}

impl RingBuffer {
    spec fn wf(&self) -> bool {
        &&& self.data@.len() == self.capacity
        &&& self.capacity == 0 ==> self.head == 0 && self.tail == 0
        &&& self.capacity > 0 ==> self.head < self.capacity && self.tail < self.capacity
    }

    fn new(capacity: usize) -> (r: Self)
        ensures
            r.wf(),
            r.head == 0,
            r.tail == 0,
            r.capacity == capacity,
    {
        let mut data: Vec<u8> = Vec::new();
        let mut i: usize = 0;
        while i < capacity
            invariant
                i <= capacity,
                data@.len() == i,
            decreases capacity - i,
        {
            data.push(0);
            i = i + 1;
        }
        RingBuffer { data, head: 0, tail: 0, capacity }
    }

    fn reserve(&mut self, size: usize) -> (r: Result<u64, BpfError>)
        requires
            old(self).wf(),
        ensures
            final(self).wf(),
            final(self).tail == old(self).tail,
            final(self).capacity == old(self).capacity,
            match ring_reserve(old(self).head as nat, old(self).tail as nat, old(self).capacity as nat, size as nat) {
                Ok((p, h)) => r == Ok::<u64, BpfError>(p as u64) && final(self).head == h,
                Err(e) => r == Err::<u64, BpfError>(e) && final(self).head == old(self).head,
            },
    {
        let head = self.head;
        let tail = self.tail;
        let cap = self.capacity;
        let available = if head >= tail { cap - (head - tail) } else { tail - head };
        if size > available || available - size < 8 {
            return Err(BpfError::MapFull);
        }
        let n = size + 8;
        let new_head = if n >= cap - head { n - (cap - head) } else { head + n };
        proof {
            let h = head as int;
            let c = cap as int;
            let k = n as int;
            if k >= c - h {
                assert((h + k) % c == h + k - c) by (nonlinear_arith)
                    requires
                        c <= h + k < 2 * c,
                ;
            } else {
                assert((h + k) % c == h + k) by (nonlinear_arith)
                    requires
                        0 <= h + k < c,
                ;
            }
        }
        self.head = new_head;
        Ok(head as u64)
    }
}

/// FIFO queue
struct Queue {
    data: Vec<Vec<u8>>,
    max_entries: usize,
}

impl Queue {
    spec fn items(&self) -> Seq<Seq<u8>> {
        self.data@.map_values(|v: Vec<u8>| v@)
    }

    fn new(max_entries: usize) -> (r: Self)
        ensures
            r.items() == Seq::<Seq<u8>>::empty(),
            r.max_entries == max_entries,
    {
        let r = Queue { data: Vec::new(), max_entries };
        assert(r.items() =~= Seq::<Seq<u8>>::empty());
        r
    }

    fn push(&mut self, value: &[u8]) -> (r: Result<(), BpfError>)
        ensures
            final(self).max_entries == old(self).max_entries,
            if old(self).items().len() >= old(self).max_entries {
                r == Err::<(), BpfError>(BpfError::MapFull) && final(self).items() == old(self).items()
            } else {
                r is Ok && final(self).items() == old(self).items().push(value@)
            },
    {
        if self.data.len() >= self.max_entries {
            return Err(BpfError::MapFull);
        }
        self.data.push(slice_to_vec(value));
        assert(self.items() =~= old(self).items().push(value@));
        Ok(())
    }

    fn pop(&mut self) -> (r: Option<Vec<u8>>)
        ensures
            final(self).max_entries == old(self).max_entries,
            if old(self).items().len() == 0 {
                r is None && final(self).items() == old(self).items()
            } else {
                opt_bytes(r) == Some(old(self).items()[0]) && final(self).items() == old(self).items().drop_first()
            },
    {
        if self.data.len() == 0 {
            None
        } else {
            let v = self.data.remove(0);
            assert(self.items() =~= old(self).items().drop_first());
            Some(v)
        }
    }

    fn peek(&self) -> (r: Option<Vec<u8>>)
        ensures
            opt_bytes(r) == if self.items().len() == 0 { None } else { Some(self.items()[0]) },
    {
        if self.data.len() == 0 {
            None
        } else {
            Some(slice_to_vec(self.data[0].as_slice()))
        }
    }
}

/// LIFO stack
struct Stack {
    data: Vec<Vec<u8>>,
    max_entries: usize,
}

impl Stack {
    spec fn items(&self) -> Seq<Seq<u8>> {
        self.data@.map_values(|v: Vec<u8>| v@)
    }

    fn new(max_entries: usize) -> (r: Self)
        ensures
            r.items() == Seq::<Seq<u8>>::empty(),
            r.max_entries == max_entries,
    {
        let r = Stack { data: Vec::new(), max_entries };
        assert(r.items() =~= Seq::<Seq<u8>>::empty());
        r
    }

    fn push(&mut self, value: &[u8]) -> (r: Result<(), BpfError>)
        ensures
            final(self).max_entries == old(self).max_entries,
            if old(self).items().len() >= old(self).max_entries {
                r == Err::<(), BpfError>(BpfError::MapFull) && final(self).items() == old(self).items()
            } else {
                r is Ok && final(self).items() == old(self).items().push(value@)
            },
    {
        if self.data.len() >= self.max_entries {
            return Err(BpfError::MapFull);
        }
        self.data.push(slice_to_vec(value));
        assert(self.items() =~= old(self).items().push(value@));
        Ok(())
    }

    fn pop(&mut self) -> (r: Option<Vec<u8>>)
        ensures
            final(self).max_entries == old(self).max_entries,
            if old(self).items().len() == 0 {
                r is None && final(self).items() == old(self).items()
            } else {
                opt_bytes(r) == Some(old(self).items().last()) && final(self).items() == old(self).items().drop_last()
            },
    {
        let r = self.data.pop();
        assert(self.items() =~= if old(self).items().len() == 0 { old(self).items() } else { old(self).items().drop_last() });
        r
    }

    fn peek(&self) -> (r: Option<Vec<u8>>)
        ensures
            opt_bytes(r) == if self.items().len() == 0 { None } else { Some(self.items().last()) },
    {
        if self.data.len() == 0 {
            None
        } else {
            Some(slice_to_vec(self.data[self.data.len() - 1].as_slice()))
        }
    }
}

// -----------------------------------------------------------------------------
// BPF map
// -----------------------------------------------------------------------------

/// What a map holds.
pub enum MapContents {
    /// Key to value
    Hash(Map<Seq<u8>, Seq<u8>>),
    /// One value per index
    Array(Seq<Seq<u8>>),
    /// One value per index and CPU
    PercpuArray(Seq<Seq<Seq<u8>>>),
    /// Producer and consumer positions in a ring of `capacity` bytes
    RingBuf { head: nat, tail: nat, capacity: nat },
    /// Values, oldest first
    Queue(Seq<Seq<u8>>),
    /// Values, oldest first (the top is the last)
    Stack(Seq<Seq<u8>>),
}

/// The state of a map.
pub struct BpfMapView {
    pub id: u32,
    pub map_type: BpfMapType,
    pub key_size: u32,
    pub value_size: u32,
    pub max_entries: u32,
    pub refs: u64,
    pub contents: MapContents,
}

/// The array index a key names: its first four bytes, little endian.
pub open spec fn array_index(key: Seq<u8>) -> int {
    from_le32(key[0], key[1], key[2], key[3]) as int
}

/// `n` zero bytes.
pub open spec fn zeros(n: nat) -> Seq<u8> {
    Seq::new(n, |j: int| 0u8)
}

/// Number of CPUs a per-CPU array keeps a value for.
pub const PERCPU_CPUS: usize = 8;

/// What a freshly created map of this type holds.
pub open spec fn initial_contents(map_type: BpfMapType, value_size: u32, max_entries: u32) -> MapContents {
    match map_type {
        BpfMapType::Hash | BpfMapType::LruHash | BpfMapType::PercpuHash | BpfMapType::LruPercpuHash =>
            MapContents::Hash(Map::empty()),
        BpfMapType::Array | BpfMapType::ProgArray | BpfMapType::PerfEventArray | BpfMapType::CgroupArray =>
            MapContents::Array(Seq::new(max_entries as nat, |i: int| zeros(value_size as nat))),
        BpfMapType::PercpuArray => MapContents::PercpuArray(
            Seq::new(max_entries as nat, |i: int| Seq::new(8, |c: int| zeros(value_size as nat))),
        ),
        BpfMapType::Ringbuf => MapContents::RingBuf { head: 0, tail: 0, capacity: max_entries as nat },
        BpfMapType::Queue => MapContents::Queue(Seq::empty()),
        BpfMapType::Stack => MapContents::Stack(Seq::empty()),
        _ => MapContents::Hash(Map::empty()),
    }
}

/// The map with other contents.
pub open spec fn with_contents(m: BpfMapView, c: MapContents) -> BpfMapView {
    BpfMapView { contents: c, ..m }
}

/// What a lookup of `key` answers.
pub open spec fn lookup_spec(m: BpfMapView, key: Seq<u8>) -> Result<Option<Seq<u8>>, BpfError> {
    if key.len() != m.key_size {
        Err(BpfError::InvalidProgram)
    } else {
        match m.contents {
            MapContents::Hash(h) => Ok(if h.dom().contains(key) { Some(h[key]) } else { None }),
            MapContents::Array(a) => if key.len() < 4 {
                Err(BpfError::InvalidProgram)
            } else if array_index(key) >= a.len() {
                Err(BpfError::OutOfBounds)
            } else {
                Ok(Some(a[array_index(key)]))
            },
            _ => Err(BpfError::InvalidMapType),
        }
    }
}

/// The map after storing `value` under `key` (flags 1: only a new key,
/// flags 2: only an existing key), or why not.
pub open spec fn update_spec(m: BpfMapView, key: Seq<u8>, value: Seq<u8>, flags: u64) -> Result<BpfMapView, BpfError> {
    if key.len() != m.key_size || value.len() != m.value_size {
        Err(BpfError::InvalidProgram)
    } else {
        match m.contents {
            MapContents::Hash(h) => if flags == 1 && h.dom().contains(key) {
                Err(BpfError::MapFull)
            } else if flags == 2 && !h.dom().contains(key) {
                Err(BpfError::KeyNotFound)
            } else if h.dom().len() >= m.max_entries && !h.dom().contains(key) {
                Err(BpfError::MapFull)
            } else {
                Ok(with_contents(m, MapContents::Hash(h.insert(key, value))))
            },
            MapContents::Array(a) => if key.len() < 4 {
                Err(BpfError::InvalidProgram)
            } else if array_index(key) >= a.len() {
                Err(BpfError::OutOfBounds)
            } else {
                Ok(with_contents(m, MapContents::Array(a.update(array_index(key), value))))
            },
            _ => Err(BpfError::InvalidMapType),
        }
    }
}

/// The map after deleting `key`, or why not.
pub open spec fn delete_spec(m: BpfMapView, key: Seq<u8>) -> Result<BpfMapView, BpfError> {
    if key.len() != m.key_size {
        Err(BpfError::InvalidProgram)
    } else {
        match m.contents {
            MapContents::Hash(h) => if h.dom().contains(key) {
                Ok(with_contents(m, MapContents::Hash(h.remove(key))))
            } else {
                Err(BpfError::KeyNotFound)
            },
            _ => Err(BpfError::InvalidMapType),
        }
    }
}

/// The key that follows `key` (with no key: the first one).
pub open spec fn next_key_spec(m: BpfMapView, key: Option<Seq<u8>>) -> Result<Option<Seq<u8>>, BpfError> {
    match m.contents {
        MapContents::Hash(h) => match key {
            None => Ok(next_key(h, None)),
            Some(k) => if h.dom().contains(k) {
                Ok(next_key(h, Some(k)))
            } else {
                Err(BpfError::KeyNotFound)
            },
        },
        MapContents::Array(a) => match key {
            None => Ok(if a.len() == 0 { None } else { Some(le32(0)) }),
            Some(k) => if k.len() < 4 {
                Err(BpfError::InvalidProgram)
            } else if array_index(k) + 1 >= a.len() {
                Ok(None)
            } else {
                Ok(Some(le32((array_index(k) + 1) as u32)))
            },
        },
        _ => Err(BpfError::InvalidMapType),
    }
}

/// The map after pushing `value` onto a queue or stack, or why not.
pub open spec fn push_spec(m: BpfMapView, value: Seq<u8>) -> Result<BpfMapView, BpfError> {
    if value.len() != m.value_size {
        Err(BpfError::InvalidProgram)
    } else {
        match m.contents {
            MapContents::Queue(q) => if q.len() >= m.max_entries {
                Err(BpfError::MapFull)
            } else {
                Ok(with_contents(m, MapContents::Queue(q.push(value))))
            },
            MapContents::Stack(q) => if q.len() >= m.max_entries {
                Err(BpfError::MapFull)
            } else {
                Ok(with_contents(m, MapContents::Stack(q.push(value))))
            },
            _ => Err(BpfError::InvalidMapType),
        }
    }
}

/// The value a pop takes (oldest of a queue, newest of a stack) and the map after it.
pub open spec fn pop_spec(m: BpfMapView) -> Result<(Option<Seq<u8>>, BpfMapView), BpfError> {
    match m.contents {
        MapContents::Queue(q) => if q.len() == 0 {
            Ok((None, m))
        } else {
            Ok((Some(q[0]), with_contents(m, MapContents::Queue(q.drop_first()))))
        },
        MapContents::Stack(q) => if q.len() == 0 {
            Ok((None, m))
        } else {
            Ok((Some(q.last()), with_contents(m, MapContents::Stack(q.drop_last()))))
        },
        _ => Err(BpfError::InvalidMapType),
    }
}

/// The value a pop would take, left in place.
pub open spec fn peek_spec(m: BpfMapView) -> Result<Option<Seq<u8>>, BpfError> {
    match pop_spec(m) {
        Ok((v, _)) => Ok(v),
        Err(e) => Err(e),
    }
}

/// The offset a ring buffer reservation of `size` bytes gets, and the map after it.
pub open spec fn reserve_spec(m: BpfMapView, size: nat) -> Result<(u64, BpfMapView), BpfError> {
    match m.contents {
        MapContents::RingBuf { head, tail, capacity } => match ring_reserve(head, tail, capacity, size) {
            Ok((p, h)) => Ok((p as u64, with_contents(m, MapContents::RingBuf { head: h, tail, capacity }))),
            Err(e) => Err(e),
        },
        _ => Err(BpfError::InvalidMapType),
    }
}

/// What submitting or discarding a ring buffer reservation answers.
pub open spec fn ring_commit_spec(m: BpfMapView) -> Result<(), BpfError> {
    match m.contents {
        MapContents::RingBuf { .. } => Ok(()),
        _ => Err(BpfError::InvalidMapType),
    }
}

/// Internal map data
enum MapData {
    /// Hash map
    Hash(SortedTable),
    /// Array
    Array(Vec<Vec<u8>>),
    /// Per-CPU array
    PercpuArray(Vec<Vec<Vec<u8>>>),
    /// Ring buffer
    RingBuf(RingBuffer),
    /// Queue
    Queue(Queue),
    /// Stack
    Stack(Stack),
}

impl MapData {
    spec fn contents(&self) -> MapContents {
        match self {
            MapData::Hash(t) => MapContents::Hash(t.map()),
            MapData::Array(a) => MapContents::Array(a@.map_values(|v: Vec<u8>| v@)),
            MapData::PercpuArray(a) => MapContents::PercpuArray(
                a@.map_values(|e: Vec<Vec<u8>>| e@.map_values(|v: Vec<u8>| v@)),
            ),
            MapData::RingBuf(r) => MapContents::RingBuf {
                head: r.head as nat,
                tail: r.tail as nat,
                capacity: r.capacity as nat,
            },
            MapData::Queue(q) => MapContents::Queue(q.items()),
            MapData::Stack(q) => MapContents::Stack(q.items()),
        }
    }
}

/// BPF map
pub struct BpfMap {
    /// Map ID
    id: u32,
    /// Map type
    map_type: BpfMapType,
    /// Key size
    key_size: u32,
    /// Value size
    value_size: u32,
    /// Maximum entries
    max_entries: u32,
    /// Map flags
    flags: u32,
    /// Name
    name: [u8; 16],
    /// Data storage (type-dependent)
    data: MapData,
    /// Reference count
    refs: u64,
}

impl View for BpfMap {
    type V = BpfMapView;

    closed spec fn view(&self) -> BpfMapView {
        BpfMapView {
            id: self.id,
            map_type: self.map_type,
            key_size: self.key_size,
            value_size: self.value_size,
            max_entries: self.max_entries,
            refs: self.refs,
            contents: self.data.contents(),
        }
    }
}

/// `n` zero bytes.
fn zero_bytes(n: u32) -> (r: Vec<u8>)
    ensures
        r@ == zeros(n as nat),
{
    let mut r: Vec<u8> = Vec::new();
    let mut i: u32 = 0;
    while i < n
        invariant
            i <= n,
            r@ == zeros(i as nat),
        decreases n - i,
    {
        r.push(0);
        i = i + 1;
        assert(r@ =~= zeros(i as nat));
    }
    r
}

/// The first four bytes of a key, little endian.
fn key_index(key: &[u8]) -> (r: u32)
    requires
        key@.len() >= 4,
    ensures
        r == array_index(key@),
{
    make_u32(key[0], key[1], key[2], key[3])
}

impl BpfMap {
    /// Whether the map's internal data is consistent.
    pub closed spec fn wf(&self) -> bool {
        match &self.data {
            MapData::Hash(t) => t.wf(),
            MapData::RingBuf(r) => r.wf(),
            MapData::Queue(q) => q.max_entries == self.max_entries,
            MapData::Stack(q) => q.max_entries == self.max_entries,
            _ => true,
        }
    }

    /// Create new map
    pub fn new(id: u32, map_type: BpfMapType, key_size: u32, value_size: u32, max_entries: u32) -> (r: Self)
        ensures
            r.wf(),
            r@ == (BpfMapView {
                id,
                map_type,
                key_size,
                value_size,
                max_entries,
                refs: 1,
                contents: initial_contents(map_type, value_size, max_entries),
            }),
    {
        let data = match map_type {
            BpfMapType::Hash | BpfMapType::LruHash | BpfMapType::PercpuHash | BpfMapType::LruPercpuHash => {
                MapData::Hash(SortedTable::new())
            },
            BpfMapType::Array | BpfMapType::ProgArray | BpfMapType::PerfEventArray | BpfMapType::CgroupArray => {
                let mut entries: Vec<Vec<u8>> = Vec::new();
                let mut i: u32 = 0;
                while i < max_entries
                    invariant
                        i <= max_entries,
                        entries@.len() == i,
                        forall|k: int| 0 <= k < i ==> (#[trigger] entries@[k])@ == zeros(value_size as nat),
                    decreases max_entries - i,
                {
                    entries.push(zero_bytes(value_size));
                    i = i + 1;
                }
                assert(entries@.map_values(|v: Vec<u8>| v@) =~= Seq::new(max_entries as nat, |k: int| zeros(value_size as nat)));
                MapData::Array(entries)
            },
            BpfMapType::PercpuArray => {
                let mut entries: Vec<Vec<Vec<u8>>> = Vec::new();
                let mut i: u32 = 0;
                while i < max_entries
                    invariant
                        i <= max_entries,
                        entries@.len() == i,
                        forall|k: int| 0 <= k < i ==> (#[trigger] entries@[k])@.map_values(|v: Vec<u8>| v@)
                            == Seq::new(8, |c: int| zeros(value_size as nat)),
                    decreases max_entries - i,
                {
                    let mut cpus: Vec<Vec<u8>> = Vec::new();
                    let mut c: usize = 0;
                    while c < PERCPU_CPUS
                        invariant
                            c <= PERCPU_CPUS,
                            cpus@.len() == c,
                            forall|k: int| 0 <= k < c ==> (#[trigger] cpus@[k])@ == zeros(value_size as nat),
                        decreases PERCPU_CPUS - c,
                    {
                        cpus.push(zero_bytes(value_size));
                        c = c + 1;
                    }
                    assert(cpus@.map_values(|v: Vec<u8>| v@) =~= Seq::new(8, |c: int| zeros(value_size as nat)));
                    entries.push(cpus);
                    i = i + 1;
                }
                assert(entries@.map_values(|e: Vec<Vec<u8>>| e@.map_values(|v: Vec<u8>| v@))
                    =~= Seq::new(max_entries as nat, |k: int| Seq::new(8, |c: int| zeros(value_size as nat))));
                MapData::PercpuArray(entries)
            },
            BpfMapType::Ringbuf => MapData::RingBuf(RingBuffer::new(max_entries as usize)),
            BpfMapType::Queue => MapData::Queue(Queue::new(max_entries as usize)),
            BpfMapType::Stack => MapData::Stack(Stack::new(max_entries as usize)),
            _ => MapData::Hash(SortedTable::new()),
        };
        BpfMap { id, map_type, key_size, value_size, max_entries, flags: 0, name: [0; 16], data, refs: 1 }
    }

    /// Get map ID
    pub fn id(&self) -> (r: u32)
        ensures
            r == self@.id,
    {
        self.id
    }

    /// Get map type
    pub fn map_type(&self) -> (r: BpfMapType)
        ensures
            r == self@.map_type,
    {
        self.map_type
    }

    /// Lookup element
    pub fn lookup(&self, key: &[u8]) -> (r: Result<Option<Vec<u8>>, BpfError>)
        requires
            self.wf(),
        ensures
            res_opt_bytes(r) == lookup_spec(self@, key@),
    {
        if key.len() != self.key_size as usize {
            return Err(BpfError::InvalidProgram);
        }
        match &self.data {
            MapData::Hash(t) => Ok(t.get(key)),
            MapData::Array(arr) => {
                if key.len() < 4 {
                    return Err(BpfError::InvalidProgram);
                }
                let index = key_index(key);
                if index as usize >= arr.len() {
                    return Err(BpfError::OutOfBounds);
                }
                Ok(Some(slice_to_vec(arr[index as usize].as_slice())))
            },
            _ => Err(BpfError::InvalidMapType),
        }
    }

    /// Update element
    pub fn update(&mut self, key: &[u8], value: &[u8], flags: u64) -> (r: Result<(), BpfError>)
        requires
            old(self).wf(),
        ensures
            final(self).wf(),
            match update_spec(old(self)@, key@, value@, flags) {
                Ok(m) => r is Ok && final(self)@ == m,
                Err(e) => r == Err::<(), BpfError>(e) && final(self)@ == old(self)@,
            },
    {
        if key.len() != self.key_size as usize || value.len() != self.value_size as usize {
            return Err(BpfError::InvalidProgram);
        }
        let max = self.max_entries;
        match &mut self.data {
            MapData::Hash(t) => {
                let contains = t.find(key).1;
                if flags == 1 && contains {
                    return Err(BpfError::MapFull);
                }
                if flags == 2 && !contains {
                    return Err(BpfError::KeyNotFound);
                }
                if t.len() >= max as usize && !contains {
                    return Err(BpfError::MapFull);
                }
                t.insert(key, value);
                Ok(())
            },
            MapData::Array(arr) => {
                if key.len() < 4 {
                    return Err(BpfError::InvalidProgram);
                }
                let index = key_index(key);
                if index as usize >= arr.len() {
                    return Err(BpfError::OutOfBounds);
                }
                let ghost before = arr@;
                arr.set(index as usize, slice_to_vec(value));
                assert(arr@.map_values(|v: Vec<u8>| v@) =~= before.map_values(|v: Vec<u8>| v@).update(index as int, value@));
                Ok(())
            },
            _ => Err(BpfError::InvalidMapType),
        }
    }

    /// Delete element
    pub fn delete(&mut self, key: &[u8]) -> (r: Result<(), BpfError>)
        requires
            old(self).wf(),
        ensures
            final(self).wf(),
            match delete_spec(old(self)@, key@) {
                Ok(m) => r is Ok && final(self)@ == m,
                Err(e) => r == Err::<(), BpfError>(e) && final(self)@ == old(self)@,
            },
    {
        if key.len() != self.key_size as usize {
            return Err(BpfError::InvalidProgram);
        }
        match &mut self.data {
            MapData::Hash(t) => {
                if t.remove(key) {
                    Ok(())
                } else {
                    Err(BpfError::KeyNotFound)
                }
            },
            _ => Err(BpfError::InvalidMapType),
        }
    }

    /// Get next key
    pub fn get_next_key(&self, key: Option<&[u8]>) -> (r: Result<Option<Vec<u8>>, BpfError>)
        requires
            self.wf(),
        ensures
            res_opt_bytes(r) == next_key_spec(self@, match key {
                Some(k) => Some(k@),
                None => None,
            }),
    {
        match &self.data {
            MapData::Hash(t) => match key {
                None => Ok(t.first_key()),
                Some(k) => t.key_after(k),
            },
            MapData::Array(arr) => match key {
                None => {
                    if arr.len() == 0 {
                        Ok(None)
                    } else {
                        let mut v: Vec<u8> = Vec::new();
                        push_u32_le(&mut v, 0);
                        assert(v@ =~= le32(0));
                        Ok(Some(v))
                    }
                },
                Some(k) => {
                    if k.len() < 4 {
                        return Err(BpfError::InvalidProgram);
                    }
                    let index = key_index(k) as u64;
                    if index + 1 >= arr.len() as u64 {
                        Ok(None)
                    } else {
                        let mut v: Vec<u8> = Vec::new();
                        push_u32_le(&mut v, (index + 1) as u32);
                        assert(v@ =~= le32((index + 1) as u32));
                        Ok(Some(v))
                    }
                },
            },
            _ => Err(BpfError::InvalidMapType),
        }
    }

    /// Push to queue
    pub fn push(&mut self, value: &[u8]) -> (r: Result<(), BpfError>)
        requires
            old(self).wf(),
        ensures
            final(self).wf(),
            match push_spec(old(self)@, value@) {
                Ok(m) => r is Ok && final(self)@ == m,
                Err(e) => r == Err::<(), BpfError>(e) && final(self)@ == old(self)@,
            },
    {
        if value.len() != self.value_size as usize {
            return Err(BpfError::InvalidProgram);
        }
        match &mut self.data {
            MapData::Queue(queue) => queue.push(value),
            MapData::Stack(stack) => stack.push(value),
            _ => Err(BpfError::InvalidMapType),
        }
    }

    /// Pop from queue/stack
    pub fn pop(&mut self) -> (r: Result<Option<Vec<u8>>, BpfError>)
        requires
            old(self).wf(),
        ensures
            final(self).wf(),
            match pop_spec(old(self)@) {
                Ok((v, m)) => res_opt_bytes(r) == Ok::<Option<Seq<u8>>, BpfError>(v) && final(self)@ == m,
                Err(e) => r == Err::<Option<Vec<u8>>, BpfError>(e) && final(self)@ == old(self)@,
            },
    {
        match &mut self.data {
            MapData::Queue(queue) => Ok(queue.pop()),
            MapData::Stack(stack) => Ok(stack.pop()),
            _ => Err(BpfError::InvalidMapType),
        }
    }

    /// Peek at queue/stack
    pub fn peek(&self) -> (r: Result<Option<Vec<u8>>, BpfError>)
        requires
            self.wf(),
        ensures
            res_opt_bytes(r) == peek_spec(self@),
    {
        match &self.data {
            MapData::Queue(queue) => Ok(queue.peek()),
            MapData::Stack(stack) => Ok(stack.peek()),
            _ => Err(BpfError::InvalidMapType),
        }
    }

    /// Reserve space in ring buffer
    pub fn ringbuf_reserve(&mut self, size: usize) -> (r: Result<u64, BpfError>)
        requires
            old(self).wf(),
        ensures
            final(self).wf(),
            match reserve_spec(old(self)@, size as nat) {
                Ok((p, m)) => r == Ok::<u64, BpfError>(p) && final(self)@ == m,
                Err(e) => r == Err::<u64, BpfError>(e) && final(self)@ == old(self)@,
            },
    {
        match &mut self.data {
            MapData::RingBuf(rb) => rb.reserve(size),
            _ => Err(BpfError::InvalidMapType),
        }
    }

    /// Submit ring buffer reservation
    pub fn ringbuf_submit(&self, ptr: u64) -> (r: Result<(), BpfError>)
        ensures
            r == ring_commit_spec(self@),
    {
        match &self.data {
            MapData::RingBuf(_) => Ok(()),
            _ => Err(BpfError::InvalidMapType),
        }
    }

    /// Discard ring buffer reservation
    pub fn ringbuf_discard(&self, ptr: u64) -> (r: Result<(), BpfError>)
        ensures
            r == ring_commit_spec(self@),
    {
        match &self.data {
            MapData::RingBuf(_) => Ok(()),
            _ => Err(BpfError::InvalidMapType),
        }
    }

    /// Add reference
    pub fn add_ref(&mut self)
        requires
            old(self).wf(),
        ensures
            final(self).wf(),
            final(self)@ == (BpfMapView { refs: old(self)@.refs.wrapping_add(1), ..old(self)@ }),
    {
        self.refs = self.refs.wrapping_add(1);
    }

    /// Release reference; whether it was the last one
    pub fn release(&mut self) -> (last: bool)
        requires
            old(self).wf(),
        ensures
            final(self).wf(),
            last == (old(self)@.refs == 1),
            final(self)@ == (BpfMapView { refs: old(self)@.refs.wrapping_sub(1), ..old(self)@ }),
    {
        let prev = self.refs;
        self.refs = self.refs.wrapping_sub(1);
        prev == 1
    }
}

// -----------------------------------------------------------------------------
// Laws
// -----------------------------------------------------------------------------

/// After a successful update, a lookup of the same key answers the stored value.
pub proof fn lemma_lookup_after_update(m: BpfMapView, key: Seq<u8>, value: Seq<u8>, flags: u64)
    requires
        update_spec(m, key, value, flags) is Ok,
    ensures
        lookup_spec(update_spec(m, key, value, flags)->Ok_0, key) == Ok::<Option<Seq<u8>>, BpfError>(Some(value)),
{
}

/// After a successful delete, a lookup of that key answers nothing.
pub proof fn lemma_lookup_after_delete(m: BpfMapView, key: Seq<u8>)
    requires
        delete_spec(m, key) is Ok,
    ensures
        lookup_spec(delete_spec(m, key)->Ok_0, key) == Ok::<Option<Seq<u8>>, BpfError>(None),
{
}

/// An update of a hash map leaves every other key's value as it was.
pub proof fn lemma_update_keeps_other_keys(m: BpfMapView, key: Seq<u8>, value: Seq<u8>, flags: u64, other: Seq<u8>)
    requires
        m.contents is Hash,
        update_spec(m, key, value, flags) is Ok,
        other != key,
    ensures
        lookup_spec(update_spec(m, key, value, flags)->Ok_0, other) == lookup_spec(m, other),
{
}

/// A queue hands values out oldest first: after a push, a pop takes the
/// front value, or the pushed one if the queue was empty (and then leaves
/// the map as it was).
pub proof fn lemma_queue_fifo(m: BpfMapView, value: Seq<u8>)
    requires
        m.contents is Queue,
        push_spec(m, value) is Ok,
    ensures
        ({
            let q = m.contents->Queue_0;
            let popped = pop_spec(push_spec(m, value)->Ok_0);
            &&& popped is Ok
            &&& popped->Ok_0.0 == Some(if q.len() == 0 { value } else { q[0] })
            &&& q.len() == 0 ==> popped->Ok_0.1 == m
        }),
{
    let q = m.contents->Queue_0;
    if q.len() == 0 {
        assert(q.push(value).drop_first() =~= q);
    }
}

/// A stack hands the newest value out first: a pop right after a push
/// takes the pushed value and leaves the map as it was.
pub proof fn lemma_stack_lifo(m: BpfMapView, value: Seq<u8>)
    requires
        m.contents is Stack,
        push_spec(m, value) is Ok,
    ensures
        pop_spec(push_spec(m, value)->Ok_0) == Ok::<(Option<Seq<u8>>, BpfMapView), BpfError>((Some(value), m)),
{
    let q = m.contents->Stack_0;
    assert(q.push(value).drop_last() =~= q);
}

/// A reservation starts at the producer position, and the producer
/// position stays inside the ring.
pub proof fn lemma_reserve_in_ring(m: BpfMapView, size: nat)
    requires
        m.contents matches MapContents::RingBuf { head, tail, capacity } && head < capacity,
        reserve_spec(m, size) is Ok,
    ensures
        ({
            let (p, m2) = reserve_spec(m, size)->Ok_0;
            &&& p == m.contents->head as u64
            &&& m2.contents matches MapContents::RingBuf { head, tail, capacity } && head < capacity
        }),
{
    if let MapContents::RingBuf { head, tail, capacity } = m.contents {
        let x = (head + size + 8) as nat;
        assert(x % capacity < capacity) by (nonlinear_arith)
            requires
                capacity > 0,
        ;
    }
}

/// The key that follows `k` is a key greater than `k`, and no key lies
/// between them.
pub proof fn lemma_next_key_is_least_greater(h: Map<Seq<u8>, Seq<u8>>, k: Seq<u8>)
    requires
        next_key(h, Some(k)) is Some,
    ensures
        h.dom().contains(next_key(h, Some(k))->Some_0),
        key_lt(k, next_key(h, Some(k))->Some_0),
        forall|o: Seq<u8>| h.dom().contains(o) && key_lt(k, o) ==> !key_lt(o, next_key(h, Some(k))->Some_0),
{
}

/// Releasing a reference right after adding one restores the count, and
/// reports the last reference exactly when there was none before.
pub proof fn lemma_release_undoes_add_ref(refs: u64)
    ensures
        refs.wrapping_add(1).wrapping_sub(1) == refs,
        (refs.wrapping_add(1) == 1) == (refs == 0),
{
}

} // verus!
