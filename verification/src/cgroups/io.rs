//! I/O controller: per-device bandwidth and operation-rate limits,
//! weights for fair scheduling, latency targets, and usage accounting.
use vstd::prelude::*;
use super::{CgroupError, res_bytes, psi_text, push_psi};
use crate::text::{bytes_equal, byte_index, dec, find_byte, parse_unsigned, parse_u32, parse_u64, push_dec, split_words, starts_with, trim, trim_bytes, trim_end, trim_end_vec, words, lemma_index_from_bounds};
use crate::wire::{copy_range, extend_bytes};

verus! {

/// Default I/O weight
pub const IO_WEIGHT_DEFAULT: u64 = 100;

/// Max I/O weight
pub const IO_WEIGHT_MAX: u64 = 10000;

// -----------------------------------------------------------------------------
// Tables keyed by device number
// -----------------------------------------------------------------------------

/// Whether device number `a` orders before `b` (by major, then minor).
pub open spec fn dev_lt(a: (u32, u32), b: (u32, u32)) -> bool {
    a.0 < b.0 || (a.0 == b.0 && a.1 < b.1)
}

/// Whether the entries' device numbers strictly increase.
pub open spec fn dev_sorted<V>(s: Seq<((u32, u32), V)>) -> bool {
    forall|i: int, j: int| #![trigger s[i], s[j]] 0 <= i < j < s.len() ==> dev_lt(s[i].0, s[j].0)
}

/// Index of the first entry whose device does not order before `k`.
pub open spec fn dev_pos<V>(s: Seq<((u32, u32), V)>, k: (u32, u32)) -> int
    decreases s.len(),
{
    if s.len() == 0 {
        0
    } else if dev_lt(s[0].0, k) {
        1 + dev_pos(s.drop_first(), k)
    } else {
        0
    }
}

/// The value stored for device `k`.
pub open spec fn dev_lookup<V>(s: Seq<((u32, u32), V)>, k: (u32, u32)) -> Option<V> {
    let p = dev_pos(s, k);
    if 0 <= p < s.len() && s[p].0 == k { Some(s[p].1) } else { None }
}

/// The entries after storing `v` for device `k`: replaced in place, or
/// inserted where the order puts it.
pub open spec fn dev_insert<V>(s: Seq<((u32, u32), V)>, k: (u32, u32), v: V) -> Seq<((u32, u32), V)> {
    let p = dev_pos(s, k);
    if 0 <= p < s.len() && s[p].0 == k { s.update(p, (k, v)) } else { s.insert(p, (k, v)) }
}

proof fn lemma_dev_pos<V>(s: Seq<((u32, u32), V)>, k: (u32, u32))
    ensures
        0 <= dev_pos(s, k) <= s.len(),
        forall|j: int| 0 <= j < dev_pos(s, k) ==> dev_lt(#[trigger] s[j].0, k),
        dev_pos(s, k) < s.len() ==> !dev_lt(s[dev_pos(s, k)].0, k),
    decreases s.len(),
{
    if s.len() > 0 && dev_lt(s[0].0, k) {
        lemma_dev_pos(s.drop_first(), k);
        assert forall|j: int| 0 <= j < dev_pos(s, k) implies dev_lt(#[trigger] s[j].0, k) by {
            if j > 0 {
                assert(s[j] == s.drop_first()[j - 1]);
            }
        }
    }
}

/// In sorted entries, the entry holding device `k` is the one its lookup finds.
proof fn lemma_dev_lookup_finds<V>(s: Seq<((u32, u32), V)>, k: (u32, u32), i: int)
    requires
        dev_sorted(s),
        0 <= i < s.len(),
        s[i].0 == k,
    ensures
        dev_pos(s, k) == i,
        dev_lookup(s, k) == Some(s[i].1),
{
    lemma_dev_pos(s, k);
    let p = dev_pos(s, k);
    if p < i {
        assert(dev_lt(s[p].0, s[i].0));
    }
    if p > i {
        assert(dev_lt(s[i].0, k));
    }
}

/// Storing a value for a device keeps the entries sorted, makes a lookup
/// of that device give the value, and leaves every other device's value
/// as it was.
pub proof fn lemma_dev_insert<V>(s: Seq<((u32, u32), V)>, k: (u32, u32), v: V)
    requires
        dev_sorted(s),
    ensures
        dev_sorted(dev_insert(s, k, v)),
        dev_lookup(dev_insert(s, k, v), k) == Some(v),
        forall|k2: (u32, u32)| k2 != k ==> #[trigger] dev_lookup(dev_insert(s, k, v), k2) == dev_lookup(s, k2),
{
    lemma_dev_pos(s, k);
    let p = dev_pos(s, k);
    let t = dev_insert(s, k, v);
    let found = 0 <= p < s.len() && s[p].0 == k;
    if found {
        assert(dev_sorted(t)) by {
            assert forall|i: int, j: int| #![trigger t[i], t[j]] 0 <= i < j < t.len() implies dev_lt(t[i].0, t[j].0) by {
                assert(s[i].0 == t[i].0 && s[j].0 == t[j].0);
            }
        }
    } else {
        assert(dev_sorted(t)) by {
            assert forall|i: int, j: int| #![trigger t[i], t[j]] 0 <= i < j < t.len() implies dev_lt(t[i].0, t[j].0) by {
                if j < p {
                    assert(t[i] == s[i] && t[j] == s[j]);
                } else if j == p {
                    assert(t[i] == s[i]);
                } else if i < p {
                    assert(t[i] == s[i] && t[j] == s[j - 1]);
                    assert(!dev_lt(s[p].0, k));
                    if p < j - 1 {
                        assert(dev_lt(s[p].0, s[j - 1].0));
                    }
                } else if i == p {
                    assert(t[j] == s[j - 1]);
                    assert(!dev_lt(s[p].0, k) && s[p].0 != k);
                    if p < j - 1 {
                        assert(dev_lt(s[p].0, s[j - 1].0));
                    }
                } else {
                    assert(t[i] == s[i - 1] && t[j] == s[j - 1]);
                }
            }
        }
    }
    assert(t[p] == (k, v));
    lemma_dev_lookup_finds(t, k, p);
    assert forall|k2: (u32, u32)| k2 != k implies #[trigger] dev_lookup(t, k2) == dev_lookup(s, k2) by {
        if exists|i: int| 0 <= i < s.len() && s[i].0 == k2 {
            let i = choose|i: int| 0 <= i < s.len() && s[i].0 == k2;
            lemma_dev_lookup_finds(s, k2, i);
            if found {
                lemma_dev_lookup_finds(t, k2, i);
            } else if i < p {
                assert(t[i] == s[i]);
                lemma_dev_lookup_finds(t, k2, i);
            } else {
                assert(t[i + 1] == s[i]);
                lemma_dev_lookup_finds(t, k2, i + 1);
            }
        } else {
            lemma_dev_pos(t, k2);
            let q = dev_pos(t, k2);
            if 0 <= q < t.len() && t[q].0 == k2 {
                if found {
                    assert(s[q].0 == k2);
                } else if q < p {
                    assert(s[q] == t[q]);
                } else if q > p {
                    assert(s[q - 1] == t[q]);
                }
            }
        }
    }
}

/// A table of values keyed by device number (major, minor), kept in
/// increasing device order.
pub struct DevMap<V> {
    entries: Vec<((u32, u32), V)>,
}

impl<V> View for DevMap<V> {
    type V = Seq<((u32, u32), V)>;

    closed spec fn view(&self) -> Seq<((u32, u32), V)> {
        self.entries@
    }
}

impl<V: Copy> DevMap<V> {
    /// An empty table.
    pub fn new() -> (r: Self)
        ensures
            r@ == Seq::<((u32, u32), V)>::empty(),
    {
        DevMap { entries: Vec::new() }
    }

    /// Number of devices in the table.
    pub fn len(&self) -> (r: usize)
        ensures
            r == self@.len(),
    {
        self.entries.len()
    }

    /// Position of the first entry not ordering before `key`.
    fn position(&self, key: (u32, u32)) -> (r: usize)
        ensures
            r == dev_pos(self@, key),
            r <= self@.len(),
    {
        proof {
            lemma_dev_pos(self@, key);
        }
        let mut i: usize = 0;
        while i < self.entries.len() && (self.entries[i].0.0 < key.0 || (self.entries[i].0.0 == key.0 && self.entries[i].0.1 < key.1))
            invariant
                i <= self@.len(),
                forall|j: int| 0 <= j < i ==> dev_lt(#[trigger] self@[j].0, key),
                dev_pos(self@, key) <= self@.len(),
                forall|j: int| 0 <= j < dev_pos(self@, key) ==> dev_lt(#[trigger] self@[j].0, key),
                dev_pos(self@, key) < self@.len() ==> !dev_lt(self@[dev_pos(self@, key)].0, key),
            decreases self@.len() - i,
        {
            i = i + 1;
        }
        i
    }

    /// The value stored for `key`.
    pub fn get(&self, key: (u32, u32)) -> (r: Option<V>)
        ensures
            r == dev_lookup(self@, key),
    {
        let p = self.position(key);
        if p < self.entries.len() && self.entries[p].0.0 == key.0 && self.entries[p].0.1 == key.1 {
            Some(self.entries[p].1)
        } else {
            None
        }
    }

    /// Store `value` for `key`, replacing what was there.
    pub fn insert(&mut self, key: (u32, u32), value: V)
        ensures
            final(self)@ == dev_insert(old(self)@, key, value),
    {
        let p = self.position(key);
        if p < self.entries.len() && self.entries[p].0.0 == key.0 && self.entries[p].0.1 == key.1 {
            self.entries.set(p, (key, value));
        } else {
            self.entries.insert(p, (key, value));
        }
    }
}

// -----------------------------------------------------------------------------
// Limits and statistics
// -----------------------------------------------------------------------------

/// I/O max limits for a device (0 is no limit)
#[derive(Clone, Copy, Debug)]
pub struct IoMax {
    /// Read bytes per second
    pub rbps: u64,
    /// Write bytes per second
    pub wbps: u64,
    /// Read I/O operations per second
    pub riops: u64,
    /// Write I/O operations per second
    pub wiops: u64,
}

/// No limits at all.
pub open spec fn io_max_zero() -> IoMax {
    IoMax { rbps: 0, wbps: 0, riops: 0, wiops: 0 }
}

impl Default for IoMax {
    fn default() -> (r: Self)
        ensures
            r == io_max_zero(),
    {
        IoMax { rbps: 0, wbps: 0, riops: 0, wiops: 0 }
    }
}

/// `name=value` as a one-element list when the value is set, else nothing.
pub open spec fn limit_part(name: Seq<u8>, v: u64) -> Seq<Seq<u8>> {
    if v > 0 { seq![name + /* "=" */ seq![61u8] + dec(v as nat)] } else { Seq::empty() }
}

/// The words of a list joined by single spaces.
pub open spec fn join_spaced(parts: Seq<Seq<u8>>) -> Seq<u8>
    decreases parts.len(),
{
    if parts.len() == 0 {
        Seq::empty()
    } else if parts.len() == 1 {
        parts[0]
    } else {
        join_spaced(parts.drop_last()) + /* " " */ seq![32u8] + parts.last()
    }
}

/// The set limits of a device, as `rbps=N wbps=N riops=N wiops=N` with
/// the unset ones left out.
pub open spec fn io_max_parts(m: IoMax) -> Seq<Seq<u8>> {
    limit_part(/* "rbps" */ seq![114u8, 98u8, 112u8, 115u8], m.rbps) + limit_part(/* "wbps" */ seq![119u8, 98u8, 112u8, 115u8], m.wbps)
        + limit_part(/* "riops" */ seq![114u8, 105u8, 111u8, 112u8, 115u8], m.riops) + limit_part(/* "wiops" */ seq![119u8, 105u8, 111u8, 112u8, 115u8], m.wiops)
}

/// Append `name=value` to the joined text when the value is set; `empty`
/// tells whether nothing has been joined yet.
fn push_limit_part(out: &mut Vec<u8>, Ghost(parts): Ghost<Seq<Seq<u8>>>, empty: bool, name: &[u8], v: u64) -> (r: bool)
    requires
        old(out)@ == join_spaced(parts),
        empty == (parts.len() == 0),
    ensures
        final(out)@ == join_spaced(parts + limit_part(name@, v)),
        r == ((parts + limit_part(name@, v)).len() == 0),
{
    if v > 0 {
        let ghost np = parts + limit_part(name@, v);
        if !empty {
            out.push(32);
        }
        extend_bytes(out, name);
        out.push(61);
        push_dec(out, v);
        proof {
            assert(np.drop_last() =~= parts);
            assert(np.last() =~= name@ + seq![61u8] + dec(v as nat));
            assert(final(out)@ =~= join_spaced(np));
        }
        false
    } else {
        assert(parts + limit_part(name@, v) =~= parts);
        empty
    }
}

impl IoMax {
    /// The set limits as `key=value` words joined by spaces.
    pub fn format(&self) -> (r: Vec<u8>)
        ensures
            r@ == join_spaced(io_max_parts(*self)),
    {
        let mut out: Vec<u8> = Vec::new();
        let ghost p0 = Seq::<Seq<u8>>::empty();
        let ghost p1 = p0 + limit_part(/* "rbps" */ seq![114u8, 98u8, 112u8, 115u8], self.rbps);
        let ghost p2 = p1 + limit_part(/* "wbps" */ seq![119u8, 98u8, 112u8, 115u8], self.wbps);
        let ghost p3 = p2 + limit_part(/* "riops" */ seq![114u8, 105u8, 111u8, 112u8, 115u8], self.riops);
        let rbps = /* "rbps" */ [114u8, 98u8, 112u8, 115u8];
        let wbps = /* "wbps" */ [119u8, 98u8, 112u8, 115u8];
        let riops = /* "riops" */ [114u8, 105u8, 111u8, 112u8, 115u8];
        let wiops = /* "wiops" */ [119u8, 105u8, 111u8, 112u8, 115u8];
        proof {
            assert(rbps@ =~= /* "rbps" */ seq![114u8, 98u8, 112u8, 115u8]);
            assert(wbps@ =~= /* "wbps" */ seq![119u8, 98u8, 112u8, 115u8]);
            assert(riops@ =~= /* "riops" */ seq![114u8, 105u8, 111u8, 112u8, 115u8]);
            assert(wiops@ =~= /* "wiops" */ seq![119u8, 105u8, 111u8, 112u8, 115u8]);
        }
        let e = push_limit_part(&mut out, Ghost(p0), true, rbps.as_slice(), self.rbps);
        let e = push_limit_part(&mut out, Ghost(p1), e, wbps.as_slice(), self.wbps);
        let e = push_limit_part(&mut out, Ghost(p2), e, riops.as_slice(), self.riops);
        let _ = push_limit_part(&mut out, Ghost(p3), e, wiops.as_slice(), self.wiops);
        proof {
            assert(p3 + limit_part(/* "wiops" */ seq![119u8, 105u8, 111u8, 112u8, 115u8], self.wiops) =~= io_max_parts(*self));
        }
        out
    }
}

/// I/O statistics for a device
#[derive(Clone, Copy, Debug)]
pub struct IoStats {
    pub rbytes: u64,
    pub wbytes: u64,
    pub rios: u64,
    pub wios: u64,
    pub dbytes: u64,
    pub dios: u64,
}

/// Statistics with every counter at zero.
pub open spec fn io_stats_zero() -> IoStats {
    IoStats { rbytes: 0, wbytes: 0, rios: 0, wios: 0, dbytes: 0, dios: 0 }
}

/// `major:minor` in decimal.
pub open spec fn dev_text(major: u32, minor: u32) -> Seq<u8> {
    dec(major as nat) + /* ":" */ seq![58u8] + dec(minor as nat)
}

/// A device's statistics line.
pub open spec fn io_stats_text(s: IoStats, major: u32, minor: u32) -> Seq<u8> {
    dev_text(major, minor)
        + /* " rbytes=" */ seq![32u8, 114u8, 98u8, 121u8, 116u8, 101u8, 115u8, 61u8] + dec(s.rbytes as nat)
        + /* " wbytes=" */ seq![32u8, 119u8, 98u8, 121u8, 116u8, 101u8, 115u8, 61u8] + dec(s.wbytes as nat)
        + /* " rios=" */ seq![32u8, 114u8, 105u8, 111u8, 115u8, 61u8] + dec(s.rios as nat)
        + /* " wios=" */ seq![32u8, 119u8, 105u8, 111u8, 115u8, 61u8] + dec(s.wios as nat)
        + /* " dbytes=" */ seq![32u8, 100u8, 98u8, 121u8, 116u8, 101u8, 115u8, 61u8] + dec(s.dbytes as nat)
        + /* " dios=" */ seq![32u8, 100u8, 105u8, 111u8, 115u8, 61u8] + dec(s.dios as nat)
}

impl Default for IoStats {
    fn default() -> (r: Self)
        ensures
            r == io_stats_zero(),
    {
        IoStats { rbytes: 0, wbytes: 0, rios: 0, wios: 0, dbytes: 0, dios: 0 }
    }
}

/// Append `major:minor`.
fn push_dev(out: &mut Vec<u8>, major: u32, minor: u32)
    ensures
        final(out)@ == old(out)@ + dev_text(major, minor),
{
    push_dec(out, major as u64);
    out.push(58);
    push_dec(out, minor as u64);
    assert(final(out)@ =~= old(out)@ + dev_text(major, minor));
}

impl IoStats {
    /// Statistics with every counter at zero.
    pub fn new() -> (r: Self)
        ensures
            r == io_stats_zero(),
    {
        Self::default()
    }

    /// The statistics line of device `major:minor`.
    pub fn format(&self, major: u32, minor: u32) -> (r: Vec<u8>)
        ensures
            r@ == io_stats_text(*self, major, minor),
    {
        let mut out: Vec<u8> = Vec::new();
        push_dev(&mut out, major, minor);
        extend_bytes(&mut out, /* " rbytes=" */ [32u8, 114u8, 98u8, 121u8, 116u8, 101u8, 115u8, 61u8].as_slice());
        push_dec(&mut out, self.rbytes);
        extend_bytes(&mut out, /* " wbytes=" */ [32u8, 119u8, 98u8, 121u8, 116u8, 101u8, 115u8, 61u8].as_slice());
        push_dec(&mut out, self.wbytes);
        extend_bytes(&mut out, /* " rios=" */ [32u8, 114u8, 105u8, 111u8, 115u8, 61u8].as_slice());
        push_dec(&mut out, self.rios);
        extend_bytes(&mut out, /* " wios=" */ [32u8, 119u8, 105u8, 111u8, 115u8, 61u8].as_slice());
        push_dec(&mut out, self.wios);
        extend_bytes(&mut out, /* " dbytes=" */ [32u8, 100u8, 98u8, 121u8, 116u8, 101u8, 115u8, 61u8].as_slice());
        push_dec(&mut out, self.dbytes);
        extend_bytes(&mut out, /* " dios=" */ [32u8, 100u8, 105u8, 111u8, 115u8, 61u8].as_slice());
        push_dec(&mut out, self.dios);
        assert(out@ =~= io_stats_text(*self, major, minor));
        out
    }
}

// -----------------------------------------------------------------------------
// The controller
// -----------------------------------------------------------------------------

/// I/O controller state
pub struct IoController {
    /// Default weight for all devices
    pub weight: u64,
    /// Per-device weights (major:minor -> weight)
    pub device_weights: DevMap<u64>,
    /// Per-device max limits
    pub device_max: DevMap<IoMax>,
    /// Per-device latency targets
    pub device_latency: DevMap<u64>,
    /// Statistics per device
    pub stats: DevMap<IoStats>,
    /// Total bytes read
    pub rbytes: u64,
    /// Total bytes written
    pub wbytes: u64,
    /// Total read operations
    pub rios: u64,
    /// Total write operations
    pub wios: u64,
    /// Total discard bytes
    pub dbytes: u64,
    /// Total discard operations
    pub dios: u64,
}

/// What an I/O controller holds, its tables as entry lists in device order.
pub struct IoControllerView {
    pub weight: u64,
    pub device_weights: Seq<((u32, u32), u64)>,
    pub device_max: Seq<((u32, u32), IoMax)>,
    pub device_latency: Seq<((u32, u32), u64)>,
    pub stats: Seq<((u32, u32), IoStats)>,
    pub rbytes: u64,
    pub wbytes: u64,
    pub rios: u64,
    pub wios: u64,
    pub dbytes: u64,
    pub dios: u64,
}

impl View for IoController {
    type V = IoControllerView;

    open spec fn view(&self) -> IoControllerView {
        IoControllerView {
            weight: self.weight,
            device_weights: self.device_weights@,
            device_max: self.device_max@,
            device_latency: self.device_latency@,
            stats: self.stats@,
            rbytes: self.rbytes,
            wbytes: self.wbytes,
            rios: self.rios,
            wios: self.wios,
            dbytes: self.dbytes,
            dios: self.dios,
        }
    }
}

/// Whether every table of the controller is in device order.
pub open spec fn io_wf(c: IoControllerView) -> bool {
    dev_sorted(c.device_weights) && dev_sorted(c.device_max) && dev_sorted(c.device_latency) && dev_sorted(c.stats)
}

/// A fresh controller: default weight, empty tables, zero counters.
pub open spec fn io_initial() -> IoControllerView {
    IoControllerView {
        weight: IO_WEIGHT_DEFAULT,
        device_weights: Seq::empty(),
        device_max: Seq::empty(),
        device_latency: Seq::empty(),
        stats: Seq::empty(),
        rbytes: 0,
        wbytes: 0,
        rios: 0,
        wios: 0,
        dbytes: 0,
        dios: 0,
    }
}

/// Whether an I/O of `bytes` is within the device's limits: a set byte
/// rate is not passed by the running total, and a set operation rate is
/// not reached yet.
pub open spec fn io_allowed(c: IoControllerView, device: (u32, u32), bytes: u64, is_write: bool) -> bool {
    match dev_lookup(c.device_max, device) {
        Some(m) => if is_write {
            (m.wbps == 0 || c.wbytes + bytes <= m.wbps) && (m.wiops == 0 || c.wios < m.wiops)
        } else {
            (m.rbps == 0 || c.rbytes + bytes <= m.rbps) && (m.riops == 0 || c.rios < m.riops)
        },
        None => true,
    }
}

/// Whether checking `bytes` against the device's byte rate stays in range.
pub open spec fn io_check_fits(c: IoControllerView, device: (u32, u32), bytes: u64, is_write: bool) -> bool {
    match dev_lookup(c.device_max, device) {
        Some(m) => if is_write {
            m.wbps > 0 ==> c.wbytes + bytes <= u64::MAX
        } else {
            m.rbps > 0 ==> c.rbytes + bytes <= u64::MAX
        },
        None => true,
    }
}

impl IoController {
    /// Create new I/O controller
    pub fn new() -> (r: Self)
        ensures
            r@ == io_initial(),
            io_wf(r@),
    {
        IoController {
            weight: IO_WEIGHT_DEFAULT,
            device_weights: DevMap::new(),
            device_max: DevMap::new(),
            device_latency: DevMap::new(),
            stats: DevMap::new(),
            rbytes: 0,
            wbytes: 0,
            rios: 0,
            wios: 0,
            dbytes: 0,
            dios: 0,
        }
    }

    /// Account an I/O operation of `bytes` to the read or write totals
    pub fn account(&mut self, bytes: u64, is_write: bool)
        ensures
            final(self)@ == (if is_write {
                IoControllerView { wbytes: old(self).wbytes.wrapping_add(bytes), wios: old(self).wios.wrapping_add(1), ..old(self)@ }
            } else {
                IoControllerView { rbytes: old(self).rbytes.wrapping_add(bytes), rios: old(self).rios.wrapping_add(1), ..old(self)@ }
            }),
    {
        if is_write {
            self.wbytes = self.wbytes.wrapping_add(bytes);
            self.wios = self.wios.wrapping_add(1);
        } else {
            self.rbytes = self.rbytes.wrapping_add(bytes);
            self.rios = self.rios.wrapping_add(1);
        }
    }

    /// Check if I/O is allowed (bandwidth limit check)
    pub fn check_limit(&self, device: (u32, u32), bytes: u64, is_write: bool) -> (r: bool)
        requires
            io_check_fits(self@, device, bytes, is_write),
        ensures
            r == io_allowed(self@, device, bytes, is_write),
    {
        match self.device_max.get(device) {
            Some(max) => {
                if is_write {
                    if max.wbps > 0 {
                        if self.wbytes + bytes > max.wbps {
                            return false;
                        }
                    }
                    if max.wiops > 0 {
                        if self.wios >= max.wiops {
                            return false;
                        }
                    }
                } else {
                    if max.rbps > 0 {
                        if self.rbytes + bytes > max.rbps {
                            return false;
                        }
                    }
                    if max.riops > 0 {
                        if self.rios >= max.riops {
                            return false;
                        }
                    }
                }
                true
            },
            None => true,
        }
    }

    /// Get weight for a device: its own, else the default
    pub fn get_weight(&self, device: (u32, u32)) -> (r: u64)
        ensures
            r == match dev_lookup(self.device_weights@, device) {
                Some(w) => w,
                None => self.weight,
            },
    {
        match self.device_weights.get(device) {
            Some(w) => w,
            None => self.weight,
        }
    }
}

impl Default for IoController {
    fn default() -> (r: Self)
        ensures
            r@ == io_initial(),
    {
        Self::new()
    }
}

// -----------------------------------------------------------------------------
// Reading and writing the controller's files
// -----------------------------------------------------------------------------

/// One `major:minor weight` line per device.
pub open spec fn weight_lines(s: Seq<((u32, u32), u64)>) -> Seq<u8>
    decreases s.len(),
{
    if s.len() == 0 {
        Seq::empty()
    } else {
        weight_lines(s.drop_last()) + dev_text(s.last().0.0, s.last().0.1) + /* " " */ seq![32u8] + dec(s.last().1 as nat) + /* "\n" */ seq![10u8]
    }
}

/// One `major:minor limits` line per device.
pub open spec fn max_lines(s: Seq<((u32, u32), IoMax)>) -> Seq<u8>
    decreases s.len(),
{
    if s.len() == 0 {
        Seq::empty()
    } else {
        max_lines(s.drop_last()) + dev_text(s.last().0.0, s.last().0.1) + /* " " */ seq![32u8] + join_spaced(io_max_parts(s.last().1)) + /* "\n" */ seq![10u8]
    }
}

/// One `major:minor target=N` line per device.
pub open spec fn latency_lines(s: Seq<((u32, u32), u64)>) -> Seq<u8>
    decreases s.len(),
{
    if s.len() == 0 {
        Seq::empty()
    } else {
        latency_lines(s.drop_last()) + dev_text(s.last().0.0, s.last().0.1) + /* " target=" */ seq![32u8, 116u8, 97u8, 114u8, 103u8, 101u8, 116u8, 61u8] + dec(s.last().1 as nat) + /* "\n" */ seq![10u8]
    }
}

/// One statistics line per device.
pub open spec fn stat_lines(s: Seq<((u32, u32), IoStats)>) -> Seq<u8>
    decreases s.len(),
{
    if s.len() == 0 {
        Seq::empty()
    } else {
        stat_lines(s.drop_last()) + io_stats_text(s.last().1, s.last().0.0, s.last().0.1) + /* "\n" */ seq![10u8]
    }
}

/// The closing line of `stat`: the controller's totals.
pub open spec fn io_totals_text(c: IoControllerView) -> Seq<u8> {
    /* "Total: rbytes=" */ seq![84u8, 111u8, 116u8, 97u8, 108u8, 58u8, 32u8, 114u8, 98u8, 121u8, 116u8, 101u8, 115u8, 61u8] + dec(c.rbytes as nat) + /* " wbytes=" */ seq![32u8, 119u8, 98u8, 121u8, 116u8, 101u8, 115u8, 61u8] + dec(c.wbytes as nat)
        + /* " rios=" */ seq![32u8, 114u8, 105u8, 111u8, 115u8, 61u8] + dec(c.rios as nat) + /* " wios=" */ seq![32u8, 119u8, 105u8, 111u8, 115u8, 61u8] + dec(c.wios as nat)
}

/// What reading an I/O controller file gives.
pub open spec fn io_read(c: IoControllerView, file: Seq<u8>) -> Result<Seq<u8>, CgroupError> {
    if file == /* "weight" */ seq![119u8, 101u8, 105u8, 103u8, 104u8, 116u8] {
        Ok(trim_end(/* "default " */ seq![100u8, 101u8, 102u8, 97u8, 117u8, 108u8, 116u8, 32u8] + dec(c.weight as nat) + /* "\n" */ seq![10u8] + weight_lines(c.device_weights)))
    } else if file == /* "max" */ seq![109u8, 97u8, 120u8] {
        Ok(trim_end(max_lines(c.device_max)))
    } else if file == /* "latency" */ seq![108u8, 97u8, 116u8, 101u8, 110u8, 99u8, 121u8] {
        Ok(trim_end(latency_lines(c.device_latency)))
    } else if file == /* "stat" */ seq![115u8, 116u8, 97u8, 116u8] {
        Ok(stat_lines(c.stats) + io_totals_text(c))
    } else if file == /* "pressure" */ seq![112u8, 114u8, 101u8, 115u8, 115u8, 117u8, 114u8, 101u8] {
        Ok(psi_text())
    } else {
        Err(CgroupError::NotFound)
    }
}

/// The device number `MAJ:MIN` spells: exactly one colon between two
/// numbers that fit in a `u32`.
pub open spec fn parse_device_spec(s: Seq<u8>) -> Result<(u32, u32), CgroupError> {
    let i = byte_index(s, 58u8);
    if i >= s.len() {
        Err(CgroupError::InvalidPath)
    } else {
        let rest = s.subrange(i + 1, s.len() as int);
        if byte_index(rest, 58u8) < rest.len() {
            Err(CgroupError::InvalidPath)
        } else {
            match parse_unsigned(s.subrange(0, i), u32::MAX as nat) {
                Some(a) => match parse_unsigned(rest, u32::MAX as nat) {
                    Some(b) => Ok((a as u32, b as u32)),
                    None => Err(CgroupError::InvalidPath),
                },
                None => Err(CgroupError::InvalidPath),
            }
        }
    }
}

/// The limits after one `key=value` word: a word without `=` changes
/// nothing, `max` means no limit (0), and an unknown key is refused.
pub open spec fn io_max_word(p: Seq<u8>, m: IoMax) -> Result<IoMax, CgroupError> {
    let i = byte_index(p, 61u8);
    if i >= p.len() {
        Ok(m)
    } else {
        let key = p.subrange(0, i);
        let val = p.subrange(i + 1, p.len() as int);
        let n = if val == /* "max" */ seq![109u8, 97u8, 120u8] {
            Some(0nat)
        } else {
            parse_unsigned(val, u64::MAX as nat)
        };
        match n {
            None => Err(CgroupError::InvalidPath),
            Some(x) => if key == /* "rbps" */ seq![114u8, 98u8, 112u8, 115u8] {
                Ok(IoMax { rbps: x as u64, ..m })
            } else if key == /* "wbps" */ seq![119u8, 98u8, 112u8, 115u8] {
                Ok(IoMax { wbps: x as u64, ..m })
            } else if key == /* "riops" */ seq![114u8, 105u8, 111u8, 112u8, 115u8] {
                Ok(IoMax { riops: x as u64, ..m })
            } else if key == /* "wiops" */ seq![119u8, 105u8, 111u8, 112u8, 115u8] {
                Ok(IoMax { wiops: x as u64, ..m })
            } else {
                Err(CgroupError::InvalidPath)
            },
        }
    }
}

/// The limits after the words `ps`, taken in order, or the first refusal.
pub open spec fn io_max_words(ps: Seq<Seq<u8>>, m: IoMax) -> Result<IoMax, CgroupError>
    decreases ps.len(),
{
    if ps.len() == 0 {
        Ok(m)
    } else {
        match io_max_word(ps[0], m) {
            Ok(m2) => io_max_words(ps.drop_first(), m2),
            Err(e) => Err(e),
        }
    }
}

/// The controller after writing `value` to an I/O controller file, or why not.
/// `weight` takes `default N` or `MAJ:MIN N`; `max` takes `MAJ:MIN` and
/// limit words; `latency` takes `MAJ:MIN target=N`.
pub open spec fn io_write(c: IoControllerView, file: Seq<u8>, value: Seq<u8>) -> Result<IoControllerView, CgroupError> {
    let parts = words(trim(value));
    if file == /* "weight" */ seq![119u8, 101u8, 105u8, 103u8, 104u8, 116u8] {
        if parts.len() != 2 {
            Err(CgroupError::InvalidPath)
        } else {
            match parse_unsigned(parts[1], u64::MAX as nat) {
                None => Err(CgroupError::InvalidPath),
                Some(n) => if n < 1 || n > IO_WEIGHT_MAX {
                    Err(CgroupError::InvalidPath)
                } else if parts[0] == /* "default" */ seq![100u8, 101u8, 102u8, 97u8, 117u8, 108u8, 116u8] {
                    Ok(IoControllerView { weight: n as u64, ..c })
                } else {
                    match parse_device_spec(parts[0]) {
                        Ok(d) => Ok(IoControllerView { device_weights: dev_insert(c.device_weights, d, n as u64), ..c }),
                        Err(e) => Err(e),
                    }
                },
            }
        }
    } else if file == /* "max" */ seq![109u8, 97u8, 120u8] {
        if parts.len() == 0 {
            Err(CgroupError::InvalidPath)
        } else {
            match parse_device_spec(parts[0]) {
                Err(e) => Err(e),
                Ok(d) => match io_max_words(parts.drop_first(), io_max_zero()) {
                    Ok(m) => Ok(IoControllerView { device_max: dev_insert(c.device_max, d, m), ..c }),
                    Err(e) => Err(e),
                },
            }
        }
    } else if file == /* "latency" */ seq![108u8, 97u8, 116u8, 101u8, 110u8, 99u8, 121u8] {
        if parts.len() != 2 {
            Err(CgroupError::InvalidPath)
        } else {
            match parse_device_spec(parts[0]) {
                Err(e) => Err(e),
                Ok(d) => {
                    let t = parts[1];
                    if t.len() >= 7 && t.subrange(0, 7) == /* "target=" */ seq![116u8, 97u8, 114u8, 103u8, 101u8, 116u8, 61u8] {
                        match parse_unsigned(t.subrange(7, t.len() as int), u64::MAX as nat) {
                            Some(n) => Ok(IoControllerView { device_latency: dev_insert(c.device_latency, d, n as u64), ..c }),
                            None => Err(CgroupError::InvalidPath),
                        }
                    } else {
                        Err(CgroupError::InvalidPath)
                    }
                },
            }
        }
    } else {
        Err(CgroupError::NotFound)
    }
}

/// Append the weight lines of a table.
fn push_weight_lines(out: &mut Vec<u8>, m: &DevMap<u64>)
    ensures
        final(out)@ == old(out)@ + weight_lines(m@),
{
    let ghost s = m@;
    let ghost base = out@;
    let mut i: usize = 0;
    assert(s.subrange(0, 0) =~= Seq::<((u32, u32), u64)>::empty());
    while i < m.entries.len()
        invariant
            s == m@,
            i <= s.len(),
            out@ == base + weight_lines(s.subrange(0, i as int)),
        decreases s.len() - i,
    {
        let e = m.entries[i];
        push_dev(out, e.0.0, e.0.1);
        out.push(32);
        push_dec(out, e.1);
        out.push(10);
        assert(s.subrange(0, i + 1).drop_last() =~= s.subrange(0, i as int));
        assert(out@ =~= base + weight_lines(s.subrange(0, i + 1)));
        i = i + 1;
    }
    assert(s.subrange(0, s.len() as int) =~= s);
}

/// Append the limit lines of a table.
fn push_max_lines(out: &mut Vec<u8>, m: &DevMap<IoMax>)
    ensures
        final(out)@ == old(out)@ + max_lines(m@),
{
    let ghost s = m@;
    let ghost base = out@;
    let mut i: usize = 0;
    assert(s.subrange(0, 0) =~= Seq::<((u32, u32), IoMax)>::empty());
    while i < m.entries.len()
        invariant
            s == m@,
            i <= s.len(),
            out@ == base + max_lines(s.subrange(0, i as int)),
        decreases s.len() - i,
    {
        let e = m.entries[i];
        push_dev(out, e.0.0, e.0.1);
        out.push(32);
        let t = e.1.format();
        extend_bytes(out, t.as_slice());
        out.push(10);
        assert(s.subrange(0, i + 1).drop_last() =~= s.subrange(0, i as int));
        assert(out@ =~= base + max_lines(s.subrange(0, i + 1)));
        i = i + 1;
    }
    assert(s.subrange(0, s.len() as int) =~= s);
}

/// Append the latency lines of a table.
fn push_latency_lines(out: &mut Vec<u8>, m: &DevMap<u64>)
    ensures
        final(out)@ == old(out)@ + latency_lines(m@),
{
    let ghost s = m@;
    let ghost base = out@;
    let mut i: usize = 0;
    assert(s.subrange(0, 0) =~= Seq::<((u32, u32), u64)>::empty());
    while i < m.entries.len()
        invariant
            s == m@,
            i <= s.len(),
            out@ == base + latency_lines(s.subrange(0, i as int)),
        decreases s.len() - i,
    {
        let e = m.entries[i];
        push_dev(out, e.0.0, e.0.1);
        extend_bytes(out, /* " target=" */ [32u8, 116u8, 97u8, 114u8, 103u8, 101u8, 116u8, 61u8].as_slice());
        push_dec(out, e.1);
        out.push(10);
        assert(s.subrange(0, i + 1).drop_last() =~= s.subrange(0, i as int));
        assert(out@ =~= base + latency_lines(s.subrange(0, i + 1)));
        i = i + 1;
    }
    assert(s.subrange(0, s.len() as int) =~= s);
}

/// Append the statistics lines of a table.
fn push_stat_lines(out: &mut Vec<u8>, m: &DevMap<IoStats>)
    ensures
        final(out)@ == old(out)@ + stat_lines(m@),
{
    let ghost s = m@;
    let ghost base = out@;
    let mut i: usize = 0;
    assert(s.subrange(0, 0) =~= Seq::<((u32, u32), IoStats)>::empty());
    while i < m.entries.len()
        invariant
            s == m@,
            i <= s.len(),
            out@ == base + stat_lines(s.subrange(0, i as int)),
        decreases s.len() - i,
    {
        let e = m.entries[i];
        let t = e.1.format(e.0.0, e.0.1);
        extend_bytes(out, t.as_slice());
        out.push(10);
        assert(s.subrange(0, i + 1).drop_last() =~= s.subrange(0, i as int));
        assert(out@ =~= base + stat_lines(s.subrange(0, i + 1)));
        i = i + 1;
    }
    assert(s.subrange(0, s.len() as int) =~= s);
}

/// Read an I/O controller file
pub fn read_file(controller: &IoController, file: &[u8]) -> (r: Result<Vec<u8>, CgroupError>)
    ensures
        res_bytes(r) == io_read(controller@, file@),
{
    let mut out: Vec<u8> = Vec::new();
    if bytes_equal(file, /* "weight" */ [119u8, 101u8, 105u8, 103u8, 104u8, 116u8].as_slice()) {
        extend_bytes(&mut out, /* "default " */ [100u8, 101u8, 102u8, 97u8, 117u8, 108u8, 116u8, 32u8].as_slice());
        push_dec(&mut out, controller.weight);
        out.push(10);
        push_weight_lines(&mut out, &controller.device_weights);
        let ghost full = out@;
        trim_end_vec(&mut out);
        assert(full =~= /* "default " */ seq![100u8, 101u8, 102u8, 97u8, 117u8, 108u8, 116u8, 32u8] + dec(controller.weight as nat) + /* "\n" */ seq![10u8] + weight_lines(controller.device_weights@));
    } else if bytes_equal(file, /* "max" */ [109u8, 97u8, 120u8].as_slice()) {
        push_max_lines(&mut out, &controller.device_max);
        assert(out@ =~= max_lines(controller.device_max@));
        trim_end_vec(&mut out);
    } else if bytes_equal(file, /* "latency" */ [108u8, 97u8, 116u8, 101u8, 110u8, 99u8, 121u8].as_slice()) {
        push_latency_lines(&mut out, &controller.device_latency);
        assert(out@ =~= latency_lines(controller.device_latency@));
        trim_end_vec(&mut out);
    } else if bytes_equal(file, /* "stat" */ [115u8, 116u8, 97u8, 116u8].as_slice()) {
        push_stat_lines(&mut out, &controller.stats);
        extend_bytes(&mut out, /* "Total: rbytes=" */ [84u8, 111u8, 116u8, 97u8, 108u8, 58u8, 32u8, 114u8, 98u8, 121u8, 116u8, 101u8, 115u8, 61u8].as_slice());
        push_dec(&mut out, controller.rbytes);
        extend_bytes(&mut out, /* " wbytes=" */ [32u8, 119u8, 98u8, 121u8, 116u8, 101u8, 115u8, 61u8].as_slice());
        push_dec(&mut out, controller.wbytes);
        extend_bytes(&mut out, /* " rios=" */ [32u8, 114u8, 105u8, 111u8, 115u8, 61u8].as_slice());
        push_dec(&mut out, controller.rios);
        extend_bytes(&mut out, /* " wios=" */ [32u8, 119u8, 105u8, 111u8, 115u8, 61u8].as_slice());
        push_dec(&mut out, controller.wios);
        assert(out@ =~= stat_lines(controller.stats@) + io_totals_text(controller@));
    } else if bytes_equal(file, /* "pressure" */ [112u8, 114u8, 101u8, 115u8, 115u8, 117u8, 114u8, 101u8].as_slice()) {
        push_psi(&mut out);
        assert(out@ =~= psi_text());
    } else {
        return Err(CgroupError::NotFound);
    }
    Ok(out)
}

/// Parse device string (MAJ:MIN)
fn parse_device(s: &[u8]) -> (r: Result<(u32, u32), CgroupError>)
    ensures
        r == parse_device_spec(s@),
{
    let i = find_byte(s, 58);
    if i >= s.len() {
        return Err(CgroupError::InvalidPath);
    }
    let rest = copy_range(s, i + 1, s.len());
    let j = find_byte(rest.as_slice(), 58);
    if j < rest.len() {
        return Err(CgroupError::InvalidPath);
    }
    let head = copy_range(s, 0, i);
    let major = match parse_u32(head.as_slice()) {
        Some(v) => v,
        None => return Err(CgroupError::InvalidPath),
    };
    let minor = match parse_u32(rest.as_slice()) {
        Some(v) => v,
        None => return Err(CgroupError::InvalidPath),
    };
    Ok((major, minor))
}

/// Apply one `key=value` word to the limits
fn apply_limit_word(p: &[u8], m: IoMax) -> (r: Result<IoMax, CgroupError>)
    ensures
        r == io_max_word(p@, m),
{
    let i = find_byte(p, 61);
    if i >= p.len() {
        return Ok(m);
    }
    let key = copy_range(p, 0, i);
    let val = copy_range(p, i + 1, p.len());
    let v: u64 = if bytes_equal(val.as_slice(), /* "max" */ [109u8, 97u8, 120u8].as_slice()) {
        0
    } else {
        match parse_u64(val.as_slice()) {
            Some(x) => x,
            None => return Err(CgroupError::InvalidPath),
        }
    };
    if bytes_equal(key.as_slice(), /* "rbps" */ [114u8, 98u8, 112u8, 115u8].as_slice()) {
        Ok(IoMax { rbps: v, ..m })
    } else if bytes_equal(key.as_slice(), /* "wbps" */ [119u8, 98u8, 112u8, 115u8].as_slice()) {
        Ok(IoMax { wbps: v, ..m })
    } else if bytes_equal(key.as_slice(), /* "riops" */ [114u8, 105u8, 111u8, 112u8, 115u8].as_slice()) {
        Ok(IoMax { riops: v, ..m })
    } else if bytes_equal(key.as_slice(), /* "wiops" */ [119u8, 105u8, 111u8, 112u8, 115u8].as_slice()) {
        Ok(IoMax { wiops: v, ..m })
    } else {
        Err(CgroupError::InvalidPath)
    }
}

/// The limits the words after the first one give
fn parse_limit_words(parts: &Vec<Vec<u8>>) -> (r: Result<IoMax, CgroupError>)
    requires
        parts@.len() >= 1,
    ensures
        r == io_max_words(parts@.map_values(|w: Vec<u8>| w@).drop_first(), io_max_zero()),
{
    let ghost pv = parts@.map_values(|w: Vec<u8>| w@);
    let ghost n = pv.len() as int;
    let mut m = IoMax::default();
    let mut i: usize = 1;
    assert(pv.drop_first() =~= pv.subrange(1, n));
    while i < parts.len()
        invariant
            pv == parts@.map_values(|w: Vec<u8>| w@),
            n == pv.len(),
            1 <= i <= n,
            io_max_words(pv.subrange(1, n), io_max_zero()) == io_max_words(pv.subrange(i as int, n), m),
        decreases n - i,
    {
        assert(pv[i as int] == parts@[i as int]@);
        assert(pv.subrange(i as int, n)[0] == pv[i as int]);
        assert(pv.subrange(i as int, n).drop_first() =~= pv.subrange(i + 1, n));
        match apply_limit_word(parts[i].as_slice(), m) {
            Ok(m2) => {
                m = m2;
            },
            Err(e) => {
                return Err(e);
            },
        }
        i = i + 1;
    }
    assert(pv.subrange(i as int, n) =~= Seq::<Seq<u8>>::empty());
    Ok(m)
}

/// Write an I/O controller file
pub fn write_file(controller: &mut IoController, file: &[u8], value: &[u8]) -> (r: Result<(), CgroupError>)
    ensures
        match io_write(old(controller)@, file@, value@) {
            Ok(c) => r is Ok && final(controller)@ == c,
            Err(e) => r == Err::<(), CgroupError>(e) && final(controller)@ == old(controller)@,
        },
        io_wf(old(controller)@) ==> io_wf(final(controller)@),
{
    let value = trim_bytes(value);
    let parts = split_words(value.as_slice());
    let ghost pv = parts@.map_values(|w: Vec<u8>| w@);
    if bytes_equal(file, /* "weight" */ [119u8, 101u8, 105u8, 103u8, 104u8, 116u8].as_slice()) {
        if parts.len() != 2 {
            return Err(CgroupError::InvalidPath);
        }
        assert(pv[0] == parts@[0]@ && pv[1] == parts@[1]@);
        let weight = match parse_u64(parts[1].as_slice()) {
            Some(n) => n,
            None => return Err(CgroupError::InvalidPath),
        };
        if weight < 1 || weight > IO_WEIGHT_MAX {
            return Err(CgroupError::InvalidPath);
        }
        if bytes_equal(parts[0].as_slice(), /* "default" */ [100u8, 101u8, 102u8, 97u8, 117u8, 108u8, 116u8].as_slice()) {
            controller.weight = weight;
        } else {
            let dev = match parse_device(parts[0].as_slice()) {
                Ok(d) => d,
                Err(e) => return Err(e),
            };
            proof {
                if dev_sorted(controller.device_weights@) {
                    lemma_dev_insert(controller.device_weights@, dev, weight);
                }
            }
            controller.device_weights.insert(dev, weight);
        }
        Ok(())
    } else if bytes_equal(file, /* "max" */ [109u8, 97u8, 120u8].as_slice()) {
        if parts.len() == 0 {
            return Err(CgroupError::InvalidPath);
        }
        assert(pv[0] == parts@[0]@);
        let dev = match parse_device(parts[0].as_slice()) {
            Ok(d) => d,
            Err(e) => return Err(e),
        };
        let max = match parse_limit_words(&parts) {
            Ok(m) => m,
            Err(e) => return Err(e),
        };
        proof {
            if dev_sorted(controller.device_max@) {
                lemma_dev_insert(controller.device_max@, dev, max);
            }
        }
        controller.device_max.insert(dev, max);
        Ok(())
    } else if bytes_equal(file, /* "latency" */ [108u8, 97u8, 116u8, 101u8, 110u8, 99u8, 121u8].as_slice()) {
        if parts.len() != 2 {
            return Err(CgroupError::InvalidPath);
        }
        assert(pv[0] == parts@[0]@ && pv[1] == parts@[1]@);
        let dev = match parse_device(parts[0].as_slice()) {
            Ok(d) => d,
            Err(e) => return Err(e),
        };
        let t = parts[1].as_slice();
        if starts_with(t, /* "target=" */ [116u8, 97u8, 114u8, 103u8, 101u8, 116u8, 61u8].as_slice()) {
            let digits = copy_range(t, 7, t.len());
            let target = match parse_u64(digits.as_slice()) {
                Some(n) => n,
                None => return Err(CgroupError::InvalidPath),
            };
            proof {
                if dev_sorted(controller.device_latency@) {
                    lemma_dev_insert(controller.device_latency@, dev, target);
                }
            }
            controller.device_latency.insert(dev, target);
            Ok(())
        } else {
            Err(CgroupError::InvalidPath)
        }
    } else {
        Err(CgroupError::NotFound)
    }
}

/// Writing `MAJ:MIN N` to `weight` makes `N` that device's weight, and
/// leaves the other devices' weights as they were.
pub proof fn lemma_weight_write_then_get(c: IoControllerView, value: Seq<u8>, c2: IoControllerView, other: (u32, u32))
    requires
        io_wf(c),
        io_write(c, /* "weight" */ seq![119u8, 101u8, 105u8, 103u8, 104u8, 116u8], value) == Ok::<IoControllerView, CgroupError>(c2),
        words(trim(value))[0] != /* "default" */ seq![100u8, 101u8, 102u8, 97u8, 117u8, 108u8, 116u8],
    ensures
        ({
            let parts = words(trim(value));
            let d = parse_device_spec(parts[0])->Ok_0;
            &&& dev_lookup(c2.device_weights, d) == Some(parse_unsigned(parts[1], u64::MAX as nat)->Some_0 as u64)
            &&& other != d ==> dev_lookup(c2.device_weights, other) == dev_lookup(c.device_weights, other)
        }),
{
    let parts = words(trim(value));
    let d = parse_device_spec(parts[0])->Ok_0;
    let n = parse_unsigned(parts[1], u64::MAX as nat)->Some_0 as u64;
    lemma_dev_insert(c.device_weights, d, n);
}

/// Apply I/O limits to a process (the block layer takes them from here)
pub fn apply_to_process(pid: u32, controller: &IoController) -> (r: Result<(), CgroupError>)
    ensures
        r is Ok,
{
    Ok(())
}

} // verus!
