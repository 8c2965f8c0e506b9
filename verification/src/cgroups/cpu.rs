//! CPU controller: bandwidth limits (`max`), weights for fair scheduling,
//! usage accounting and burst capacity.
use vstd::prelude::*;
use super::{CgroupError, res_bytes, psi_text, push_psi};
use crate::text::{bytes_equal, dec, dec_signed, parse_signed, parse_unsigned, parse_u64, parse_i64, push_dec, push_dec_i64, split_words, trim, trim_bytes, words};
use crate::wire::extend_bytes;

verus! {

/// Default period (100ms in microseconds)
pub const DEFAULT_PERIOD: u64 = 100_000;

/// Max CPU weight
pub const CPU_WEIGHT_MAX: u64 = 10000;

/// Default CPU weight
pub const CPU_WEIGHT_DEFAULT: u64 = 100;

/// CPU statistics
#[derive(Clone, Copy, Debug)]
pub struct CpuStats {
    /// Number of context switches
    pub nr_switches: u64,
    /// Voluntary context switches
    pub nr_voluntary_switches: u64,
    /// Involuntary context switches
    pub nr_involuntary_switches: u64,
    /// Wait time
    pub wait_sum: u64,
    /// Time waiting for IO
    pub iowait_sum: u64,
}

/// Statistics with every counter at zero.
pub open spec fn cpu_stats_zero() -> CpuStats {
    CpuStats { nr_switches: 0, nr_voluntary_switches: 0, nr_involuntary_switches: 0, wait_sum: 0, iowait_sum: 0 }
}

/// The text of CPU statistics: the three switch counters, one per line.
pub open spec fn cpu_stats_text(s: CpuStats) -> Seq<u8> {
    /* "nr_switches " */ seq![110u8, 114u8, 95u8, 115u8, 119u8, 105u8, 116u8, 99u8, 104u8, 101u8, 115u8, 32u8] + dec(s.nr_switches as nat)
    + /* "\nnr_voluntary_switches " */ seq![10u8, 110u8, 114u8, 95u8, 118u8, 111u8, 108u8, 117u8, 110u8, 116u8, 97u8, 114u8, 121u8, 95u8, 115u8, 119u8, 105u8, 116u8, 99u8, 104u8, 101u8, 115u8, 32u8] + dec(s.nr_voluntary_switches as nat)
    + /* "\nnr_involuntary_switches " */ seq![10u8, 110u8, 114u8, 95u8, 105u8, 110u8, 118u8, 111u8, 108u8, 117u8, 110u8, 116u8, 97u8, 114u8, 121u8, 95u8, 115u8, 119u8, 105u8, 116u8, 99u8, 104u8, 101u8, 115u8, 32u8] + dec(s.nr_involuntary_switches as nat)
}

impl CpuStats {
    /// Statistics with every counter at zero.
    pub fn new() -> (r: Self)
        ensures
            r == cpu_stats_zero(),
    {
        CpuStats { nr_switches: 0, nr_voluntary_switches: 0, nr_involuntary_switches: 0, wait_sum: 0, iowait_sum: 0 }
    }

    /// The statistics as text.
    pub fn format(&self) -> (r: Vec<u8>)
        ensures
            r@ == cpu_stats_text(*self),
    {
        let mut out: Vec<u8> = Vec::new();
        extend_bytes(&mut out, /* "nr_switches " */ [110u8, 114u8, 95u8, 115u8, 119u8, 105u8, 116u8, 99u8, 104u8, 101u8, 115u8, 32u8].as_slice());
        push_dec(&mut out, self.nr_switches);
        extend_bytes(&mut out, /* "\nnr_voluntary_switches " */ [10u8, 110u8, 114u8, 95u8, 118u8, 111u8, 108u8, 117u8, 110u8, 116u8, 97u8, 114u8, 121u8, 95u8, 115u8, 119u8, 105u8, 116u8, 99u8, 104u8, 101u8, 115u8, 32u8].as_slice());
        push_dec(&mut out, self.nr_voluntary_switches);
        extend_bytes(&mut out, /* "\nnr_involuntary_switches " */ [10u8, 110u8, 114u8, 95u8, 105u8, 110u8, 118u8, 111u8, 108u8, 117u8, 110u8, 116u8, 97u8, 114u8, 121u8, 95u8, 115u8, 119u8, 105u8, 116u8, 99u8, 104u8, 101u8, 115u8, 32u8].as_slice());
        push_dec(&mut out, self.nr_involuntary_switches);
        assert(out@ =~= cpu_stats_text(*self));
        out
    }
}

impl Default for CpuStats {
    fn default() -> (r: Self)
        ensures
            r == cpu_stats_zero(),
    {
        Self::new()
    }
}

/// CPU controller state
#[derive(Clone, Copy, Debug)]
pub struct CpuController {
    /// CPU weight (1-10000)
    pub weight: u64,
    /// Nice weight (for compatibility)
    pub weight_nice: i64,
    /// Max bandwidth quota (microseconds per period)
    pub max_quota: u64,
    /// Period (microseconds)
    pub max_period: u64,
    /// Burst capacity (microseconds)
    pub burst: u64,
    /// Total CPU time used (microseconds)
    pub usage_usec: u64,
    /// User CPU time
    pub user_usec: u64,
    /// System CPU time
    pub system_usec: u64,
    /// Number of periods
    pub nr_periods: u64,
    /// Number of throttled periods
    pub nr_throttled: u64,
    /// Total throttled time
    pub throttled_usec: u64,
    /// Number of bursts
    pub nr_bursts: u64,
    /// Total burst time
    pub burst_usec: u64,
    /// Statistics
    pub stats: CpuStats,
}

/// A fresh controller: default weight, no quota, the default period.
pub open spec fn cpu_initial() -> CpuController {
    CpuController {
        weight: CPU_WEIGHT_DEFAULT,
        weight_nice: 0,
        max_quota: u64::MAX,
        max_period: DEFAULT_PERIOD,
        burst: 0,
        usage_usec: 0,
        user_usec: 0,
        system_usec: 0,
        nr_periods: 0,
        nr_throttled: 0,
        throttled_usec: 0,
        nr_bursts: 0,
        burst_usec: 0,
        stats: cpu_stats_zero(),
    }
}

/// Whether a controller with quota `quota` that has used `usage` over
/// `periods` whole periods may still run in the current one.
pub open spec fn within_quota(quota: u64, usage: u64, periods: u64) -> bool {
    quota == u64::MAX || usage - periods * quota < quota
}

impl CpuController {
    /// Create new CPU controller
    pub fn new() -> (r: Self)
        ensures
            r == cpu_initial(),
    {
        CpuController {
            weight: CPU_WEIGHT_DEFAULT,
            weight_nice: 0,
            max_quota: u64::MAX,
            max_period: DEFAULT_PERIOD,
            burst: 0,
            usage_usec: 0,
            user_usec: 0,
            system_usec: 0,
            nr_periods: 0,
            nr_throttled: 0,
            throttled_usec: 0,
            nr_bursts: 0,
            burst_usec: 0,
            stats: CpuStats::new(),
        }
    }

    /// Account CPU time to the total and to user or system time
    pub fn account_time(&mut self, usec: u64, is_user: bool)
        ensures
            *final(self) == (if is_user {
                CpuController {
                    usage_usec: old(self).usage_usec.wrapping_add(usec),
                    user_usec: old(self).user_usec.wrapping_add(usec),
                    ..*old(self)
                }
            } else {
                CpuController {
                    usage_usec: old(self).usage_usec.wrapping_add(usec),
                    system_usec: old(self).system_usec.wrapping_add(usec),
                    ..*old(self)
                }
            }),
    {
        self.usage_usec = self.usage_usec.wrapping_add(usec);
        if is_user {
            self.user_usec = self.user_usec.wrapping_add(usec);
        } else {
            self.system_usec = self.system_usec.wrapping_add(usec);
        }
    }

    /// Check if bandwidth limit allows running: the usage beyond the
    /// completed periods' quota is still under one quota
    pub fn can_run(&self) -> (r: bool)
        requires
            self.max_quota == u64::MAX || self.nr_periods * self.max_quota <= self.usage_usec,
        ensures
            r == within_quota(self.max_quota, self.usage_usec, self.nr_periods),
    {
        let quota = self.max_quota;
        if quota == u64::MAX {
            return true;
        }
        let usage = self.usage_usec;
        let periods = self.nr_periods;
        proof {
            assert(periods * quota <= usage);
        }
        let period_usage = usage - periods * quota;
        period_usage < quota
    }

    /// Start a new period
    pub fn new_period(&mut self)
        ensures
            *final(self) == (CpuController { nr_periods: old(self).nr_periods.wrapping_add(1), ..*old(self) }),
    {
        self.nr_periods = self.nr_periods.wrapping_add(1);
    }

    /// Record throttling
    pub fn throttle(&mut self, usec: u64)
        ensures
            *final(self) == (CpuController {
                nr_throttled: old(self).nr_throttled.wrapping_add(1),
                throttled_usec: old(self).throttled_usec.wrapping_add(usec),
                ..*old(self)
            }),
    {
        self.nr_throttled = self.nr_throttled.wrapping_add(1);
        self.throttled_usec = self.throttled_usec.wrapping_add(usec);
    }
}

impl Default for CpuController {
    fn default() -> (r: Self)
        ensures
            r == cpu_initial(),
    {
        Self::new()
    }
}

/// The scheduler weights of the nice levels -20 to 19.
pub open spec fn nice_weights() -> Seq<u64> {
    seq![88761u64, 71755u64, 56483u64, 46273u64, 36291u64, 29154u64, 23254u64, 18705u64, 14949u64, 11916u64, 9548u64, 7620u64, 6100u64, 4904u64, 3906u64, 3121u64, 2501u64, 1991u64, 1586u64, 1277u64, 1024u64, 820u64, 655u64, 526u64, 423u64, 335u64, 272u64, 215u64, 172u64, 137u64, 110u64, 87u64, 70u64, 56u64, 45u64, 36u64, 29u64, 23u64, 18u64, 15u64]
}

/// The weight of a nice level: from the table for -20..=19, the default otherwise.
pub open spec fn nice_weight(nice: i64) -> u64 {
    if -20 <= nice <= 19 { nice_weights()[nice + 20] } else { CPU_WEIGHT_DEFAULT }
}

/// Convert nice value to weight
fn nice_to_weight(nice: i64) -> (r: u64)
    requires
        nice <= i64::MAX - 20,
    ensures
        r == nice_weight(nice),
{
    let table: [u64; 40] = [88761, 71755, 56483, 46273, 36291, 29154, 23254, 18705, 14949, 11916, 9548, 7620, 6100, 4904, 3906, 3121, 2501, 1991, 1586, 1277, 1024, 820, 655, 526, 423, 335, 272, 215, 172, 137, 110, 87, 70, 56, 45, 36, 29, 23, 18, 15];
    assert(table@ =~= nice_weights());
    if nice < -20 || nice > 19 {
        return CPU_WEIGHT_DEFAULT;
    }
    let index = (nice + 20) as usize;
    table[index]
}

/// The text of `stat`: the usage, throttling and burst counters, one per line.
pub open spec fn cpu_stat_text(c: CpuController) -> Seq<u8> {
    /* "usage_usec " */ seq![117u8, 115u8, 97u8, 103u8, 101u8, 95u8, 117u8, 115u8, 101u8, 99u8, 32u8] + dec(c.usage_usec as nat)
    + /* "\nuser_usec " */ seq![10u8, 117u8, 115u8, 101u8, 114u8, 95u8, 117u8, 115u8, 101u8, 99u8, 32u8] + dec(c.user_usec as nat)
    + /* "\nsystem_usec " */ seq![10u8, 115u8, 121u8, 115u8, 116u8, 101u8, 109u8, 95u8, 117u8, 115u8, 101u8, 99u8, 32u8] + dec(c.system_usec as nat)
    + /* "\nnr_periods " */ seq![10u8, 110u8, 114u8, 95u8, 112u8, 101u8, 114u8, 105u8, 111u8, 100u8, 115u8, 32u8] + dec(c.nr_periods as nat)
    + /* "\nnr_throttled " */ seq![10u8, 110u8, 114u8, 95u8, 116u8, 104u8, 114u8, 111u8, 116u8, 116u8, 108u8, 101u8, 100u8, 32u8] + dec(c.nr_throttled as nat)
    + /* "\nthrottled_usec " */ seq![10u8, 116u8, 104u8, 114u8, 111u8, 116u8, 116u8, 108u8, 101u8, 100u8, 95u8, 117u8, 115u8, 101u8, 99u8, 32u8] + dec(c.throttled_usec as nat)
    + /* "\nnr_bursts " */ seq![10u8, 110u8, 114u8, 95u8, 98u8, 117u8, 114u8, 115u8, 116u8, 115u8, 32u8] + dec(c.nr_bursts as nat)
    + /* "\nburst_usec " */ seq![10u8, 98u8, 117u8, 114u8, 115u8, 116u8, 95u8, 117u8, 115u8, 101u8, 99u8, 32u8] + dec(c.burst_usec as nat)
}

/// What reading a CPU controller file gives.
pub open spec fn cpu_read(c: CpuController, file: Seq<u8>) -> Result<Seq<u8>, CgroupError> {
    if file == /* "weight" */ seq![119u8, 101u8, 105u8, 103u8, 104u8, 116u8] {
        Ok(dec(c.weight as nat))
    } else if file == /* "weight.nice" */ seq![119u8, 101u8, 105u8, 103u8, 104u8, 116u8, 46u8, 110u8, 105u8, 99u8, 101u8] {
        Ok(dec_signed(c.weight_nice as int))
    } else if file == /* "max" */ seq![109u8, 97u8, 120u8] {
        if c.max_quota == u64::MAX {
            Ok(/* "max " */ seq![109u8, 97u8, 120u8, 32u8] + dec(c.max_period as nat))
        } else {
            Ok(dec(c.max_quota as nat) + /* " " */ seq![32u8] + dec(c.max_period as nat))
        }
    } else if file == /* "max.burst" */ seq![109u8, 97u8, 120u8, 46u8, 98u8, 117u8, 114u8, 115u8, 116u8] {
        Ok(dec(c.burst as nat))
    } else if file == /* "stat" */ seq![115u8, 116u8, 97u8, 116u8] {
        Ok(cpu_stat_text(c))
    } else if file == /* "pressure" */ seq![112u8, 114u8, 101u8, 115u8, 115u8, 117u8, 114u8, 101u8] {
        Ok(psi_text())
    } else {
        Err(CgroupError::NotFound)
    }
}

/// The number a word spells as a `u64`, or the error a bad one gives.
pub open spec fn cpu_number(s: Seq<u8>) -> Result<u64, CgroupError> {
    match parse_unsigned(s, u64::MAX as nat) {
        Some(n) => Ok(n as u64),
        None => Err(CgroupError::InvalidPath),
    }
}

/// The controller after writing `value` to a CPU controller file, or why not.
/// `max` takes a quota (`max` for none) and an optional period.
pub open spec fn cpu_write(c: CpuController, file: Seq<u8>, value: Seq<u8>) -> Result<CpuController, CgroupError> {
    let v = trim(value);
    if file == /* "weight" */ seq![119u8, 101u8, 105u8, 103u8, 104u8, 116u8] {
        match parse_unsigned(v, u64::MAX as nat) {
            Some(n) => if n < 1 || n > CPU_WEIGHT_MAX { Err(CgroupError::InvalidPath) } else { Ok(CpuController { weight: n as u64, ..c }) },
            None => Err(CgroupError::InvalidPath),
        }
    } else if file == /* "weight.nice" */ seq![119u8, 101u8, 105u8, 103u8, 104u8, 116u8, 46u8, 110u8, 105u8, 99u8, 101u8] {
        match parse_signed(v) {
            Some(n) => if n < -20 || n > 19 {
                Err(CgroupError::InvalidPath)
            } else {
                Ok(CpuController { weight_nice: n as i64, weight: nice_weight(n as i64), ..c })
            },
            None => Err(CgroupError::InvalidPath),
        }
    } else if file == /* "max" */ seq![109u8, 97u8, 120u8] {
        let parts = words(v);
        let quota = if parts[0] == /* "max" */ seq![109u8, 97u8, 120u8] { Ok(u64::MAX) } else { cpu_number(parts[0]) };
        let period = if parts.len() > 1 { cpu_number(parts[1]) } else { Ok(DEFAULT_PERIOD) };
        match quota {
            Ok(q) => match period {
                Ok(p) => Ok(CpuController { max_quota: q, max_period: p, ..c }),
                Err(e) => Err(e),
            },
            Err(e) => Err(e),
        }
    } else if file == /* "max.burst" */ seq![109u8, 97u8, 120u8, 46u8, 98u8, 117u8, 114u8, 115u8, 116u8] {
        match cpu_number(v) {
            Ok(n) => Ok(CpuController { burst: n, ..c }),
            Err(e) => Err(e),
        }
    } else {
        Err(CgroupError::NotFound)
    }
}

/// Read a CPU controller file
pub fn read_file(controller: &CpuController, file: &[u8]) -> (r: Result<Vec<u8>, CgroupError>)
    ensures
        res_bytes(r) == cpu_read(*controller, file@),
{
    let mut out: Vec<u8> = Vec::new();
    if bytes_equal(file, /* "weight" */ [119u8, 101u8, 105u8, 103u8, 104u8, 116u8].as_slice()) {
        push_dec(&mut out, controller.weight);
    } else if bytes_equal(file, /* "weight.nice" */ [119u8, 101u8, 105u8, 103u8, 104u8, 116u8, 46u8, 110u8, 105u8, 99u8, 101u8].as_slice()) {
        push_dec_i64(&mut out, controller.weight_nice);
    } else if bytes_equal(file, /* "max" */ [109u8, 97u8, 120u8].as_slice()) {
        if controller.max_quota == u64::MAX {
            extend_bytes(&mut out, /* "max " */ [109u8, 97u8, 120u8, 32u8].as_slice());
        } else {
            push_dec(&mut out, controller.max_quota);
            out.push(32);
        }
        push_dec(&mut out, controller.max_period);
        assert(out@ =~= cpu_read(*controller, file@)->Ok_0);
    } else if bytes_equal(file, /* "max.burst" */ [109u8, 97u8, 120u8, 46u8, 98u8, 117u8, 114u8, 115u8, 116u8].as_slice()) {
        push_dec(&mut out, controller.burst);
    } else if bytes_equal(file, /* "stat" */ [115u8, 116u8, 97u8, 116u8].as_slice()) {
        extend_bytes(&mut out, /* "usage_usec " */ [117u8, 115u8, 97u8, 103u8, 101u8, 95u8, 117u8, 115u8, 101u8, 99u8, 32u8].as_slice());
        push_dec(&mut out, controller.usage_usec);
        extend_bytes(&mut out, /* "\nuser_usec " */ [10u8, 117u8, 115u8, 101u8, 114u8, 95u8, 117u8, 115u8, 101u8, 99u8, 32u8].as_slice());
        push_dec(&mut out, controller.user_usec);
        extend_bytes(&mut out, /* "\nsystem_usec " */ [10u8, 115u8, 121u8, 115u8, 116u8, 101u8, 109u8, 95u8, 117u8, 115u8, 101u8, 99u8, 32u8].as_slice());
        push_dec(&mut out, controller.system_usec);
        extend_bytes(&mut out, /* "\nnr_periods " */ [10u8, 110u8, 114u8, 95u8, 112u8, 101u8, 114u8, 105u8, 111u8, 100u8, 115u8, 32u8].as_slice());
        push_dec(&mut out, controller.nr_periods);
        extend_bytes(&mut out, /* "\nnr_throttled " */ [10u8, 110u8, 114u8, 95u8, 116u8, 104u8, 114u8, 111u8, 116u8, 116u8, 108u8, 101u8, 100u8, 32u8].as_slice());
        push_dec(&mut out, controller.nr_throttled);
        extend_bytes(&mut out, /* "\nthrottled_usec " */ [10u8, 116u8, 104u8, 114u8, 111u8, 116u8, 116u8, 108u8, 101u8, 100u8, 95u8, 117u8, 115u8, 101u8, 99u8, 32u8].as_slice());
        push_dec(&mut out, controller.throttled_usec);
        extend_bytes(&mut out, /* "\nnr_bursts " */ [10u8, 110u8, 114u8, 95u8, 98u8, 117u8, 114u8, 115u8, 116u8, 115u8, 32u8].as_slice());
        push_dec(&mut out, controller.nr_bursts);
        extend_bytes(&mut out, /* "\nburst_usec " */ [10u8, 98u8, 117u8, 114u8, 115u8, 116u8, 95u8, 117u8, 115u8, 101u8, 99u8, 32u8].as_slice());
        push_dec(&mut out, controller.burst_usec);
        assert(out@ =~= cpu_stat_text(*controller));
    } else if bytes_equal(file, /* "pressure" */ [112u8, 114u8, 101u8, 115u8, 115u8, 117u8, 114u8, 101u8].as_slice()) {
        push_psi(&mut out);
    } else {
        return Err(CgroupError::NotFound);
    }
    assert(res_bytes(Ok::<Vec<u8>, CgroupError>(out)) =~= cpu_read(*controller, file@));
    Ok(out)
}

/// Parse one word as a `u64`
fn parse_number(s: &[u8]) -> (r: Result<u64, CgroupError>)
    ensures
        r == cpu_number(s@),
{
    match parse_u64(s) {
        Some(n) => Ok(n),
        None => Err(CgroupError::InvalidPath),
    }
}

/// Write a CPU controller file. Writing `max` needs at least one word.
pub fn write_file(controller: &mut CpuController, file: &[u8], value: &[u8]) -> (r: Result<(), CgroupError>)
    requires
        file@ == /* "max" */ seq![109u8, 97u8, 120u8] ==> words(trim(value@)).len() > 0,
    ensures
        match cpu_write(*old(controller), file@, value@) {
            Ok(c) => r is Ok && *final(controller) == c,
            Err(e) => r == Err::<(), CgroupError>(e) && *final(controller) == *old(controller),
        },
{
    let value = trim_bytes(value);
    if bytes_equal(file, /* "weight" */ [119u8, 101u8, 105u8, 103u8, 104u8, 116u8].as_slice()) {
        let weight = match parse_u64(value.as_slice()) {
            Some(n) => n,
            None => return Err(CgroupError::InvalidPath),
        };
        if weight < 1 || weight > CPU_WEIGHT_MAX {
            return Err(CgroupError::InvalidPath);
        }
        controller.weight = weight;
        Ok(())
    } else if bytes_equal(file, /* "weight.nice" */ [119u8, 101u8, 105u8, 103u8, 104u8, 116u8, 46u8, 110u8, 105u8, 99u8, 101u8].as_slice()) {
        let nice = match parse_i64(value.as_slice()) {
            Some(n) => n,
            None => return Err(CgroupError::InvalidPath),
        };
        if nice < -20 || nice > 19 {
            return Err(CgroupError::InvalidPath);
        }
        controller.weight_nice = nice;
        let weight = nice_to_weight(nice);
        controller.weight = weight;
        Ok(())
    } else if bytes_equal(file, /* "max" */ [109u8, 97u8, 120u8].as_slice()) {
        let parts = split_words(value.as_slice());
        proof {
            assert(parts@.map_values(|w: Vec<u8>| w@)[0] == parts@[0]@);
        }
        let quota = if bytes_equal(parts[0].as_slice(), /* "max" */ [109u8, 97u8, 120u8].as_slice()) {
            u64::MAX
        } else {
            match parse_number(parts[0].as_slice()) {
                Ok(n) => n,
                Err(e) => return Err(e),
            }
        };
        let period = if parts.len() > 1 {
            proof {
                assert(parts@.map_values(|w: Vec<u8>| w@)[1] == parts@[1]@);
            }
            match parse_number(parts[1].as_slice()) {
                Ok(n) => n,
                Err(e) => return Err(e),
            }
        } else {
            DEFAULT_PERIOD
        };
        controller.max_quota = quota;
        controller.max_period = period;
        Ok(())
    } else if bytes_equal(file, /* "max.burst" */ [109u8, 97u8, 120u8, 46u8, 98u8, 117u8, 114u8, 115u8, 116u8].as_slice()) {
        let burst = match parse_number(value.as_slice()) {
            Ok(n) => n,
            Err(e) => return Err(e),
        };
        controller.burst = burst;
        Ok(())
    } else {
        Err(CgroupError::NotFound)
    }
}

/// Apply CPU limits to a process (the scheduler takes them from here)
pub fn apply_to_process(pid: u32, controller: &CpuController) -> (r: Result<(), CgroupError>)
    ensures
        r is Ok,
{
    Ok(())
}

} // verus!
