//! Boot configuration: `key=value` lines of the configuration file, with
//! `#` comments, applied over the defaults.
use vstd::prelude::*;
use crate::text::{byte_index, index_from, lemma_index_from_bounds, parse_unsigned, trim};

verus! {

/// Boot configuration options
#[derive(Debug, Clone)]
pub struct BootConfig {
    /// Kernel command line
    pub cmdline: [u8; 256],
    pub cmdline_len: usize,
    /// Preferred video mode
    pub video_width: u32,
    pub video_height: u32,
    /// Enable verbose boot
    pub verbose: bool,
    /// Enable debug mode
    pub debug: bool,
    /// Boot timeout in seconds (0 = no timeout)
    pub timeout: u8,
    /// Enable serial console
    pub serial_console: bool,
    /// Serial port (0 = COM1, 1 = COM2, etc.)
    pub serial_port: u8,
    /// Serial baud rate
    pub serial_baud: u32,
}

/// The options of a boot configuration, with the command line buffer as a
/// sequence of its 256 bytes.
pub struct BootConfigView {
    pub cmdline: Seq<u8>,
    pub cmdline_len: usize,
    pub video_width: u32,
    pub video_height: u32,
    pub verbose: bool,
    pub debug: bool,
    pub timeout: u8,
    pub serial_console: bool,
    pub serial_port: u8,
    pub serial_baud: u32,
}

impl View for BootConfig {
    type V = BootConfigView;

    open spec fn view(&self) -> BootConfigView {
        BootConfigView {
            cmdline: self.cmdline@,
            cmdline_len: self.cmdline_len,
            video_width: self.video_width,
            video_height: self.video_height,
            verbose: self.verbose,
            debug: self.debug,
            timeout: self.timeout,
            serial_console: self.serial_console,
            serial_port: self.serial_port,
            serial_baud: self.serial_baud,
        }
    }
}

/// The defaults: an empty command line, 1920x1080, quiet, a three second
/// timeout, and the serial console off on COM1 at 115200 baud.
pub open spec fn default_config() -> BootConfigView {
    BootConfigView {
        cmdline: Seq::new(256, |i: int| 0u8),
        cmdline_len: 0,
        video_width: 1920,
        video_height: 1080,
        verbose: false,
        debug: false,
        timeout: 3,
        serial_console: false,
        serial_port: 0,
        serial_baud: 115200,
    }
}

impl Default for BootConfig {
    fn default() -> (r: Self)
        ensures
            r@ == default_config(),
    {
        let cmdline: [u8; 256] = vstd::array::array_fill_for_copy_types(0u8);
        assert(cmdline@ =~= Seq::new(256, |i: int| 0u8));
        Self {
            cmdline,
            cmdline_len: 0,
            video_width: 1920,
            video_height: 1080,
            verbose: false,
            debug: false,
            timeout: 3,
            serial_console: false,
            serial_port: 0,
            serial_baud: 115200,
        }
    }
}

/// The number `value` spells if it is at most `max`, else `default`.
pub open spec fn number_or(value: Seq<u8>, max: nat, default: nat) -> nat {
    match parse_unsigned(value, max) {
        Some(v) => v,
        None => default,
    }
}

/// Whether a value turns an option on: `true` or `1`.
pub open spec fn is_on(value: Seq<u8>) -> bool {
    value == /* "true" */ seq![116u8, 114u8, 117u8, 101u8] || value == /* "1" */ seq![49u8]
}

/// The configuration after setting option `key` to `value`; an unknown key
/// changes nothing, and a number that does not parse gives the default.
pub open spec fn apply_setting(c: BootConfigView, key: Seq<u8>, value: Seq<u8>) -> BootConfigView {
    if key == /* "cmdline" */ seq![99u8, 109u8, 100u8, 108u8, 105u8, 110u8, 101u8] {
        let n = if value.len() < 255 { value.len() as int } else { 255 };
        BootConfigView { cmdline: value.take(n) + c.cmdline.skip(n), cmdline_len: n as usize, ..c }
    } else if key == /* "video_width" */ seq![118u8, 105u8, 100u8, 101u8, 111u8, 95u8, 119u8, 105u8, 100u8, 116u8, 104u8] {
        BootConfigView { video_width: number_or(value, u32::MAX as nat, 1920) as u32, ..c }
    } else if key == /* "video_height" */ seq![118u8, 105u8, 100u8, 101u8, 111u8, 95u8, 104u8, 101u8, 105u8, 103u8, 104u8, 116u8] {
        BootConfigView { video_height: number_or(value, u32::MAX as nat, 1080) as u32, ..c }
    } else if key == /* "verbose" */ seq![118u8, 101u8, 114u8, 98u8, 111u8, 115u8, 101u8] {
        BootConfigView { verbose: is_on(value), ..c }
    } else if key == /* "debug" */ seq![100u8, 101u8, 98u8, 117u8, 103u8] {
        BootConfigView { debug: is_on(value), ..c }
    } else if key == /* "timeout" */ seq![116u8, 105u8, 109u8, 101u8, 111u8, 117u8, 116u8] {
        BootConfigView { timeout: number_or(value, 255, 3) as u8, ..c }
    } else if key == /* "serial" */ seq![115u8, 101u8, 114u8, 105u8, 97u8, 108u8] {
        BootConfigView { serial_console: is_on(value), ..c }
    } else if key == /* "serial_port" */ seq![115u8, 101u8, 114u8, 105u8, 97u8, 108u8, 95u8, 112u8, 111u8, 114u8, 116u8] {
        BootConfigView { serial_port: number_or(value, 255, 0) as u8, ..c }
    } else if key == /* "serial_baud" */ seq![115u8, 101u8, 114u8, 105u8, 97u8, 108u8, 95u8, 98u8, 97u8, 117u8, 100u8] {
        BootConfigView { serial_baud: number_or(value, u32::MAX as nat, 115200) as u32, ..c }
    } else {
        c
    }
}

/// Each option sets its own field and leaves every other one as it was:
/// `verbose`, `debug` and `serial` are on exactly for `true` or `1`; the
/// numbers take the value written, or their default when it does not
/// parse within range; the command line takes at most 255 bytes of the
/// value; an unknown key changes nothing.
pub proof fn lemma_setting_sets_its_field(c: BootConfigView, key: Seq<u8>, value: Seq<u8>)
    ensures
        /* "video_width" */
        apply_setting(c, /* "video_width" */ seq![118u8, 105u8, 100u8, 101u8, 111u8, 95u8, 119u8, 105u8, 100u8, 116u8, 104u8], value) == (BootConfigView { video_width: (match parse_unsigned(value, u32::MAX as nat) { Some(n) => n, None => 1920nat }) as u32, ..c }),
        /* "video_height" */
        apply_setting(c, /* "video_height" */ seq![118u8, 105u8, 100u8, 101u8, 111u8, 95u8, 104u8, 101u8, 105u8, 103u8, 104u8, 116u8], value) == (BootConfigView { video_height: (match parse_unsigned(value, u32::MAX as nat) { Some(n) => n, None => 1080nat }) as u32, ..c }),
        /* "verbose" */
        apply_setting(c, /* "verbose" */ seq![118u8, 101u8, 114u8, 98u8, 111u8, 115u8, 101u8], value) == (BootConfigView { verbose: (value == seq![116u8, 114u8, 117u8, 101u8] || value == seq![49u8]), ..c }),
        /* "debug" */
        apply_setting(c, /* "debug" */ seq![100u8, 101u8, 98u8, 117u8, 103u8], value) == (BootConfigView { debug: (value == seq![116u8, 114u8, 117u8, 101u8] || value == seq![49u8]), ..c }),
        /* "timeout" */
        apply_setting(c, /* "timeout" */ seq![116u8, 105u8, 109u8, 101u8, 111u8, 117u8, 116u8], value) == (BootConfigView { timeout: (match parse_unsigned(value, 255nat) { Some(n) => n, None => 3nat }) as u8, ..c }),
        /* "serial" */
        apply_setting(c, /* "serial" */ seq![115u8, 101u8, 114u8, 105u8, 97u8, 108u8], value) == (BootConfigView { serial_console: (value == seq![116u8, 114u8, 117u8, 101u8] || value == seq![49u8]), ..c }),
        /* "serial_port" */
        apply_setting(c, /* "serial_port" */ seq![115u8, 101u8, 114u8, 105u8, 97u8, 108u8, 95u8, 112u8, 111u8, 114u8, 116u8], value) == (BootConfigView { serial_port: (match parse_unsigned(value, 255nat) { Some(n) => n, None => 0nat }) as u8, ..c }),
        /* "serial_baud" */
        apply_setting(c, /* "serial_baud" */ seq![115u8, 101u8, 114u8, 105u8, 97u8, 108u8, 95u8, 98u8, 97u8, 117u8, 100u8], value) == (BootConfigView { serial_baud: (match parse_unsigned(value, u32::MAX as nat) { Some(n) => n, None => 115200nat }) as u32, ..c }),
        ({
            let n = if value.len() < 255 { value.len() as int } else { 255 };
            let d = apply_setting(c, /* "cmdline" */ seq![99u8, 109u8, 100u8, 108u8, 105u8, 110u8, 101u8], value);
            &&& d.cmdline_len == n
            &&& d.cmdline.take(n) == value.take(n)
            &&& d.cmdline.skip(n) == c.cmdline.skip(n)
            &&& d == (BootConfigView { cmdline: d.cmdline, cmdline_len: d.cmdline_len, ..c })
        }),
        !(key == seq![99u8, 109u8, 100u8, 108u8, 105u8, 110u8, 101u8] || key == seq![118u8, 105u8, 100u8, 101u8, 111u8, 95u8, 119u8, 105u8, 100u8, 116u8, 104u8] || key == seq![118u8, 105u8, 100u8, 101u8, 111u8, 95u8, 104u8, 101u8, 105u8, 103u8, 104u8, 116u8] || key == seq![118u8, 101u8, 114u8, 98u8, 111u8, 115u8, 101u8] || key == seq![100u8, 101u8, 98u8, 117u8, 103u8] || key == seq![116u8, 105u8, 109u8, 101u8, 111u8, 117u8, 116u8] || key == seq![115u8, 101u8, 114u8, 105u8, 97u8, 108u8] || key == seq![115u8, 101u8, 114u8, 105u8, 97u8, 108u8, 95u8, 112u8, 111u8, 114u8, 116u8] || key == seq![115u8, 101u8, 114u8, 105u8, 97u8, 108u8, 95u8, 98u8, 97u8, 117u8, 100u8]) ==> apply_setting(c, key, value) == c,
{
    let n = if value.len() < 255 { value.len() as int } else { 255 };
    let d = apply_setting(c, seq![99u8, 109u8, 100u8, 108u8, 105u8, 110u8, 101u8], value);
    let vw = seq![118u8, 105u8, 100u8, 101u8, 111u8, 95u8, 119u8, 105u8, 100u8, 116u8, 104u8];
    let sp = seq![115u8, 101u8, 114u8, 105u8, 97u8, 108u8, 95u8, 112u8, 111u8, 114u8, 116u8];
    let sb = seq![115u8, 101u8, 114u8, 105u8, 97u8, 108u8, 95u8, 98u8, 97u8, 117u8, 100u8];
    assert(sp[0] != vw[0] && sb[0] != vw[0] && sb[7] != sp[7]);
    assert(sp != vw && sb != vw && sb != sp);
    assert(sp.len() == 11 && sb.len() == 11);
    assert(sp != seq![115u8, 101u8, 114u8, 105u8, 97u8, 108u8] && sb != seq![115u8, 101u8, 114u8, 105u8, 97u8, 108u8]);
    assert(sp != seq![118u8, 105u8, 100u8, 101u8, 111u8, 95u8, 104u8, 101u8, 105u8, 103u8, 104u8, 116u8] && sb != seq![118u8, 105u8, 100u8, 101u8, 111u8, 95u8, 104u8, 101u8, 105u8, 103u8, 104u8, 116u8]);
    assert(sp != seq![99u8, 109u8, 100u8, 108u8, 105u8, 110u8, 101u8] && sb != seq![99u8, 109u8, 100u8, 108u8, 105u8, 110u8, 101u8]);
    assert(sp != seq![116u8, 105u8, 109u8, 101u8, 111u8, 117u8, 116u8] && sb != seq![116u8, 105u8, 109u8, 101u8, 111u8, 117u8, 116u8]);
    assert(sp != seq![100u8, 101u8, 98u8, 117u8, 103u8] && sb != seq![100u8, 101u8, 98u8, 117u8, 103u8]);
    assert(sp != seq![118u8, 101u8, 114u8, 98u8, 111u8, 115u8, 101u8] && sb != seq![118u8, 101u8, 114u8, 98u8, 111u8, 115u8, 101u8]);
    assert(d.cmdline.take(n) =~= value.take(n));
    if c.cmdline.len() >= n {
        assert(d.cmdline.skip(n) =~= c.cmdline.skip(n));
    }
}

/// The configuration after one line: blank lines, `#` comments and lines
/// without `=` change nothing; otherwise the trimmed text before the first
/// `=` is the key and the trimmed text after it the value.
pub open spec fn apply_line(c: BootConfigView, line: Seq<u8>) -> BootConfigView {
    let t = trim(line);
    if t.len() == 0 || t[0] == 35 {
        c
    } else {
        let eq = byte_index(t, 61);
        if eq >= t.len() {
            c
        } else {
            apply_setting(c, trim(t.take(eq)), trim(t.skip(eq + 1)))
        }
    }
}

/// A line `key=value` sets option `key` to `value`: the key ends at the
/// first `=` and the value is everything after it, each without the
/// whitespace around it; a line starting with `#` is a comment.
pub proof fn lemma_line_sets(c: BootConfigView, key: Seq<u8>, value: Seq<u8>)
    requires
        key.len() > 0,
        key[0] != 35u8,
        forall|k: int| 0 <= k < key.len() ==> #[trigger] key[k] != 61u8,
        trim(key + seq![61u8] + value) == key + seq![61u8] + value,
        trim(key) == key,
        trim(value) == value,
    ensures
        apply_line(c, key + seq![61u8] + value) == apply_setting(c, key, value),
        apply_line(c, seq![35u8] + key + seq![61u8] + value) == c,
{
    let t = key + seq![61u8] + value;
    lemma_index_from_bounds(t, 61u8, 0);
    let eq = byte_index(t, 61u8);
    if eq < key.len() {
        assert(t[eq] == key[eq]);
    }
    assert(t[key.len() as int] == 61u8);
    assert(eq == key.len());
    assert(t.take(eq) =~= key);
    assert(t.skip(eq + 1) =~= value);
    let u = seq![35u8] + key + seq![61u8] + value;
    lemma_trim_first(u);
}

/// Trimming keeps a leading `#`, or the text is not empty after trimming.
proof fn lemma_trim_first(u: Seq<u8>)
    requires
        u.len() > 0,
        u[0] == 35u8,
    ensures
        trim(u).len() > 0 && trim(u)[0] == 35u8,
{
    assert(crate::text::ws_len_at(u, 0) == 0);
    assert(crate::text::skip_space(u, 0) == 0);
    let t = u.skip(0);
    assert(t =~= u);
    lemma_back_ws_keeps(t);
    crate::text::lemma_back_ws_bounds(t, t.len() as int);
    assert(trim(u) == t.take(crate::text::back_ws(t, t.len() as int)));
    assert(trim(u)[0] == t[0]);
}

/// Dropping trailing whitespace never reaches a `#` at the front.
proof fn lemma_back_ws_keeps(t: Seq<u8>)
    requires
        t.len() > 0,
        t[0] == 35u8,
    ensures
        crate::text::back_ws(t, t.len() as int) >= 1,
{
    lemma_back_ws_from(t, t.len() as int);
}

proof fn lemma_back_ws_from(t: Seq<u8>, b: int)
    requires
        t.len() > 0,
        t[0] == 35u8,
        1 <= b <= t.len(),
    ensures
        crate::text::back_ws(t, b) >= 1,
    decreases b,
{
    let k = crate::text::ws_len_before(t, b);
    if k != 0 {
        if b - k >= 1 {
            lemma_back_ws_from(t, b - k);
        } else {
            assert(false);
        }
    }
}

/// The configuration after the lines of `s` from byte `i` on.
pub open spec fn apply_lines(c: BootConfigView, s: Seq<u8>, i: int) -> BootConfigView
    decreases s.len() - i,
{
    if i < 0 || i > s.len() {
        c
    } else {
        let j = index_from(s, 10, i);
        proof {
            lemma_index_from_bounds(s, 10, i);
        }
        let c2 = apply_line(c, s.subrange(i, j));
        if j >= s.len() { c2 } else { apply_lines(c2, s, j + 1) }
    }
}

/// Reading lines after a prefix reads the lines of what follows it.
proof fn lemma_lines_shift(c: BootConfigView, p: Seq<u8>, q: Seq<u8>, i: int)
    requires
        0 <= i <= q.len(),
    ensures
        apply_lines(c, p + q, p.len() + i) == apply_lines(c, q, i),
    decreases q.len() - i,
{
    let d = p + q;
    let n = p.len() as int;
    lemma_index_from_bounds(q, 10, i);
    lemma_index_from_bounds(d, 10, n + i);
    let j = index_from(q, 10, i);
    let jd = index_from(d, 10, n + i);
    if jd < n + j {
        assert(d[jd] == q[jd - n]);
    }
    if n + j < jd && j < q.len() {
        assert(d[n + j] == q[j]);
    }
    assert(jd == n + j);
    assert(d.subrange(n + i, jd) =~= q.subrange(i, j));
    if j < q.len() {
        lemma_lines_shift(apply_line(c, q.subrange(i, j)), p, q, j + 1);
    }
}

/// The lines of a file are applied one after the other, in order: a line
/// without a line feed is applied alone, and a line followed by a line feed
/// is applied before the lines after it.
pub proof fn lemma_lines_in_order(c: BootConfigView, line: Seq<u8>, rest: Seq<u8>)
    requires
        forall|k: int| 0 <= k < line.len() ==> #[trigger] line[k] != 10u8,
    ensures
        apply_lines(c, line, 0) == apply_line(c, line),
        apply_lines(c, line + seq![10u8] + rest, 0) == apply_lines(apply_line(c, line), rest, 0),
{
    lemma_index_from_bounds(line, 10, 0);
    assert(line.subrange(0, line.len() as int) =~= line);
    let p = line + seq![10u8];
    let d = p + rest;
    assert(line + seq![10u8] + rest == d);
    lemma_index_from_bounds(d, 10, 0);
    let j = index_from(d, 10, 0);
    if j < line.len() {
        assert(d[j] == line[j]);
    }
    assert(d[line.len() as int] == 10u8);
    assert(j == line.len());
    assert(d.subrange(0, j) =~= line);
    lemma_lines_shift(apply_line(c, line), p, rest, 0);
}

/// The configuration a file gives: its lines applied over the defaults, or
/// the defaults when it is not UTF-8 text.
pub open spec fn boot_config_of(s: Seq<u8>) -> BootConfigView {
    if vstd::utf8::valid_utf8(s) { apply_lines(default_config(), s, 0) } else { default_config() }
}

fn is_on_exec(value: &[u8]) -> (r: bool)
    ensures
        r == is_on(value@),
{
    let t: [u8; 4] = [116, 114, 117, 101];
    let one: [u8; 1] = [49];
    proof {
        assert(t@ =~= /* "true" */ seq![116u8, 114u8, 117u8, 101u8]);
        assert(one@ =~= /* "1" */ seq![49u8]);
    }
    crate::text::bytes_equal(value, t.as_slice()) || crate::text::bytes_equal(value, one.as_slice())
}

fn number_or_exec(value: &[u8], max: u64, default: u64) -> (r: u64)
    requires
        default <= max,
    ensures
        r == number_or(value@, max as nat, default as nat),
{
    match crate::text::parse_unsigned_bytes(value, max) {
        Some(v) => v,
        None => default,
    }
}

/// Set option `key` to `value`.
pub fn apply_setting_exec(config: &mut BootConfig, key: &[u8], value: &[u8])
    ensures
        final(config)@ == apply_setting(old(config)@, key@, value@),
{
    if crate::text::bytes_equal(key, /* "cmdline" */ [99u8, 109u8, 100u8, 108u8, 105u8, 110u8, 101u8].as_slice()) {
        let n: usize = if value.len() < 255 { value.len() } else { 255 };
        let mut i: usize = 0;
        while i < n
            invariant
                i <= n,
                n <= value@.len(),
                n <= 255,
                config.cmdline@ =~= value@.take(i as int) + old(config).cmdline@.skip(i as int),
                config.cmdline_len == old(config).cmdline_len,
                config.video_width == old(config).video_width,
                config.video_height == old(config).video_height,
                config.verbose == old(config).verbose,
                config.debug == old(config).debug,
                config.timeout == old(config).timeout,
                config.serial_console == old(config).serial_console,
                config.serial_port == old(config).serial_port,
                config.serial_baud == old(config).serial_baud,
            decreases n - i,
        {
            config.cmdline.set(i, value[i]);
            assert(config.cmdline@ =~= value@.take(i + 1) + old(config).cmdline@.skip(i + 1));
            i = i + 1;
        }
        config.cmdline_len = n;
    } else if crate::text::bytes_equal(key, /* "video_width" */ [118u8, 105u8, 100u8, 101u8, 111u8, 95u8, 119u8, 105u8, 100u8, 116u8, 104u8].as_slice()) {
        config.video_width = number_or_exec(value, u32::MAX as u64, 1920) as u32;
    } else if crate::text::bytes_equal(key, /* "video_height" */ [118u8, 105u8, 100u8, 101u8, 111u8, 95u8, 104u8, 101u8, 105u8, 103u8, 104u8, 116u8].as_slice()) {
        config.video_height = number_or_exec(value, u32::MAX as u64, 1080) as u32;
    } else if crate::text::bytes_equal(key, /* "verbose" */ [118u8, 101u8, 114u8, 98u8, 111u8, 115u8, 101u8].as_slice()) {
        config.verbose = is_on_exec(value);
    } else if crate::text::bytes_equal(key, /* "debug" */ [100u8, 101u8, 98u8, 117u8, 103u8].as_slice()) {
        config.debug = is_on_exec(value);
    } else if crate::text::bytes_equal(key, /* "timeout" */ [116u8, 105u8, 109u8, 101u8, 111u8, 117u8, 116u8].as_slice()) {
        config.timeout = number_or_exec(value, 255, 3) as u8;
    } else if crate::text::bytes_equal(key, /* "serial" */ [115u8, 101u8, 114u8, 105u8, 97u8, 108u8].as_slice()) {
        config.serial_console = is_on_exec(value);
    } else if crate::text::bytes_equal(key, /* "serial_port" */ [115u8, 101u8, 114u8, 105u8, 97u8, 108u8, 95u8, 112u8, 111u8, 114u8, 116u8].as_slice()) {
        config.serial_port = number_or_exec(value, 255, 0) as u8;
    } else if crate::text::bytes_equal(key, /* "serial_baud" */ [115u8, 101u8, 114u8, 105u8, 97u8, 108u8, 95u8, 98u8, 97u8, 117u8, 100u8].as_slice()) {
        config.serial_baud = number_or_exec(value, u32::MAX as u64, 115200) as u32;
    }
}

/// Apply one line of the configuration file.
pub fn apply_config_line(config: &mut BootConfig, line: &[u8])
    ensures
        final(config)@ == apply_line(old(config)@, line@),
{
    let t = crate::text::trim_bytes(line);
    if t.len() == 0 || t[0] == 35 {
        return;
    }
    let eq = crate::text::find_byte(t.as_slice(), 61);
    if eq >= t.len() {
        return;
    }
    let key = crate::text::trim_bytes(crate::wire::copy_range(t.as_slice(), 0, eq).as_slice());
    let value = crate::text::trim_bytes(crate::wire::copy_range(t.as_slice(), eq + 1, t.len()).as_slice());
    assert(t@.take(eq as int) =~= t@.subrange(0, eq as int));
    assert(t@.skip(eq + 1) =~= t@.subrange(eq + 1, t@.len() as int));
    apply_setting_exec(config, key.as_slice(), value.as_slice());
}

/// Parse boot configuration from the contents of the configuration file:
/// `key=value` lines over the defaults, or the defaults when the file is
/// not UTF-8 text.
pub fn parse_boot_config(data: &[u8]) -> (config: BootConfig)
    ensures
        config@ == boot_config_of(data@),
{
    let mut config = BootConfig::default();
    if crate::text::str_from_utf8(data).is_none() {
        return config;
    }
    let mut i: usize = 0;
    let mut done = false;
    while !done
        invariant
            i <= data@.len(),
            vstd::utf8::valid_utf8(data@),
            boot_config_of(data@) == (if done { config@ } else { apply_lines(config@, data@, i as int) }),
        decreases data@.len() - i + (if done { 0int } else { 1int }),
    {
        let mut j: usize = i;
        while j < data.len() && data[j] != 10
            invariant
                i <= j <= data@.len(),
                index_from(data@, 10, i as int) == index_from(data@, 10, j as int),
            decreases data@.len() - j,
        {
            j = j + 1;
        }
        proof {
            lemma_index_from_bounds(data@, 10, i as int);
        }
        let line = crate::wire::copy_range(data, i, j);
        apply_config_line(&mut config, line.as_slice());
        if j >= data.len() {
            done = true;
        } else {
            i = j + 1;
        }
    }
    config
}

// =============================================================================
// KERNEL COMMAND LINE BUILDER
// =============================================================================

/// The command line after appending `b`: as many of its bytes as fit in
/// 511.
pub open spec fn appended(c: Seq<u8>, b: Seq<u8>) -> Seq<u8> {
    let room = 511 - c.len();
    c + b.take(if b.len() < room { b.len() as int } else { room })
}

/// Build kernel command line
pub struct CmdlineBuilder {
    buffer: [u8; 512],
    len: usize,
}

impl CmdlineBuilder {
    /// The command line built so far.
    pub closed spec fn contents(&self) -> Seq<u8> {
        self.buffer@.take(self.len as int)
    }

    /// The length stays within the 511 bytes that the buffer holds.
    pub closed spec fn wf(&self) -> bool {
        self.len <= 511
    }

    /// An empty command line.
    pub fn new() -> (r: Self)
        ensures
            r.contents() == Seq::<u8>::empty(),
            r.wf(),
    {
        let r = Self { buffer: vstd::array::array_fill_for_copy_types(0u8), len: 0 };
        assert(r.contents() =~= Seq::<u8>::empty());
        r
    }

    fn append_bytes(&mut self, b: &[u8])
        requires
            old(self).wf(),
        ensures
            final(self).wf(),
            final(self).contents() == appended(old(self).contents(), b@),
    {
        let ghost start = self.contents();
        let mut i: usize = 0;
        while i < b.len()
            invariant
                i <= b@.len(),
                self.len <= 511,
                start.len() <= 511,
                self.buffer@.len() == 512,
                self.contents() == appended(start, b@.take(i as int)),
            decreases b@.len() - i,
        {
            let ghost before = self.contents();
            assert(before.len() == self.len);
            if self.len < 511 {
                self.buffer.set(self.len, b[i]);
                self.len = self.len + 1;
                assert(self.contents() =~= before.push(b@[i as int]));
            }
            assert(b@.take(i + 1) =~= b@.take(i as int).push(b@[i as int]));
            assert(self.contents() =~= appended(start, b@.take(i + 1)));
            i = i + 1;
        }
        assert(b@.take(i as int) =~= b@);
    }

    /// Append the bytes of `s`, as many as fit.
    pub fn append(&mut self, s: &str)
        requires
            old(self).wf(),
        ensures
            final(self).wf(),
            final(self).contents() == appended(old(self).contents(), vstd::utf8::encode_utf8(s@)),
    {
        self.append_bytes(s.as_bytes());
    }

    /// Append `key=value`, after a space unless the line is empty.
    pub fn append_param(&mut self, key: &str, value: &str)
        requires
            old(self).wf(),
        ensures
            final(self).wf(),
            final(self).contents() == appended(
                appended(
                    appended(
                        if old(self).contents().len() > 0 { appended(old(self).contents(), seq![32u8]) } else { old(self).contents() },
                        vstd::utf8::encode_utf8(key@),
                    ),
                    seq![61u8],
                ),
                vstd::utf8::encode_utf8(value@),
            ),
    {
        let space: [u8; 1] = [32];
        let eq: [u8; 1] = [61];
        assert(space@ =~= seq![32u8]);
        assert(eq@ =~= seq![61u8]);
        if self.len > 0 {
            self.append_bytes(space.as_slice());
        }
        self.append(key);
        self.append_bytes(eq.as_slice());
        self.append(value);
    }

    /// The command line as text, or empty text when it is not UTF-8.
    pub fn as_str(&self) -> (r: &str)
        requires
            self.wf(),
        ensures
            vstd::utf8::valid_utf8(self.contents()) ==> vstd::utf8::encode_utf8(r@) == self.contents(),
            !vstd::utf8::valid_utf8(self.contents()) ==> r@.len() == 0,
    {
        match crate::text::str_from_utf8(self.as_bytes()) {
            Some(s) => s,
            None => {
                proof {
                    reveal_strlit("");
                }
                ""
            },
        }
    }

    /// The command line's bytes.
    pub fn as_bytes(&self) -> (r: &[u8])
        requires
            self.wf(),
        ensures
            r@ == self.contents(),
    {
        vstd::slice::slice_subrange(self.buffer.as_slice(), 0, self.len)
    }

    /// The command line's length in bytes.
    pub fn len(&self) -> (r: usize)
        requires
            self.wf(),
        ensures
            r == self.contents().len(),
    {
        self.len
    }
}

} // verus!
