//! Devices controller: which device nodes a group's processes may read,
//! write or create, as an ordered list of allow and deny rules.
use vstd::prelude::*;
use super::{CgroupError, res_bytes};
use crate::text::{bytes_equal, byte_index, dec, find_byte, parse_unsigned, parse_u32, push_dec, split_words, trim_end, trim_end_vec, words,
    is_word, word_byte, index_from, lemma_dec_digits, lemma_index_from_bounds, lemma_parse_dec, lemma_words_cons, lemma_words_single};
use crate::wire::{copy_range, extend_bytes};

verus! {

/// Device type
#[derive(Clone, Copy, Debug, PartialEq, Eq, Structural)]
pub enum DeviceType {
    /// Any device type
    All,
    /// Character device
    Char,
    /// Block device
    Block,
}

/// The letter of a device type.
pub open spec fn type_letter(t: DeviceType) -> u8 {
    match t {
        DeviceType::All => 97u8,
        DeviceType::Char => 99u8,
        DeviceType::Block => 98u8,
    }
}

/// The device type a letter names: `a`, `c` or `b`.
pub open spec fn type_of_letter(b: u32) -> Option<DeviceType> {
    if b == 97 {
        Some(DeviceType::All)
    } else if b == 99 {
        Some(DeviceType::Char)
    } else if b == 98 {
        Some(DeviceType::Block)
    } else {
        None
    }
}

impl DeviceType {
    /// The device type a letter names: `a`, `c` or `b`.
    pub fn from_char(c: char) -> (r: Option<Self>)
        ensures
            r == type_of_letter(c as u32),
    {
        if c == 'a' {
            Some(DeviceType::All)
        } else if c == 'c' {
            Some(DeviceType::Char)
        } else if c == 'b' {
            Some(DeviceType::Block)
        } else {
            None
        }
    }

    /// The letter of this device type.
    pub fn to_char(&self) -> (r: char)
        ensures
            r as u32 == type_letter(*self) as u32,
    {
        match self {
            DeviceType::All => 'a',
            DeviceType::Char => 'c',
            DeviceType::Block => 'b',
        }
    }
}

/// The device type a byte names.
fn type_of_byte(b: u8) -> (r: Option<DeviceType>)
    ensures
        r == type_of_letter(b as u32),
{
    if b == 97 {
        Some(DeviceType::All)
    } else if b == 99 {
        Some(DeviceType::Char)
    } else if b == 98 {
        Some(DeviceType::Block)
    } else {
        None
    }
}

/// The letter of a device type, as a byte.
fn type_byte(t: DeviceType) -> (r: u8)
    ensures
        r == type_letter(t),
{
    match t {
        DeviceType::All => 97,
        DeviceType::Char => 99,
        DeviceType::Block => 98,
    }
}

/// Access flags
#[derive(Clone, Copy, Debug, PartialEq, Eq, Structural)]
pub struct Access {
    pub read: bool,
    pub write: bool,
    pub mknod: bool,
}

/// Whether byte `b` occurs in `s`.
pub open spec fn has_byte(s: Seq<u8>, b: u8) -> bool {
    exists|i: int| 0 <= i < s.len() && s[i] == b
}

/// The flags a string holds: `r`, `w` and `m` anywhere in it.
pub open spec fn access_of(s: Seq<u8>) -> Access {
    Access { read: has_byte(s, 114u8), write: has_byte(s, 119u8), mknod: has_byte(s, 109u8) }
}

/// The letters of the set flags, in the order `r`, `w`, `m`.
pub open spec fn access_text(a: Access) -> Seq<u8> {
    (if a.read { seq![114u8] } else { Seq::empty() })
        + (if a.write { seq![119u8] } else { Seq::empty() })
        + (if a.mknod { seq![109u8] } else { Seq::empty() })
}

/// Whether two access sets share a flag.
pub open spec fn access_overlaps(a: Access, b: Access) -> bool {
    (a.read && b.read) || (a.write && b.write) || (a.mknod && b.mknod)
}

/// Whether byte `b` occurs in `s`.
fn contains_byte(s: &[u8], b: u8) -> (r: bool)
    ensures
        r == has_byte(s@, b),
{
    let i = find_byte(s, b);
    proof {
        crate::text::lemma_index_from_bounds(s@, b, 0);
    }
    i < s.len()
}

impl Access {
    /// Every flag set.
    pub fn all() -> (r: Self)
        ensures
            r == (Access { read: true, write: true, mknod: true }),
    {
        Access { read: true, write: true, mknod: true }
    }

    /// The flags named in `s` (`r`, `w`, `m`; other bytes are ignored).
    pub fn from_str(s: &[u8]) -> (r: Self)
        ensures
            r == access_of(s@),
    {
        Access { read: contains_byte(s, 114), write: contains_byte(s, 119), mknod: contains_byte(s, 109) }
    }

    /// The letters of the set flags.
    pub fn to_string(&self) -> (r: Vec<u8>)
        ensures
            r@ == access_text(*self),
    {
        let mut s: Vec<u8> = Vec::new();
        if self.read {
            s.push(114);
        }
        if self.write {
            s.push(119);
        }
        if self.mknod {
            s.push(109);
        }
        assert(s@ =~= access_text(*self));
        s
    }

    /// Whether the two access sets share a flag.
    pub fn matches(&self, other: &Access) -> (r: bool)
        ensures
            r == access_overlaps(*self, *other),
    {
        (self.read && other.read) || (self.write && other.write) || (self.mknod && other.mknod)
    }
}

/// Device access rule
#[derive(Clone, Copy, Debug)]
pub struct DeviceRule {
    /// Allow or deny
    pub allow: bool,
    /// Device type
    pub device_type: DeviceType,
    /// Major number (None = any)
    pub major: Option<u32>,
    /// Minor number (None = any)
    pub minor: Option<u32>,
    /// Access flags
    pub access: Access,
}

/// Whether a rule covers an access: the type is `All` or the same, the
/// numbers it gives are equal, and a flag is shared.
pub open spec fn rule_matches(r: DeviceRule, t: DeviceType, major: u32, minor: u32, a: Access) -> bool {
    &&& (r.device_type == DeviceType::All || r.device_type == t)
    &&& (r.major matches Some(m) ==> m == major)
    &&& (r.minor matches Some(m) ==> m == minor)
    &&& access_overlaps(r.access, a)
}

/// A device number or `*` for any.
pub open spec fn number_text(n: Option<u32>) -> Seq<u8> {
    match n {
        Some(m) => dec(m as nat),
        None => /* "*" */ seq![42u8],
    }
}

/// A rule as text: `allow|deny TYPE MAJ:MIN ACCESS`.
pub open spec fn rule_text(r: DeviceRule) -> Seq<u8> {
    (if r.allow { /* "allow" */ seq![97u8, 108u8, 108u8, 111u8, 119u8] } else { /* "deny" */ seq![100u8, 101u8, 110u8, 121u8] }) + /* " " */ seq![32u8] + seq![type_letter(r.device_type)] + /* " " */ seq![32u8]
        + number_text(r.major) + /* ":" */ seq![58u8] + number_text(r.minor) + /* " " */ seq![32u8] + access_text(r.access)
}

/// A number or `*`.
pub open spec fn number_or_any(s: Seq<u8>) -> Result<Option<u32>, CgroupError> {
    if s == /* "*" */ seq![42u8] {
        Ok(None)
    } else {
        match parse_unsigned(s, u32::MAX as nat) {
            Some(n) => Ok(Some(n as u32)),
            None => Err(CgroupError::InvalidPath),
        }
    }
}

/// The device numbers `MAJ:MIN` spells, each a number or `*`, with
/// exactly one colon.
pub open spec fn rule_numbers(s: Seq<u8>) -> Result<(Option<u32>, Option<u32>), CgroupError> {
    let i = byte_index(s, 58u8);
    if i >= s.len() {
        Err(CgroupError::InvalidPath)
    } else {
        let rest = s.subrange(i + 1, s.len() as int);
        if byte_index(rest, 58u8) < rest.len() {
            Err(CgroupError::InvalidPath)
        } else {
            match number_or_any(s.subrange(0, i)) {
                Ok(a) => match number_or_any(rest) {
                    Ok(b) => Ok((a, b)),
                    Err(e) => Err(e),
                },
                Err(e) => Err(e),
            }
        }
    }
}

/// The rule `TYPE MAJ:MIN ACCESS` (from three words on) spells.
pub open spec fn rule_from_words(ps: Seq<Seq<u8>>, allow: bool) -> Result<DeviceRule, CgroupError> {
    if ps.len() < 3 || ps[0].len() == 0 {
        Err(CgroupError::InvalidPath)
    } else {
        match type_of_letter(ps[0][0] as u32) {
            None => Err(CgroupError::InvalidPath),
            Some(t) => match rule_numbers(ps[1]) {
                Ok(nums) => Ok(DeviceRule { allow, device_type: t, major: nums.0, minor: nums.1, access: access_of(ps[2]) }),
                Err(e) => Err(e),
            },
        }
    }
}

/// The rule `allow|deny TYPE MAJ:MIN ACCESS` spells.
pub open spec fn rule_parse(s: Seq<u8>) -> Result<DeviceRule, CgroupError> {
    let ps = words(s);
    if ps.len() < 4 {
        Err(CgroupError::InvalidPath)
    } else if ps[0] == /* "allow" */ seq![97u8, 108u8, 108u8, 111u8, 119u8] {
        rule_from_words(ps.drop_first(), true)
    } else if ps[0] == /* "deny" */ seq![100u8, 101u8, 110u8, 121u8] {
        rule_from_words(ps.drop_first(), false)
    } else {
        Err(CgroupError::InvalidPath)
    }
}

/// Append a device number or `*`.
fn push_number(out: &mut Vec<u8>, n: Option<u32>)
    ensures
        final(out)@ == old(out)@ + number_text(n),
{
    match n {
        Some(m) => push_dec(out, m as u64),
        None => {
            out.push(42);
            assert(final(out)@ =~= old(out)@ + number_text(n));
        },
    }
}

/// A number or `*`.
fn parse_number_or_any(s: &[u8]) -> (r: Result<Option<u32>, CgroupError>)
    ensures
        r == number_or_any(s@),
{
    let star = [42u8];
    assert(star@ =~= /* "*" */ seq![42u8]);
    if bytes_equal(s, star.as_slice()) {
        Ok(None)
    } else {
        match parse_u32(s) {
            Some(n) => Ok(Some(n)),
            None => Err(CgroupError::InvalidPath),
        }
    }
}

/// The device numbers of a rule.
fn parse_rule_numbers(s: &[u8]) -> (r: Result<(Option<u32>, Option<u32>), CgroupError>)
    ensures
        r == rule_numbers(s@),
{
    let i = find_byte(s, 58);
    if i >= s.len() {
        return Err(CgroupError::InvalidPath);
    }
    let rest = copy_range(s, i + 1, s.len());
    let j = find_byte(rest.as_slice(), 58);
    if j < rest.len() {
        return Err(CgroupError::InvalidPath);
    }
    let head = copy_range(s, 0, i);
    let major = match parse_number_or_any(head.as_slice()) {
        Ok(v) => v,
        Err(e) => return Err(e),
    };
    let minor = match parse_number_or_any(rest.as_slice()) {
        Ok(v) => v,
        Err(e) => return Err(e),
    };
    Ok((major, minor))
}

/// The rule in words `parts[start..]` (type, numbers, access).
fn rule_from_parts(parts: &Vec<Vec<u8>>, start: usize, allow: bool) -> (r: Result<DeviceRule, CgroupError>)
    requires
        start <= parts@.len(),
    ensures
        r == rule_from_words(parts@.map_values(|w: Vec<u8>| w@).subrange(start as int, parts@.len() as int), allow),
{
    let ghost pv = parts@.map_values(|w: Vec<u8>| w@).subrange(start as int, parts@.len() as int);
    if parts.len() - start < 3 || parts[start].len() == 0 {
        proof {
            if parts.len() - start >= 3 {
                assert(pv[0] == parts@[start as int]@);
            }
        }
        return Err(CgroupError::InvalidPath);
    }
    assert(pv[0] == parts@[start as int]@);
    assert(pv[1] == parts@[start + 1]@);
    assert(pv[2] == parts@[start + 2]@);
    let device_type = match type_of_byte(parts[start][0]) {
        Some(t) => t,
        None => return Err(CgroupError::InvalidPath),
    };
    let nums = match parse_rule_numbers(parts[start + 1].as_slice()) {
        Ok(n) => n,
        Err(e) => return Err(e),
    };
    let access = Access::from_str(parts[start + 2].as_slice());
    Ok(DeviceRule { allow, device_type, major: nums.0, minor: nums.1, access })
}

impl DeviceRule {
    /// Check if rule matches a device access
    pub fn matches(&self, device_type: DeviceType, major: u32, minor: u32, access: Access) -> (r: bool)
        ensures
            r == rule_matches(*self, device_type, major, minor, access),
    {
        if self.device_type != DeviceType::All && self.device_type != device_type {
            return false;
        }
        if let Some(rule_major) = self.major {
            if rule_major != major {
                return false;
            }
        }
        if let Some(rule_minor) = self.minor {
            if rule_minor != minor {
                return false;
            }
        }
        self.access.matches(&access)
    }

    /// Format rule for display
    pub fn format(&self) -> (r: Vec<u8>)
        ensures
            r@ == rule_text(*self),
    {
        let mut out: Vec<u8> = Vec::new();
        if self.allow {
            extend_bytes(&mut out, /* "allow" */ [97u8, 108u8, 108u8, 111u8, 119u8].as_slice());
        } else {
            extend_bytes(&mut out, /* "deny" */ [100u8, 101u8, 110u8, 121u8].as_slice());
        }
        out.push(32);
        out.push(type_byte(self.device_type));
        out.push(32);
        push_number(&mut out, self.major);
        out.push(58);
        push_number(&mut out, self.minor);
        out.push(32);
        let a = self.access.to_string();
        extend_bytes(&mut out, a.as_slice());
        assert(out@ =~= rule_text(*self));
        out
    }

    /// Parse rule from string
    pub fn parse(s: &[u8]) -> (r: Result<Self, CgroupError>)
        ensures
            r == rule_parse(s@),
    {
        let parts = split_words(s);
        let ghost pv = parts@.map_values(|w: Vec<u8>| w@);
        if parts.len() < 4 {
            return Err(CgroupError::InvalidPath);
        }
        assert(pv[0] == parts@[0]@);
        assert(pv.drop_first() =~= pv.subrange(1, pv.len() as int));
        if bytes_equal(parts[0].as_slice(), /* "allow" */ [97u8, 108u8, 108u8, 111u8, 119u8].as_slice()) {
            rule_from_parts(&parts, 1, true)
        } else if bytes_equal(parts[0].as_slice(), /* "deny" */ [100u8, 101u8, 110u8, 121u8].as_slice()) {
            rule_from_parts(&parts, 1, false)
        } else {
            Err(CgroupError::InvalidPath)
        }
    }
}

/// Devices controller state
#[derive(Clone)]
pub struct DevicesController {
    /// Access rules
    pub rules: Vec<DeviceRule>,
    /// Default policy (allow/deny all)
    pub default_allow: bool,
}

/// The decision of the first rule in `rules` that covers the access, if any.
pub open spec fn first_match(rules: Seq<DeviceRule>, t: DeviceType, major: u32, minor: u32, a: Access) -> Option<bool>
    decreases rules.len(),
{
    if rules.len() == 0 {
        None
    } else if rule_matches(rules[0], t, major, minor, a) {
        Some(rules[0].allow)
    } else {
        first_match(rules.drop_first(), t, major, minor, a)
    }
}

/// Whether an access is allowed: the first covering rule decides, and
/// without one the default policy does.
pub open spec fn access_allowed(rules: Seq<DeviceRule>, default_allow: bool, t: DeviceType, major: u32, minor: u32, a: Access) -> bool {
    match first_match(rules, t, major, minor, a) {
        Some(b) => b,
        None => default_allow,
    }
}

impl DevicesController {
    /// Create new devices controller: no rules, allow by default
    pub fn new() -> (r: Self)
        ensures
            r.rules@ == Seq::<DeviceRule>::empty(),
            r.default_allow,
    {
        DevicesController { rules: Vec::new(), default_allow: true }
    }

    /// Check if access is allowed (first matching rule wins)
    pub fn check_access(&self, device_type: DeviceType, major: u32, minor: u32, access: Access) -> (r: bool)
        ensures
            r == access_allowed(self.rules@, self.default_allow, device_type, major, minor, access),
    {
        let ghost s = self.rules@;
        let mut i: usize = 0;
        assert(s.subrange(0, s.len() as int) =~= s);
        while i < self.rules.len()
            invariant
                s == self.rules@,
                i <= s.len(),
                first_match(s, device_type, major, minor, access) == first_match(s.subrange(i as int, s.len() as int), device_type, major, minor, access),
            decreases s.len() - i,
        {
            assert(s.subrange(i as int, s.len() as int)[0] == s[i as int]);
            assert(s.subrange(i as int, s.len() as int).drop_first() =~= s.subrange(i + 1, s.len() as int));
            if self.rules[i].matches(device_type, major, minor, access) {
                return self.rules[i].allow;
            }
            i = i + 1;
        }
        self.default_allow
    }

    /// Add a rule (after the existing ones)
    pub fn add_rule(&mut self, rule: DeviceRule)
        ensures
            final(self).rules@ == old(self).rules@.push(rule),
            final(self).default_allow == old(self).default_allow,
    {
        self.rules.push(rule);
    }

    /// Clear all rules
    pub fn clear_rules(&mut self)
        ensures
            final(self).rules@ == Seq::<DeviceRule>::empty(),
            final(self).default_allow == old(self).default_allow,
    {
        self.rules.clear();
    }
}

impl Default for DevicesController {
    fn default() -> (r: Self)
        ensures
            r.rules@ == Seq::<DeviceRule>::empty(),
            r.default_allow,
    {
        Self::new()
    }
}

/// Rules added later never overrule an earlier rule that covers the access.
pub proof fn lemma_earlier_rule_wins(rules: Seq<DeviceRule>, rule: DeviceRule, default_allow: bool, t: DeviceType, major: u32, minor: u32, a: Access)
    requires
        first_match(rules, t, major, minor, a) is Some,
    ensures
        access_allowed(rules.push(rule), default_allow, t, major, minor, a) == access_allowed(rules, default_allow, t, major, minor, a),
    decreases rules.len(),
{
    if !rule_matches(rules[0], t, major, minor, a) {
        assert(rules.push(rule).drop_first() =~= rules.drop_first().push(rule));
        lemma_earlier_rule_wins(rules.drop_first(), rule, default_allow, t, major, minor, a);
    }
}

/// An added rule decides every access that no earlier rule covers and
/// that it covers itself.
pub proof fn lemma_new_rule_decides(rules: Seq<DeviceRule>, rule: DeviceRule, default_allow: bool, t: DeviceType, major: u32, minor: u32, a: Access)
    requires
        first_match(rules, t, major, minor, a) is None,
        rule_matches(rule, t, major, minor, a),
    ensures
        access_allowed(rules.push(rule), default_allow, t, major, minor, a) == rule.allow,
    decreases rules.len(),
{
    if rules.len() > 0 {
        assert(rules.push(rule).drop_first() =~= rules.drop_first().push(rule));
        lemma_new_rule_decides(rules.drop_first(), rule, default_allow, t, major, minor, a);
    } else {
        assert(rules.push(rule)[0] == rule);
    }
}

/// The rule list as text, one rule per line.
pub open spec fn rules_lines(rules: Seq<DeviceRule>) -> Seq<u8>
    decreases rules.len(),
{
    if rules.len() == 0 {
        Seq::empty()
    } else {
        rules_lines(rules.drop_last()) + rule_text(rules.last()) + /* "\n" */ seq![10u8]
    }
}

/// What reading a devices controller file gives.
pub open spec fn devices_read(rules: Seq<DeviceRule>, file: Seq<u8>) -> Result<Seq<u8>, CgroupError> {
    if file == /* "list" */ seq![108u8, 105u8, 115u8, 116u8] {
        Ok(trim_end(rules_lines(rules)))
    } else {
        Err(CgroupError::NotFound)
    }
}

/// The rule list after writing a rule to `allow` or `deny`, or why not.
pub open spec fn devices_write(rules: Seq<DeviceRule>, file: Seq<u8>, value: Seq<u8>) -> Result<Seq<DeviceRule>, CgroupError> {
    if file == /* "allow" */ seq![97u8, 108u8, 108u8, 111u8, 119u8] || file == /* "deny" */ seq![100u8, 101u8, 110u8, 121u8] {
        match rule_from_words(words(value), file == /* "allow" */ seq![97u8, 108u8, 108u8, 111u8, 119u8]) {
            Ok(r) => Ok(rules.push(r)),
            Err(e) => Err(e),
        }
    } else {
        Err(CgroupError::NotFound)
    }
}

/// Read a devices controller file
pub fn read_file(controller: &DevicesController, file: &[u8]) -> (r: Result<Vec<u8>, CgroupError>)
    ensures
        res_bytes(r) == devices_read(controller.rules@, file@),
{
    if !bytes_equal(file, /* "list" */ [108u8, 105u8, 115u8, 116u8].as_slice()) {
        return Err(CgroupError::NotFound);
    }
    let ghost s = controller.rules@;
    let mut out: Vec<u8> = Vec::new();
    let mut i: usize = 0;
    assert(s.subrange(0, 0) =~= Seq::<DeviceRule>::empty());
    while i < controller.rules.len()
        invariant
            s == controller.rules@,
            i <= s.len(),
            out@ == rules_lines(s.subrange(0, i as int)),
        decreases s.len() - i,
    {
        let t = controller.rules[i].format();
        extend_bytes(&mut out, t.as_slice());
        out.push(10);
        assert(s.subrange(0, i + 1).drop_last() =~= s.subrange(0, i as int));
        assert(out@ =~= rules_lines(s.subrange(0, i + 1)));
        i = i + 1;
    }
    assert(s.subrange(0, s.len() as int) =~= s);
    trim_end_vec(&mut out);
    Ok(out)
}

/// Write a devices controller file
pub fn write_file(controller: &mut DevicesController, file: &[u8], value: &[u8]) -> (r: Result<(), CgroupError>)
    ensures
        match devices_write(old(controller).rules@, file@, value@) {
            Ok(rules) => r is Ok && final(controller).rules@ == rules,
            Err(e) => r == Err::<(), CgroupError>(e) && final(controller).rules@ == old(controller).rules@,
        },
        final(controller).default_allow == old(controller).default_allow,
{
    let allow = bytes_equal(file, /* "allow" */ [97u8, 108u8, 108u8, 111u8, 119u8].as_slice());
    if allow || bytes_equal(file, /* "deny" */ [100u8, 101u8, 110u8, 121u8].as_slice()) {
        let rule = match parse_simple_rule(value, allow) {
            Ok(r) => r,
            Err(e) => return Err(e),
        };
        controller.rules.push(rule);
        Ok(())
    } else {
        Err(CgroupError::NotFound)
    }
}

/// Parse simple rule format (e.g., "c 1:3 rwm")
fn parse_simple_rule(s: &[u8], allow: bool) -> (r: Result<DeviceRule, CgroupError>)
    ensures
        r == rule_from_words(words(s@), allow),
{
    let parts = split_words(s);
    assert(parts@.map_values(|w: Vec<u8>| w@).subrange(0, parts@.len() as int) =~= parts@.map_values(|w: Vec<u8>| w@));
    rule_from_parts(&parts, 0, allow)
}

/// Check device access for a process
pub fn check_device_access(controller: &DevicesController, device_type: DeviceType, major: u32, minor: u32, access: Access) -> (r: bool)
    ensures
        r == access_allowed(controller.rules@, controller.default_allow, device_type, major, minor, access),
{
    controller.check_access(device_type, major, minor, access)
}

/// Apply device rules to a process (the rules are checked on access)
pub fn apply_to_process(pid: u32, controller: &DevicesController) -> (r: Result<(), CgroupError>)
    ensures
        r is Ok,
{
    Ok(())
}


/// A device number or `*`, spelled out, reads back; it is one word without
/// a colon.
proof fn lemma_number_roundtrip(n: Option<u32>)
    ensures
        number_or_any(number_text(n)) == Ok::<Option<u32>, CgroupError>(n),
        is_word(number_text(n)),
        forall|k: int| 0 <= k < number_text(n).len() ==> #[trigger] number_text(n)[k] != 58u8,
{
    match n {
        Some(m) => {
            lemma_parse_dec(m as nat, u32::MAX as nat);
            lemma_dec_digits(m as nat);
            let d = dec(m as nat);
            assert(48 <= d[0] <= 57);
            assert(d != seq![42u8]);
            assert forall|k: int| 0 <= k < d.len() implies #[trigger] d[k] != 58u8 by {
                assert(48 <= d[k] <= 57);
            }
        },
        None => {
            let t = seq![42u8];
            assert forall|k: int| 0 <= k < t.len() implies word_byte(#[trigger] t[k]) by {}
        },
    }
}

/// `MAJ:MIN` spelled out reads back; it is one word.
proof fn lemma_numbers_roundtrip(a: Option<u32>, b: Option<u32>)
    ensures
        rule_numbers(number_text(a) + seq![58u8] + number_text(b)) == Ok::<(Option<u32>, Option<u32>), CgroupError>((a, b)),
        is_word(number_text(a) + seq![58u8] + number_text(b)),
{
    lemma_number_roundtrip(a);
    lemma_number_roundtrip(b);
    let x = number_text(a);
    let y = number_text(b);
    let s = x + seq![58u8] + y;
    lemma_index_from_bounds(s, 58u8, 0);
    let i = byte_index(s, 58u8);
    if i < x.len() {
        assert(s[i] == x[i]);
    }
    if i > x.len() {
        assert(s[x.len() as int] == 58u8);
    }
    assert(i == x.len());
    assert(s.subrange(i + 1, s.len() as int) =~= y);
    assert(s.subrange(0, i) =~= x);
    lemma_index_from_bounds(y, 58u8, 0);
    if byte_index(y, 58u8) < y.len() {
        assert(y[byte_index(y, 58u8)] != 58u8);
    }
    assert forall|k: int| 0 <= k < s.len() implies word_byte(#[trigger] s[k]) by {
        if k < x.len() {
            assert(s[k] == x[k]);
        } else if k > x.len() {
            assert(s[k] == y[k - x.len() - 1]);
        }
    }
}

/// The letters of a set of flags read back as the flags; with a flag set
/// they form one word.
proof fn lemma_access_roundtrip(a: Access)
    ensures
        access_of(access_text(a)) == a,
        (a.read || a.write || a.mknod) ==> is_word(access_text(a)),
{
    let t = access_text(a);
    assert forall|k: int| 0 <= k < t.len() implies (#[trigger] t[k] == 114u8 && a.read) || (t[k] == 119u8 && a.write) || (t[k] == 109u8 && a.mknod) by {
        let r = if a.read { seq![114u8] } else { Seq::<u8>::empty() };
        let w = if a.write { seq![119u8] } else { Seq::<u8>::empty() };
        let m = if a.mknod { seq![109u8] } else { Seq::<u8>::empty() };
        assert(t == r + w + m);
        if k < r.len() {
            assert(t[k] == r[k]);
        } else if k < r.len() + w.len() {
            assert(t[k] == w[k - r.len()]);
        } else {
            assert(t[k] == m[k - r.len() - w.len()]);
        }
    }
    if a.read {
        assert(t[0] == 114u8);
    }
    if a.write {
        let k = if a.read { 1int } else { 0int };
        assert(t[k] == 119u8);
    }
    if a.mknod {
        let k = (if a.read { 1int } else { 0int }) + (if a.write { 1int } else { 0int });
        assert(t[k] == 109u8);
    }
    assert(access_of(t).read == a.read);
    assert(access_of(t).write == a.write);
    assert(access_of(t).mknod == a.mknod);
}

/// The word `allow` or `deny`.
pub open spec fn verdict_word(allow: bool) -> Seq<u8> {
    if allow { /* "allow" */ seq![97u8, 108u8, 108u8, 111u8, 119u8] } else { /* "deny" */ seq![100u8, 101u8, 110u8, 121u8] }
}

/// The four words of a rule's text.
proof fn lemma_rule_words(r: DeviceRule)
    requires
        r.access.read || r.access.write || r.access.mknod,
    ensures
        words(rule_text(r)) == seq![verdict_word(r.allow), seq![type_letter(r.device_type)],
            number_text(r.major) + seq![58u8] + number_text(r.minor), access_text(r.access)],
{
    let a = verdict_word(r.allow);
    let t = seq![type_letter(r.device_type)];
    let n = number_text(r.major) + seq![58u8] + number_text(r.minor);
    let at = access_text(r.access);
    let sp = seq![32u8];
    lemma_numbers_roundtrip(r.major, r.minor);
    lemma_access_roundtrip(r.access);
    assert forall|k: int| 0 <= k < a.len() implies word_byte(#[trigger] a[k]) by {}
    assert forall|k: int| 0 <= k < t.len() implies word_byte(#[trigger] t[k]) by {}
    let rest2 = n + sp + at;
    let rest1 = t + sp + rest2;
    assert(rule_text(r) =~= a + sp + rest1);
    lemma_words_cons(a, rest1);
    lemma_words_cons(t, rest2);
    lemma_words_cons(n, at);
    lemma_words_single(at);
    assert(words(rule_text(r)) =~= seq![a, t, n, at]);
}

/// A rule written out parses back to the same rule, when it allows or
/// denies at least one kind of access (with none, its access word is empty
/// and the text has only three words).
pub proof fn lemma_rule_roundtrip(r: DeviceRule)
    requires
        r.access.read || r.access.write || r.access.mknod,
    ensures
        rule_parse(rule_text(r)) == Ok::<DeviceRule, CgroupError>(r),
{
    let a = verdict_word(r.allow);
    let t = seq![type_letter(r.device_type)];
    let n = number_text(r.major) + seq![58u8] + number_text(r.minor);
    let at = access_text(r.access);
    lemma_rule_words(r);
    lemma_numbers_roundtrip(r.major, r.minor);
    lemma_access_roundtrip(r.access);
    let ps = words(rule_text(r));
    assert(ps.len() == 4 && ps[0] == a && ps[1] == t && ps[2] == n && ps[3] == at);
    assert(ps.drop_first() =~= seq![t, n, at]);
    if !r.allow {
        assert(a.len() == 4);
    }
    assert(type_of_letter(type_letter(r.device_type) as u32) == Some(r.device_type));
    assert(rule_from_words(seq![t, n, at], r.allow) == Ok::<DeviceRule, CgroupError>(r));
}

} // verus!
