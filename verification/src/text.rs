//! Byte strings: their order, decimal numbers, ASCII whitespace and words.
//!
//! Text that the kernel reads and writes (paths, control files) is handled
//! as its UTF-8 bytes.
use vstd::prelude::*;

verus! {

// -----------------------------------------------------------------------------
// Key order
// -----------------------------------------------------------------------------

/// Byte-wise lexicographic order on keys; a proper prefix comes first.
pub open spec fn key_lt(a: Seq<u8>, b: Seq<u8>) -> bool
    decreases a.len(),
{
    if a.len() == 0 {
        b.len() > 0
    } else if b.len() == 0 {
        false
    } else if a[0] != b[0] {
        a[0] < b[0]
    } else {
        key_lt(a.drop_first(), b.drop_first())
    }
}

/// No key comes before itself.
pub proof fn lemma_key_lt_irreflexive(a: Seq<u8>)
    ensures
        !key_lt(a, a),
    decreases a.len(),
{
    if a.len() > 0 {
        lemma_key_lt_irreflexive(a.drop_first());
    }
}

/// The key order is transitive.
pub proof fn lemma_key_lt_transitive(a: Seq<u8>, b: Seq<u8>, c: Seq<u8>)
    requires
        key_lt(a, b),
        key_lt(b, c),
    ensures
        key_lt(a, c),
    decreases a.len(),
{
    if a.len() > 0 && b.len() > 0 && c.len() > 0 && a[0] == b[0] && b[0] == c[0] {
        lemma_key_lt_transitive(a.drop_first(), b.drop_first(), c.drop_first());
    }
}

/// Of two different keys, one comes before the other.
#[verifier::spinoff_prover]
#[verifier::rlimit(40)]
pub proof fn lemma_key_lt_total(a: Seq<u8>, b: Seq<u8>)
    ensures
        a == b || key_lt(a, b) || key_lt(b, a),
    decreases a.len(),
{
    if a.len() > 0 && b.len() > 0 && a[0] == b[0] {
        lemma_key_lt_total(a.drop_first(), b.drop_first());
        if a.drop_first() == b.drop_first() {
            assert(a =~= seq![a[0]] + a.drop_first());
            assert(b =~= seq![b[0]] + b.drop_first());
        }
    } else if a.len() == 0 && b.len() == 0 {
        assert(a =~= b);
    }
}

/// The key order is asymmetric.
pub proof fn lemma_key_lt_asymmetric(a: Seq<u8>, b: Seq<u8>)
    requires
        key_lt(a, b),
    ensures
        !key_lt(b, a),
    decreases a.len(),
{
    if a.len() > 0 && b.len() > 0 && a[0] == b[0] {
        lemma_key_lt_asymmetric(a.drop_first(), b.drop_first());
    }
}

/// Whether `a` comes before `b` in the key order.
pub fn key_less(a: &[u8], b: &[u8]) -> (r: bool)
    ensures
        r == key_lt(a@, b@),
{
    let mut i: usize = 0;
    assert(a@.skip(0) =~= a@);
    assert(b@.skip(0) =~= b@);
    while i < a.len() && i < b.len()
        invariant
            i <= a@.len(),
            i <= b@.len(),
            key_lt(a@, b@) == key_lt(a@.skip(i as int), b@.skip(i as int)),
        decreases a@.len() - i,
    {
        if a[i] != b[i] {
            return a[i] < b[i];
        }
        assert(a@.skip(i as int).drop_first() =~= a@.skip(i + 1));
        assert(b@.skip(i as int).drop_first() =~= b@.skip(i + 1));
        i = i + 1;
    }
    i == a.len() && i < b.len()
}

/// Whether two byte strings are equal.
pub fn bytes_equal(a: &[u8], b: &[u8]) -> (r: bool)
    ensures
        r == (a@ == b@),
{
    if a.len() != b.len() {
        return false;
    }
    let mut i: usize = 0;
    while i < a.len()
        invariant
            i <= a@.len(),
            a@.len() == b@.len(),
            forall|j: int| 0 <= j < i ==> a@[j] == b@[j],
        decreases a@.len() - i,
    {
        if a[i] != b[i] {
            return false;
        }
        i = i + 1;
    }
    assert(a@ =~= b@);
    true
}

// -----------------------------------------------------------------------------
// Whitespace and words
// -----------------------------------------------------------------------------

/// ASCII whitespace: tab, line feed, vertical tab, form feed, carriage return, space.
pub open spec fn is_space(b: u8) -> bool {
    (9 <= b && b <= 13) || b == 32
}

/// Index of the first byte at or after `i` that does not begin a
/// whitespace character (or the end).
pub open spec fn skip_space(s: Seq<u8>, i: int) -> int
    decreases s.len() - i,
{
    let k = ws_len_at(s, i);
    if k == 0 { i } else { skip_space(s, i + k) }
}

/// Index of the first byte at or after `i` that begins a whitespace
/// character (or the end).
pub open spec fn word_end(s: Seq<u8>, i: int) -> int
    decreases s.len() - i,
{
    if 0 <= i < s.len() && ws_len_at(s, i) == 0 { word_end(s, i + 1) } else { i }
}

pub proof fn lemma_skip_space_bounds(s: Seq<u8>, i: int)
    requires
        0 <= i <= s.len(),
    ensures
        i <= skip_space(s, i) <= s.len(),
        ws_len_at(s, skip_space(s, i)) == 0,
    decreases s.len() - i,
{
    let k = ws_len_at(s, i);
    if k != 0 {
        lemma_skip_space_bounds(s, i + k);
    }
}

pub proof fn lemma_word_end_bounds(s: Seq<u8>, i: int)
    requires
        0 <= i <= s.len(),
    ensures
        i <= word_end(s, i) <= s.len(),
        forall|k: int| i <= k < word_end(s, i) ==> #[trigger] ws_len_at(s, k) == 0,
        word_end(s, i) < s.len() ==> ws_len_at(s, word_end(s, i)) > 0,
    decreases s.len() - i,
{
    if i < s.len() && ws_len_at(s, i) == 0 {
        lemma_word_end_bounds(s, i + 1);
    }
}

/// The whitespace-separated words of `s` from index `i` on.
pub open spec fn words_from(s: Seq<u8>, i: int) -> Seq<Seq<u8>>
    decreases s.len() - i,
{
    if i < 0 || i >= s.len() {
        Seq::empty()
    } else {
        let j = skip_space(s, i);
        if j >= s.len() {
            Seq::empty()
        } else {
            let k = word_end(s, j);
            proof {
                lemma_skip_space_bounds(s, i);
                lemma_word_end_bounds(s, j);
            }
            if k <= j { Seq::empty() } else { seq![s.subrange(j, k)] + words_from(s, k) }
        }
    }
}

/// The words of `s`, as `str::split_whitespace` finds them: the runs
/// between characters with the Unicode `White_Space` property.
pub open spec fn words(s: Seq<u8>) -> Seq<Seq<u8>> {
    words_from(s, 0)
}

/// `s` without leading and trailing whitespace, as `str::trim` removes it
/// from text: the characters with the Unicode `White_Space` property.
pub open spec fn trim(s: Seq<u8>) -> Seq<u8> {
    let t = s.skip(skip_space(s, 0));
    t.take(back_ws(t, t.len() as int))
}

/// Index just past the last byte that is not trailing ASCII whitespace,
/// looking below `e`.
pub open spec fn trim_end_index(s: Seq<u8>, e: int) -> int
    decreases e,
{
    if 0 < e <= s.len() && is_space(s[e - 1]) { trim_end_index(s, e - 1) } else { e }
}

proof fn lemma_trim_end_bounds(s: Seq<u8>, e: int)
    requires
        0 <= e <= s.len(),
    ensures
        0 <= trim_end_index(s, e) <= e,
        forall|k: int| trim_end_index(s, e) <= k < e ==> is_space(#[trigger] s[k]),
        trim_end_index(s, e) > 0 ==> !is_space(s[trim_end_index(s, e) - 1]),
    decreases e,
{
    if 0 < e && is_space(s[e - 1]) {
        lemma_trim_end_bounds(s, e - 1);
    }
}

/// `s` without trailing ASCII whitespace.
pub open spec fn trim_end(s: Seq<u8>) -> Seq<u8> {
    s.subrange(0, trim_end_index(s, s.len() as int))
}

/// Drop trailing ASCII whitespace.
pub fn trim_end_vec(v: &mut Vec<u8>)
    ensures
        final(v)@ == trim_end(old(v)@),
{
    let ghost s = v@;
    proof {
        lemma_trim_end_bounds(s, s.len() as int);
    }
    while v.len() > 0 && space_byte(v[v.len() - 1])
        invariant
            v@.len() <= s.len(),
            v@ == s.subrange(0, v@.len() as int),
            trim_end_index(s, s.len() as int) == trim_end_index(s, v@.len() as int),
        decreases v@.len(),
    {
        v.pop();
    }
    assert(v@ =~= trim_end(s));
}

// -----------------------------------------------------------------------------
// Searching
// -----------------------------------------------------------------------------

/// Index of the first `b` at or after `i` (or the end).
pub open spec fn index_from(s: Seq<u8>, b: u8, i: int) -> int
    decreases s.len() - i,
{
    if 0 <= i < s.len() && s[i] != b { index_from(s, b, i + 1) } else { i }
}

/// Index of the first `b` in `s`, or its length when there is none.
pub open spec fn byte_index(s: Seq<u8>, b: u8) -> int {
    index_from(s, b, 0)
}

pub proof fn lemma_index_from_bounds(s: Seq<u8>, b: u8, i: int)
    requires
        0 <= i <= s.len(),
    ensures
        i <= index_from(s, b, i) <= s.len(),
        forall|k: int| i <= k < index_from(s, b, i) ==> #[trigger] s[k] != b,
        index_from(s, b, i) < s.len() ==> s[index_from(s, b, i)] == b,
    decreases s.len() - i,
{
    if i < s.len() && s[i] != b {
        lemma_index_from_bounds(s, b, i + 1);
    }
}

/// Index of the first `b` in `s`, or its length when there is none.
pub fn find_byte(s: &[u8], b: u8) -> (r: usize)
    ensures
        r == byte_index(s@, b),
        r <= s@.len(),
{
    let mut i: usize = 0;
    while i < s.len() && s[i] != b
        invariant
            i <= s@.len(),
            index_from(s@, b, 0) == index_from(s@, b, i as int),
        decreases s@.len() - i,
    {
        i = i + 1;
    }
    i
}

/// Index of the last `b` in `s`, or -1 when there is none.
pub open spec fn last_index(s: Seq<u8>, b: u8) -> int
    decreases s.len(),
{
    if s.len() == 0 {
        -1
    } else if s.last() == b {
        s.len() - 1
    } else {
        last_index(s.drop_last(), b)
    }
}

pub proof fn lemma_last_index_bounds(s: Seq<u8>, b: u8)
    ensures
        -1 <= last_index(s, b) < s.len(),
        last_index(s, b) >= 0 ==> s[last_index(s, b)] == b,
        forall|k: int| last_index(s, b) < k < s.len() ==> #[trigger] s[k] != b,
    decreases s.len(),
{
    if s.len() > 0 && s.last() != b {
        lemma_last_index_bounds(s.drop_last(), b);
        assert forall|k: int| last_index(s, b) < k < s.len() implies #[trigger] s[k] != b by {
            if k < s.len() - 1 {
                assert(s[k] == s.drop_last()[k]);
            }
        }
    }
}

/// Index of the last `b` in `s`, if there is one.
pub fn rfind_byte(s: &[u8], b: u8) -> (r: Option<usize>)
    ensures
        match r {
            Some(i) => i == last_index(s@, b),
            None => last_index(s@, b) == -1,
        },
{
    let mut i: usize = s.len();
    assert(s@.subrange(0, s@.len() as int) =~= s@);
    while i > 0 && s[i - 1] != b
        invariant
            i <= s@.len(),
            last_index(s@, b) == last_index(s@.subrange(0, i as int), b),
        decreases i,
    {
        assert(s@.subrange(0, i as int).drop_last() =~= s@.subrange(0, i - 1));
        i = i - 1;
    }
    if i == 0 {
        assert(s@.subrange(0, 0) =~= Seq::<u8>::empty());
        None
    } else {
        Some(i - 1)
    }
}

/// Whether byte `b` is whitespace.
pub fn space_byte(b: u8) -> (r: bool)
    ensures
        r == is_space(b),
{
    (9 <= b && b <= 13) || b == 32
}

/// `s` without leading and trailing whitespace (`str::trim`).
pub fn trim_bytes(s: &[u8]) -> (r: Vec<u8>)
    ensures
        r@ == trim(s@),
{
    let mut a: usize = 0;
    loop
        invariant
            a <= s@.len(),
            skip_space(s@, 0) == skip_space(s@, a as int),
        ensures
            a <= s@.len(),
            skip_space(s@, 0) == a,
        decreases s@.len() - a,
    {
        let k = ws_len_at_exec(s, a);
        if k == 0 {
            break;
        }
        a = a + k;
    }
    let t = crate::wire::copy_range(s, a, s.len());
    let mut b: usize = t.len();
    loop
        invariant
            b <= t@.len(),
            back_ws(t@, t@.len() as int) == back_ws(t@, b as int),
        ensures
            b <= t@.len(),
            back_ws(t@, t@.len() as int) == b,
        decreases b,
    {
        let k = ws_len_before_exec(t.as_slice(), b);
        if k == 0 {
            break;
        }
        b = b - k;
    }
    let r = crate::wire::copy_range(t.as_slice(), 0, b);
    assert(t@ =~= s@.skip(skip_space(s@, 0)));
    assert(r@ =~= trim(s@));
    r
}

/// The whitespace-separated words of `s`.
pub fn split_words(s: &[u8]) -> (r: Vec<Vec<u8>>)
    ensures
        r@.map_values(|w: Vec<u8>| w@) == words(s@),
{
    let mut out: Vec<Vec<u8>> = Vec::new();
    let mut i: usize = 0;
    assert(out@.map_values(|w: Vec<u8>| w@) + words_from(s@, 0) =~= words(s@));
    while i < s.len()
        invariant
            i <= s@.len(),
            out@.map_values(|w: Vec<u8>| w@) + words_from(s@, i as int) == words(s@),
        decreases s@.len() - i,
    {
        let ghost before = out@.map_values(|w: Vec<u8>| w@);
        let mut j = i;
        loop
            invariant
                i <= j <= s@.len(),
                skip_space(s@, i as int) == skip_space(s@, j as int),
            ensures
                i <= j <= s@.len(),
                skip_space(s@, i as int) == j,
            decreases s@.len() - j,
        {
            let w = ws_len_at_exec(s, j);
            if w == 0 {
                break;
            }
            j = j + w;
        }
        if j >= s.len() {
            assert(words_from(s@, i as int) =~= Seq::<Seq<u8>>::empty());
            i = j;
            assert(words_from(s@, i as int) =~= Seq::<Seq<u8>>::empty());
        } else {
            let mut k = j;
            while k < s.len() && ws_len_at_exec(s, k) == 0
                invariant
                    j <= k <= s@.len(),
                    word_end(s@, j as int) == word_end(s@, k as int),
                decreases s@.len() - k,
            {
                k = k + 1;
            }
            proof {
                lemma_skip_space_bounds(s@, i as int);
            }
            assert(k > j);
            out.push(crate::wire::copy_range(s, j, k));
            assert(out@.map_values(|w: Vec<u8>| w@) =~= before.push(s@.subrange(j as int, k as int)));
            assert(before + words_from(s@, i as int) =~= before.push(s@.subrange(j as int, k as int)) + words_from(s@, k as int));
            i = k;
        }
    }
    assert(words_from(s@, i as int) =~= Seq::<Seq<u8>>::empty());
    assert(out@.map_values(|w: Vec<u8>| w@) + Seq::<Seq<u8>>::empty() =~= out@.map_values(|w: Vec<u8>| w@));
    out
}

// -----------------------------------------------------------------------------
// Decimal numbers
// -----------------------------------------------------------------------------

/// The decimal digits of `n`, most significant first, with no leading zeros.
pub open spec fn dec(n: nat) -> Seq<u8>
    decreases n,
{
    if n < 10 { seq![(48 + n) as u8] } else { dec(n / 10).push((48 + n % 10) as u8) }
}

/// A signed number in decimal, with a minus sign when negative.
pub open spec fn dec_signed(x: int) -> Seq<u8> {
    if x < 0 { seq![45u8] + dec((-x) as nat) } else { dec(x as nat) }
}

/// Append `n` in decimal.
pub fn push_dec(v: &mut Vec<u8>, n: u64)
    ensures
        final(v)@ == old(v)@ + dec(n as nat),
    decreases n,
{
    if n >= 10 {
        push_dec(v, n / 10);
    }
    v.push(48 + (n % 10) as u8);
    assert(final(v)@ =~= old(v)@ + dec(n as nat));
}

/// Append a signed number in decimal.
pub fn push_dec_i64(v: &mut Vec<u8>, x: i64)
    ensures
        final(v)@ == old(v)@ + dec_signed(x as int),
{
    if x < 0 {
        v.push(45);
        let m: u64 = (-(x as i128)) as u64;
        push_dec(v, m);
        assert(final(v)@ =~= old(v)@ + dec_signed(x as int));
    } else {
        push_dec(v, x as u64);
    }
}

/// Whether every byte of `s` is an ASCII digit.
pub open spec fn all_digits(s: Seq<u8>) -> bool {
    forall|i: int| 0 <= i < s.len() ==> 48 <= #[trigger] s[i] <= 57
}

/// The value of a run of decimal digits.
pub open spec fn digits_value(s: Seq<u8>) -> nat
    decreases s.len(),
{
    if s.len() == 0 { 0 } else { digits_value(s.drop_last()) * 10 + (s.last() - 48) as nat }
}

/// The digits after an optional leading plus sign.
pub open spec fn unsigned_digits(s: Seq<u8>) -> Seq<u8> {
    if s.len() > 0 && s[0] == 43 { s.drop_first() } else { s }
}

/// The number `s` spells in decimal (an optional `+`, then at least one
/// digit) if it is at most `max`.
pub open spec fn parse_unsigned(s: Seq<u8>, max: nat) -> Option<nat> {
    let d = unsigned_digits(s);
    if d.len() == 0 || !all_digits(d) || digits_value(d) > max { None } else { Some(digits_value(d)) }
}

/// The signed number `s` spells in decimal (an optional sign, then at
/// least one digit) if it fits in an `i64`.
pub open spec fn parse_signed(s: Seq<u8>) -> Option<int> {
    if s.len() > 0 && s[0] == 45 {
        let d = s.drop_first();
        if d.len() == 0 || !all_digits(d) || digits_value(d) > 0x8000_0000_0000_0000 { None } else { Some(-digits_value(d)) }
    } else {
        match parse_unsigned(s, 0x7FFF_FFFF_FFFF_FFFF) {
            Some(v) => Some(v as int),
            None => None,
        }
    }
}

proof fn lemma_digits_value_prefix(s: Seq<u8>, k: int)
    requires
        0 <= k <= s.len(),
        all_digits(s),
    ensures
        digits_value(s.subrange(0, k)) <= digits_value(s),
    decreases s.len() - k,
{
    if k < s.len() {
        lemma_digits_value_prefix(s, k + 1);
        assert(s.subrange(0, k + 1).drop_last() =~= s.subrange(0, k));
    } else {
        assert(s.subrange(0, k) =~= s);
    }
}

/// The value of the digits `s[start..]`, if they are all digits, not
/// empty, and at most `max`.
fn parse_digits(s: &[u8], start: usize, max: u64) -> (r: Option<u64>)
    requires
        start <= s@.len(),
    ensures
        ({
            let d = s@.subrange(start as int, s@.len() as int);
            r == (if d.len() == 0 || !all_digits(d) || digits_value(d) > max { None::<u64> } else { Some(digits_value(d) as u64) })
        }),
{
    let ghost d = s@.subrange(start as int, s@.len() as int);
    if start >= s.len() {
        return None;
    }
    let mut v: u64 = 0;
    let mut i: usize = start;
    assert(d.subrange(0, 0) =~= Seq::<u8>::empty());
    while i < s.len()
        invariant
            start <= i <= s@.len(),
            d == s@.subrange(start as int, s@.len() as int),
            all_digits(d.subrange(0, i - start)),
            v == digits_value(d.subrange(0, i - start)),
            v <= max,
        decreases s@.len() - i,
    {
        let c = s[i];
        if c < 48 || c > 57 {
            assert(d[i - start] == c);
            return None;
        }
        let digit = (c - 48) as u64;
        assert(d.subrange(0, i - start + 1).drop_last() =~= d.subrange(0, i - start));
        if digit > max || v > (max - digit) / 10 {
            proof {
                assert(v * 10 + digit > max) by (nonlinear_arith)
                    requires
                        digit > max || v > (max - digit) / 10,
                        digit <= 9,
                ;
                if all_digits(d) {
                    lemma_digits_value_prefix(d, i - start + 1);
                }
            }
            return None;
        }
        proof {
            assert(v * 10 + digit <= max) by (nonlinear_arith)
                requires
                    digit <= max,
                    v <= (max - digit) / 10,
                    digit <= 9,
            ;
        }
        v = v * 10 + digit;
        i = i + 1;
    }
    assert(d.subrange(0, i - start) =~= d);
    Some(v)
}

/// The number `s` spells in decimal if it is at most `max` (`str::parse`
/// for unsigned integers).
pub fn parse_unsigned_bytes(s: &[u8], max: u64) -> (r: Option<u64>)
    ensures
        r == (match parse_unsigned(s@, max as nat) {
            Some(v) => Some(v as u64),
            None => None::<u64>,
        }),
{
    let start: usize = if s.len() > 0 && s[0] == 43 { 1 } else { 0 };
    assert(unsigned_digits(s@) =~= s@.subrange(start as int, s@.len() as int));
    parse_digits(s, start, max)
}

/// The number `s` spells in decimal, if it fits in a `u64`.
pub fn parse_u64(s: &[u8]) -> (r: Option<u64>)
    ensures
        r == (match parse_unsigned(s@, u64::MAX as nat) {
            Some(v) => Some(v as u64),
            None => None::<u64>,
        }),
{
    parse_unsigned_bytes(s, u64::MAX)
}

/// The number `s` spells in decimal, if it fits in a `u32`.
pub fn parse_u32(s: &[u8]) -> (r: Option<u32>)
    ensures
        r == (match parse_unsigned(s@, u32::MAX as nat) {
            Some(v) => Some(v as u32),
            None => None::<u32>,
        }),
{
    match parse_unsigned_bytes(s, u32::MAX as u64) {
        Some(v) => Some(v as u32),
        None => None,
    }
}

/// The signed number `s` spells in decimal, if it fits in an `i64`.
pub fn parse_i64(s: &[u8]) -> (r: Option<i64>)
    ensures
        r == (match parse_signed(s@) {
            Some(v) => Some(v as i64),
            None => None::<i64>,
        }),
{
    if s.len() > 0 && s[0] == 45 {
        assert(s@.drop_first() =~= s@.subrange(1, s@.len() as int));
        match parse_digits(s, 1, 0x8000_0000_0000_0000) {
            Some(v) => Some((-(v as i128)) as i64),
            None => None,
        }
    } else {
        match parse_unsigned_bytes(s, 0x7FFF_FFFF_FFFF_FFFF) {
            Some(v) => Some(v as i64),
            None => None,
        }
    }
}

/// Whether `s` starts with `prefix`.
pub fn starts_with(s: &[u8], prefix: &[u8]) -> (r: bool)
    ensures
        r == (prefix@.len() <= s@.len() && s@.subrange(0, prefix@.len() as int) == prefix@),
{
    if prefix.len() > s.len() {
        return false;
    }
    let mut i: usize = 0;
    while i < prefix.len()
        invariant
            i <= prefix@.len() <= s@.len(),
            forall|k: int| 0 <= k < i ==> s@[k] == prefix@[k],
        decreases prefix@.len() - i,
    {
        if s[i] != prefix[i] {
            assert(s@.subrange(0, prefix@.len() as int)[i as int] != prefix@[i as int]);
            return false;
        }
        i = i + 1;
    }
    assert(s@.subrange(0, prefix@.len() as int) =~= prefix@);
    true
}

// -----------------------------------------------------------------------------
// Unicode whitespace
// -----------------------------------------------------------------------------

/// Whether three bytes encode one of the three-byte whitespace characters:
/// U+1680, U+2000 to U+200A, U+2028, U+2029, U+202F, U+205F and U+3000.
pub open spec fn is_ws3(a: u8, b: u8, c: u8) -> bool {
    (a == 0xE1 && b == 0x9A && c == 0x80) || (a == 0xE2 && b == 0x80 && ((0x80 <= c && c <= 0x8A) || c == 0xA8 || c
        == 0xA9 || c == 0xAF)) || (a == 0xE2 && b == 0x81 && c == 0x9F) || (a == 0xE3 && b == 0x80 && c == 0x80)
}

/// Whether two bytes encode U+0085 or U+00A0.
pub open spec fn is_ws2(a: u8, b: u8) -> bool {
    a == 0xC2 && (b == 0x85 || b == 0xA0)
}

/// The length of the encoding of the whitespace character that starts at
/// byte `a` of `s`, or zero when none does.
pub open spec fn ws_len_at(s: Seq<u8>, a: int) -> int {
    if a < 0 || a >= s.len() {
        0
    } else if is_space(s[a]) {
        1
    } else if a + 1 < s.len() && is_ws2(s[a], s[a + 1]) {
        2
    } else if a + 2 < s.len() && is_ws3(s[a], s[a + 1], s[a + 2]) {
        3
    } else {
        0
    }
}

/// The length of the encoding of the whitespace character that ends just
/// before byte `b` of `s`, or zero when none does.
pub open spec fn ws_len_before(s: Seq<u8>, b: int) -> int {
    if b <= 0 || b > s.len() {
        0
    } else if is_space(s[b - 1]) {
        1
    } else if b >= 2 && is_ws2(s[b - 2], s[b - 1]) {
        2
    } else if b >= 3 && is_ws3(s[b - 3], s[b - 2], s[b - 1]) {
        3
    } else {
        0
    }
}

/// Index just past the last byte, at or below `b`, that does not end a
/// whitespace character.
pub open spec fn back_ws(s: Seq<u8>, b: int) -> int
    decreases b,
{
    let k = ws_len_before(s, b);
    if k == 0 { b } else { back_ws(s, b - k) }
}

pub proof fn lemma_back_ws_bounds(s: Seq<u8>, b: int)
    requires
        0 <= b <= s.len(),
    ensures
        0 <= back_ws(s, b) <= b,
    decreases b,
{
    let k = ws_len_before(s, b);
    if k != 0 {
        lemma_back_ws_bounds(s, b - k);
    }
}

/// The length of the whitespace character starting at `a`, or zero.
fn ws_len_at_exec(s: &[u8], a: usize) -> (k: usize)
    ensures
        k == ws_len_at(s@, a as int),
        k > 0 ==> a + k <= s.len(),
{
    let n = s.len();
    if a >= n {
        0
    } else if space_byte(s[a]) {
        1
    } else if n - a > 1 && s[a] == 0xC2 && (s[a + 1] == 0x85 || s[a + 1] == 0xA0) {
        2
    } else if n - a > 2 && ((s[a] == 0xE1 && s[a + 1] == 0x9A && s[a + 2] == 0x80) || (s[a] == 0xE2 && s[a + 1] == 0x80
        && ((0x80 <= s[a + 2] && s[a + 2] <= 0x8A) || s[a + 2] == 0xA8 || s[a + 2] == 0xA9 || s[a + 2] == 0xAF)) || (
    s[a] == 0xE2 && s[a + 1] == 0x81 && s[a + 2] == 0x9F) || (s[a] == 0xE3 && s[a + 1] == 0x80 && s[a + 2] == 0x80)) {
        3
    } else {
        0
    }
}

/// The length of the whitespace character ending just before `b`, or zero.
fn ws_len_before_exec(s: &[u8], b: usize) -> (k: usize)
    requires
        b <= s@.len(),
    ensures
        k == ws_len_before(s@, b as int),
{
    if b == 0 {
        0
    } else if space_byte(s[b - 1]) {
        1
    } else if b >= 2 && s[b - 2] == 0xC2 && (s[b - 1] == 0x85 || s[b - 1] == 0xA0) {
        2
    } else if b >= 3 && ((s[b - 3] == 0xE1 && s[b - 2] == 0x9A && s[b - 1] == 0x80) || (s[b - 3] == 0xE2 && s[b - 2]
        == 0x80 && ((0x80 <= s[b - 1] && s[b - 1] <= 0x8A) || s[b - 1] == 0xA8 || s[b - 1] == 0xA9 || s[b - 1] == 0xAF))
        || (s[b - 3] == 0xE2 && s[b - 2] == 0x81 && s[b - 1] == 0x9F) || (s[b - 3] == 0xE3 && s[b - 2] == 0x80 && s[b
        - 1] == 0x80)) {
        3
    } else {
        0
    }
}

// -----------------------------------------------------------------------------
// UTF-8
// -----------------------------------------------------------------------------

/// `core::str::from_utf8`, as an option: the bytes read as text exactly
/// when they are valid UTF-8, and then that text encodes to those bytes.
#[verifier::external_body]
pub(crate) fn str_from_utf8<'a>(b: &'a [u8]) -> (r: Option<&'a str>)
    ensures
        r.is_some() == vstd::utf8::valid_utf8(b@),
        r matches Some(s) ==> vstd::utf8::encode_utf8(s@) == b@,
{
    core::str::from_utf8(b).ok()
}


// -----------------------------------------------------------------------------
// Splitting and spelling round trips
// -----------------------------------------------------------------------------

/// Whether a whitespace character starts at a place depends only on the
/// bytes from there on.
proof fn lemma_ws_len_shift(p: Seq<u8>, s: Seq<u8>, i: int)
    requires
        0 <= i <= s.len(),
    ensures
        ws_len_at(p + s, p.len() + i) == ws_len_at(s, i),
{
    let d = p + s;
    let n = p.len() as int;
    if i < s.len() {
        assert(d[n + i] == s[i]);
    }
    if i + 1 < s.len() {
        assert(d[n + i + 1] == s[i + 1]);
    }
    if i + 2 < s.len() {
        assert(d[n + i + 2] == s[i + 2]);
    }
}

proof fn lemma_skip_space_shift(p: Seq<u8>, s: Seq<u8>, i: int)
    requires
        0 <= i <= s.len(),
    ensures
        skip_space(p + s, p.len() + i) == p.len() + skip_space(s, i),
    decreases s.len() - i,
{
    lemma_ws_len_shift(p, s, i);
    let k = ws_len_at(s, i);
    if k != 0 {
        lemma_skip_space_shift(p, s, i + k);
    }
}

proof fn lemma_word_end_shift(p: Seq<u8>, s: Seq<u8>, i: int)
    requires
        0 <= i <= s.len(),
    ensures
        word_end(p + s, p.len() + i) == p.len() + word_end(s, i),
    decreases s.len() - i,
{
    lemma_ws_len_shift(p, s, i);
    if i < s.len() && ws_len_at(s, i) == 0 {
        lemma_word_end_shift(p, s, i + 1);
    }
}

/// The words after a prefix are the words of what follows it.
proof fn lemma_words_shift(p: Seq<u8>, s: Seq<u8>, i: int)
    requires
        0 <= i <= s.len(),
    ensures
        words_from(p + s, p.len() + i) == words_from(s, i),
    decreases s.len() - i,
{
    let d = p + s;
    let n = p.len() as int;
    if i < s.len() {
        lemma_skip_space_shift(p, s, i);
        lemma_skip_space_bounds(s, i);
        let j = skip_space(s, i);
        if j < s.len() {
            lemma_word_end_shift(p, s, j);
            lemma_word_end_bounds(s, j);
            let k = word_end(s, j);
            assert(d.subrange(n + j, n + k) =~= s.subrange(j, k));
            if k > j {
                lemma_words_shift(p, s, k);
            }
        }
    }
}

/// Whether byte `b` can stand in a word of ASCII text: a character below
/// 128 that is not whitespace.
pub open spec fn word_byte(b: u8) -> bool {
    b < 128 && !is_space(b)
}

/// Whether `w` is a word of ASCII text: not empty, without whitespace.
pub open spec fn is_word(w: Seq<u8>) -> bool {
    w.len() > 0 && forall|k: int| 0 <= k < w.len() ==> word_byte(#[trigger] w[k])
}

/// A word followed by a space and more text is the first word of it.
pub proof fn lemma_words_cons(w: Seq<u8>, rest: Seq<u8>)
    requires
        is_word(w),
    ensures
        words(w + seq![32u8] + rest) == seq![w] + words(rest),
{
    let q = w + seq![32u8];
    let d = q + rest;
    assert(w + seq![32u8] + rest == d);
    let n = w.len() as int;
    assert(word_byte(d[0]));
    assert(skip_space(d, 0) == 0);
    lemma_word_end_bounds(d, 0);
    let e = word_end(d, 0);
    if e < n {
        assert(d[e] == w[e] && word_byte(w[e]));
    }
    if e > n {
        assert(d[n] == 32u8);
        assert(ws_len_at(d, n) == 1);
    }
    assert(d[n] == 32u8);
    assert(e == n);
    assert(d.subrange(0, n) =~= w);
    assert(ws_len_at(d, n) == 1);
    assert(skip_space(d, n) == skip_space(d, n + 1));
    assert(words_from(d, n) == words_from(d, n + 1));
    lemma_words_shift(q, rest, 0);
}

/// A single word is its only word.
pub proof fn lemma_words_single(w: Seq<u8>)
    requires
        is_word(w),
    ensures
        words(w) == seq![w],
{
    assert(word_byte(w[0]));
    assert(skip_space(w, 0) == 0);
    lemma_word_end_bounds(w, 0);
    let e = word_end(w, 0);
    if e < w.len() {
        assert(word_byte(w[e]));
    }
    assert(e == w.len());
    assert(w.subrange(0, w.len() as int) =~= w);
    assert(words_from(w, w.len() as int) =~= Seq::<Seq<u8>>::empty());
    assert(seq![w] + Seq::<Seq<u8>>::empty() =~= seq![w]);
}

/// A number in decimal is a run of digits worth the number.
pub proof fn lemma_dec_digits(n: nat)
    ensures
        dec(n).len() > 0,
        all_digits(dec(n)),
        digits_value(dec(n)) == n,
    decreases n,
{
    if n < 10 {
        assert(dec(n).drop_last() =~= Seq::<u8>::empty());
        assert(dec(n).last() == (48 + n) as u8);
        assert(digits_value(dec(n)) == digits_value(Seq::<u8>::empty()) * 10 + (dec(n).last() - 48) as nat);
    } else {
        lemma_dec_digits(n / 10);
        let d = dec(n);
        assert(d.drop_last() =~= dec(n / 10));
        assert((n / 10) * 10 + n % 10 == n) by (nonlinear_arith);
        assert(d.last() == (48 + n % 10) as u8);
        assert(digits_value(d) == digits_value(d.drop_last()) * 10 + (d.last() - 48) as nat);
        assert forall|i: int| 0 <= i < d.len() implies 48 <= #[trigger] d[i] <= 57 by {
            if i < d.len() - 1 {
                assert(d[i] == dec(n / 10)[i]);
            }
        }
    }
}

/// A number in decimal reads back as the number.
pub proof fn lemma_parse_dec(n: nat, max: nat)
    requires
        n <= max,
    ensures
        parse_unsigned(dec(n), max) == Some(n),
        is_word(dec(n)),
{
    lemma_dec_digits(n);
    assert(48 <= dec(n)[0] <= 57);
    assert(unsigned_digits(dec(n)) == dec(n));
    assert forall|k: int| 0 <= k < dec(n).len() implies word_byte(#[trigger] dec(n)[k]) by {
        assert(48 <= dec(n)[k] <= 57);
    }
}

} // verus!
