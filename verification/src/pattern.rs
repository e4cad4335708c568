//! Encoding-aware byte-pattern search.
//!
//! The matcher looks for a fixed label in a byte buffer, in two encodings at
//! once (single-byte and little-endian 16-bit units), and tests a fixed-size
//! lookahead window after each occurrence against the UUID grammar. It works
//! on arbitrary binary content, embedded zero bytes included.

use vstd::prelude::*;

verus! {

/// Number of bytes inspected after each label occurrence when looking for a
/// token (the lookahead window).
pub const SCAN_AHEAD: usize = 200;

/// `needle` occurs in `hay` starting at index `i`.
pub open spec fn matches_at(hay: Seq<u8>, needle: Seq<u8>, i: int) -> bool {
    &&& 0 <= i
    &&& i + needle.len() <= hay.len()
    &&& hay.subrange(i, i + needle.len() as int) == needle
}

/// Compare `needle` against `hay` at offset `i`.
pub(crate) fn is_match_at(hay: &[u8], needle: &[u8], i: usize) -> (b: bool)
    requires
        i + needle@.len() <= hay@.len(),
    ensures
        b == matches_at(hay@, needle@, i as int),
{
    let hn: usize = hay.len();
    let n: usize = needle.len();
    let mut k: usize = 0;
    while k < n
        invariant
            n == needle@.len(),
            hn == hay@.len(),
            i + n <= hn,
            0 <= k <= n,
            forall|m: int| 0 <= m < k ==> hay@[i + m] == needle@[m],
        decreases n - k,
    {
        if hay[i + k] != needle[k] {
            assert(hay@.subrange(i as int, i + needle@.len()) != needle@) by {
                assert(hay@.subrange(i as int, i + needle@.len())[k as int] == hay@[i + k]);
            }
            return false;
        }
        k = k + 1;
    }
    assert(hay@.subrange(i as int, i + needle@.len()) =~= needle@);
    true
}

/// All occurrence start offsets of `needle` in `haystack`, scanned left to
/// right, non-overlapping: after a hit the scan resumes just past the match.
///
/// The contract pins the result down: every returned offset is a match, the
/// offsets are increasing with no overlap, and every match in the buffer is
/// covered by one of the returned occurrences.
pub fn find_all_positions(haystack: &[u8], needle: &[u8]) -> (r: Vec<usize>)
    ensures
        needle@.len() == 0 ==> r@.len() == 0,
        forall|j: int| 0 <= j < r@.len() ==> matches_at(haystack@, needle@, #[trigger] r@[j] as int),
        forall|j: int| 0 <= j < r@.len() - 1 ==> #[trigger] r@[j] + needle@.len() <= r@[j + 1],
        needle@.len() > 0 ==> forall|i: int| matches_at(haystack@, needle@, i)
            ==> exists|j: int| 0 <= j < r@.len() && #[trigger] r@[j] <= i < r@[j] + needle@.len(),
{
    let mut positions: Vec<usize> = Vec::new();
    if needle.len() == 0 || haystack.len() < needle.len() {
        assert(forall|i: int| needle@.len() > 0 ==> !matches_at(haystack@, needle@, i));
        return positions;
    }
    let hn: usize = haystack.len();
    let n: usize = needle.len();
    let max_search_idx: usize = hn - n;
    let mut i: usize = 0;
    while i <= max_search_idx
        invariant
            n == needle@.len(),
            hn == haystack@.len(),
            n > 0,
            n <= hn,
            max_search_idx == hn - n,
            forall|j: int| 0 <= j < positions@.len()
                ==> matches_at(haystack@, needle@, #[trigger] positions@[j] as int),
            forall|j: int| 0 <= j < positions@.len() - 1
                ==> #[trigger] positions@[j] + needle@.len() <= positions@[j + 1],
            forall|j: int| 0 <= j < positions@.len()
                ==> #[trigger] positions@[j] + needle@.len() <= i,
            forall|m: int| m < i && matches_at(haystack@, needle@, m)
                ==> exists|j: int| 0 <= j < positions@.len()
                    && #[trigger] positions@[j] <= m < positions@[j] + needle@.len(),
        decreases hn - i,
    {
        if is_match_at(haystack, needle, i) {
            let ghost old_pos = positions@;
            positions.push(i);
            let ghost prev = i as int;
            i = i + n;
            proof {
                let last = old_pos.len() as int;
                assert forall|m: int| m < i && matches_at(haystack@, needle@, m)
                    implies exists|j: int| 0 <= j < positions@.len()
                        && #[trigger] positions@[j] <= m < positions@[j] + needle@.len() by {
                    if m < prev {
                        let j = choose|j: int| 0 <= j < old_pos.len()
                            && #[trigger] old_pos[j] <= m < old_pos[j] + needle@.len();
                        assert(positions@[j] <= m < positions@[j] + needle@.len());
                    } else {
                        assert(positions@[last] <= m < positions@[last] + needle@.len());
                    }
                }
            }
        } else {
            i = i + 1;
        }
    }
    assert(forall|m: int| matches_at(haystack@, needle@, m) ==> m <= max_search_idx);
    positions
}

/// Length in bytes of a canonical textual UUID (8-4-4-4-12 hex groups).
pub const UUID_LEN: usize = 36;

/// ASCII code of a hexadecimal digit.
pub open spec fn is_hex_digit(b: u8) -> bool {
    (48 <= b && b <= 57) || (97 <= b && b <= 102) || (65 <= b && b <= 70)
}

/// The byte allowed at offset `k` of a textual UUID: a dash at the four
/// group separators, a hexadecimal digit everywhere else.
pub open spec fn uuid_byte_ok(b: u8, k: int) -> bool {
    if k == 8 || k == 13 || k == 18 || k == 23 {
        b == 45
    } else {
        is_hex_digit(b)
    }
}

/// `t` is exactly one textual UUID.
pub open spec fn is_uuid_seq(t: Seq<u8>) -> bool {
    t.len() == UUID_LEN && forall|k: int| 0 <= k < UUID_LEN ==> uuid_byte_ok(#[trigger] t[k], k)
}

/// A textual UUID in single-byte encoding starts at byte offset `p` of `w`.
pub open spec fn uuid_at(w: Seq<u8>, p: int) -> bool {
    &&& 0 <= p
    &&& p + UUID_LEN <= w.len()
    &&& forall|k: int| 0 <= k < UUID_LEN ==> uuid_byte_ok(#[trigger] w[p + k], k)
}

/// The 16-bit unit at unit offset `p + k` of `w` is the `k`-th byte of a
/// textual UUID, with a zero high byte (unit `u` occupies bytes `2u` and
/// `2u + 1`, low byte first).
pub open spec fn unit16_ok(w: Seq<u8>, p: int, k: int) -> bool {
    w[2 * (p + k) + 1] == 0 && uuid_byte_ok(w[2 * (p + k)], k)
}

/// A textual UUID in little-endian 16-bit-unit encoding starts at unit
/// offset `p` of `w`.
pub open spec fn uuid16_at(w: Seq<u8>, p: int) -> bool {
    &&& 0 <= p
    &&& 2 * (p + UUID_LEN) <= w.len()
    &&& forall|k: int| 0 <= k < UUID_LEN ==> #[trigger] unit16_ok(w, p, k)
}

/// The UUID bytes of a 16-bit-unit occurrence: the low byte of each unit.
pub open spec fn uuid_bytes_at16(w: Seq<u8>, p: int) -> Seq<u8> {
    Seq::new(UUID_LEN as nat, |k: int| w[2 * (p + k)])
}

/// Whether byte `b` may stand at offset `k` of a textual UUID.
fn uuid_byte_check(b: u8, k: usize) -> (r: bool)
    requires
        k < UUID_LEN,
    ensures
        r == uuid_byte_ok(b, k as int),
{
    if k == 8 || k == 13 || k == 18 || k == 23 {
        b == 45
    } else {
        (48 <= b && b <= 57) || (97 <= b && b <= 102) || (65 <= b && b <= 70)
    }
}

/// Whether a single-byte-encoded UUID starts at byte offset `p` of `w`.
fn uuid_check_ascii(w: &[u8], p: usize) -> (r: bool)
    requires
        p + UUID_LEN <= w@.len(),
    ensures
        r == uuid_at(w@, p as int),
{
    let wn: usize = w.len();
    let mut k: usize = 0;
    while k < UUID_LEN
        invariant
            wn == w@.len(),
            p + UUID_LEN <= wn,
            k <= UUID_LEN,
            forall|m: int| 0 <= m < k ==> uuid_byte_ok(#[trigger] w@[p + m], m),
        decreases UUID_LEN - k,
    {
        if !uuid_byte_check(w[p + k], k) {
            assert(!uuid_byte_ok(w@[p + k as int], k as int));
            return false;
        }
        k = k + 1;
    }
    true
}

/// Leftmost byte offset of a single-byte-encoded UUID in `w`, if any.
fn find_uuid_ascii(w: &[u8]) -> (r: Option<usize>)
    ensures
        match r {
            Some(p) => uuid_at(w@, p as int) && forall|q: int| 0 <= q < p ==> !uuid_at(w@, q),
            None => forall|q: int| !uuid_at(w@, q),
        },
{
    let wn: usize = w.len();
    if wn < UUID_LEN {
        return None;
    }
    let mut p: usize = 0;
    while p <= wn - UUID_LEN
        invariant
            wn == w@.len(),
            UUID_LEN <= wn,
            forall|q: int| 0 <= q < p ==> !uuid_at(w@, q),
        decreases wn - p,
    {
        if uuid_check_ascii(w, p) {
            return Some(p);
        }
        p = p + 1;
    }
    assert(forall|q: int| q > wn - UUID_LEN ==> !uuid_at(w@, q));
    None
}

/// Whether a 16-bit-unit-encoded UUID starts at unit offset `p` of `w`.
fn uuid_check_utf16(w: &[u8], p: usize) -> (r: bool)
    requires
        2 * (p + UUID_LEN) <= w@.len(),
    ensures
        r == uuid16_at(w@, p as int),
{
    let wn: usize = w.len();
    let mut k: usize = 0;
    while k < UUID_LEN
        invariant
            wn == w@.len(),
            2 * (p + UUID_LEN) <= wn,
            k <= UUID_LEN,
            forall|m: int| 0 <= m < k ==> #[trigger] unit16_ok(w@, p as int, m),
        decreases UUID_LEN - k,
    {
        let idx: usize = 2 * (p + k);
        if w[idx + 1] != 0 || !uuid_byte_check(w[idx], k) {
            assert(!unit16_ok(w@, p as int, k as int));
            return false;
        }
        assert(unit16_ok(w@, p as int, k as int));
        k = k + 1;
    }
    true
}

/// Leftmost unit offset of a 16-bit-unit-encoded UUID in `w`, if any.
fn find_uuid_utf16(w: &[u8]) -> (r: Option<usize>)
    ensures
        match r {
            Some(p) => uuid16_at(w@, p as int) && forall|q: int| 0 <= q < p ==> !uuid16_at(w@, q),
            None => forall|q: int| !uuid16_at(w@, q),
        },
{
    let wn: usize = w.len();
    let units: usize = wn / 2;
    if units < UUID_LEN {
        assert(forall|q: int| !uuid16_at(w@, q));
        return None;
    }
    let mut p: usize = 0;
    while p <= units - UUID_LEN
        invariant
            wn == w@.len(),
            units == wn / 2,
            UUID_LEN <= units,
            forall|q: int| 0 <= q < p ==> !uuid16_at(w@, q),
        decreases units - p,
    {
        if uuid_check_utf16(w, p) {
            return Some(p);
        }
        p = p + 1;
    }
    assert forall|q: int| q > units - UUID_LEN implies !uuid16_at(w@, q) by {
        if 0 <= q && 2 * (q + UUID_LEN) <= wn {
            assert(q + UUID_LEN <= units);
        }
    }
    None
}

/// Copy the 36 UUID bytes of a single-byte occurrence out of the window.
fn extract_uuid_ascii(w: &[u8], p: usize) -> (r: Vec<u8>)
    requires
        uuid_at(w@, p as int),
    ensures
        r@ == w@.subrange(p as int, p + UUID_LEN),
        is_uuid_seq(r@),
{
    let wn: usize = w.len();
    let mut out: Vec<u8> = Vec::new();
    let mut k: usize = 0;
    while k < UUID_LEN
        invariant
            wn == w@.len(),
            uuid_at(w@, p as int),
            k <= UUID_LEN,
            out@ == w@.subrange(p as int, p + k as int),
        decreases UUID_LEN - k,
    {
        out.push(w[p + k]);
        assert(out@ =~= w@.subrange(p as int, p + k + 1 as int));
        k = k + 1;
    }
    assert(is_uuid_seq(out@)) by {
        assert(forall|m: int| 0 <= m < UUID_LEN ==> out@[m] == w@[p + m]);
    }
    out
}

/// Copy the 36 UUID bytes (the low byte of each unit) of a 16-bit-unit
/// occurrence out of the window.
fn extract_uuid_utf16(w: &[u8], p: usize) -> (r: Vec<u8>)
    requires
        uuid16_at(w@, p as int),
    ensures
        r@ == uuid_bytes_at16(w@, p as int),
        is_uuid_seq(r@),
{
    let wn: usize = w.len();
    let mut out: Vec<u8> = Vec::new();
    let mut k: usize = 0;
    while k < UUID_LEN
        invariant
            wn == w@.len(),
            uuid16_at(w@, p as int),
            k <= UUID_LEN,
            out@.len() == k,
            forall|m: int| 0 <= m < k ==> out@[m] == w@[2 * (p + m)],
        decreases UUID_LEN - k,
    {
        out.push(w[2 * (p + k)]);
        k = k + 1;
    }
    assert(out@ =~= uuid_bytes_at16(w@, p as int));
    assert forall|m: int| 0 <= m < UUID_LEN implies uuid_byte_ok(#[trigger] out@[m], m) by {
        assert(unit16_ok(w@, p as int, m));
    }
    out
}

/// The window holds a UUID under at least one of the two decodings.
pub open spec fn window_has_uuid(w: Seq<u8>) -> bool {
    (exists|p: int| uuid_at(w, p)) || (exists|p: int| uuid16_at(w, p))
}

/// `t` is one of the UUIDs readable in the window `w`.
pub open spec fn token_in_window(w: Seq<u8>, t: Seq<u8>) -> bool {
    ||| exists|p: int| uuid_at(w, p) && t == w.subrange(p, p + UUID_LEN)
    ||| exists|p: int| uuid16_at(w, p) && t == uuid_bytes_at16(w, p)
}

/// First UUID found in the window, trying the single-byte decoding first and
/// the 16-bit-unit decoding second, as the scan does.
fn find_token_in_window(w: &[u8]) -> (r: Option<Vec<u8>>)
    ensures
        match r {
            Some(t) => token_in_window(w@, t@) && is_uuid_seq(t@),
            None => !window_has_uuid(w@),
        },
{
    match find_uuid_ascii(w) {
        Some(p) => Some(extract_uuid_ascii(w, p)),
        None => match find_uuid_utf16(w) {
            Some(p) => Some(extract_uuid_utf16(w, p)),
            None => None,
        },
    }
}

/// The fixed label searched for in process memory, in single-byte encoding
/// (the ASCII bytes of "x-codeium-csrf-token").
pub open spec fn search_key_utf8() -> Seq<u8> {
    seq![
        120u8, 45u8, 99u8, 111u8, 100u8, 101u8, 105u8, 117u8, 109u8, 45u8, 99u8, 115u8, 114u8,
        102u8, 45u8, 116u8, 111u8, 107u8, 101u8, 110u8,
    ]
}

/// The same label in little-endian 16-bit-unit encoding: every byte is
/// followed by a zero high byte.
pub open spec fn search_key_utf16le() -> Seq<u8> {
    Seq::new(40, |i: int| if i % 2 == 0 { search_key_utf8()[i / 2] } else { 0u8 })
}

/// The two encodings of the search label, single-byte first.
pub fn get_patterns() -> (r: (Vec<u8>, Vec<u8>))
    ensures
        r.0@ == search_key_utf8(),
        r.1@ == search_key_utf16le(),
{
    let mut p8: Vec<u8> = Vec::new();
    p8.push(120); // x
    p8.push(45); // -
    p8.push(99); // c
    p8.push(111); // o
    p8.push(100); // d
    p8.push(101); // e
    p8.push(105); // i
    p8.push(117); // u
    p8.push(109); // m
    p8.push(45); // -
    p8.push(99); // c
    p8.push(115); // s
    p8.push(114); // r
    p8.push(102); // f
    p8.push(45); // -
    p8.push(116); // t
    p8.push(111); // o
    p8.push(107); // k
    p8.push(101); // e
    p8.push(110); // n
    assert(p8@ =~= search_key_utf8());
    let mut p16: Vec<u8> = Vec::new();
    let mut i: usize = 0;
    while i < 20
        invariant
            p8@ == search_key_utf8(),
            i <= 20,
            p16@.len() == 2 * i,
            forall|m: int| 0 <= m < p16@.len()
                ==> #[trigger] p16@[m] == (if m % 2 == 0 {
                    search_key_utf8()[m / 2]
                } else {
                    0u8
                }),
        decreases 20 - i,
    {
        p16.push(p8[i]);
        p16.push(0);
        i = i + 1;
    }
    assert(p16@ =~= search_key_utf16le());
    (p8, p16)
}

/// The two encodings of the search label, single-byte first.
pub fn get_search_patterns() -> (r: (Vec<u8>, Vec<u8>))
    ensures
        r.0@ == search_key_utf8(),
        r.1@ == search_key_utf16le(),
{
    get_patterns()
}

/// Every byte of `pat` at distance `d` from an equal byte: `pat` shifted by
/// `d` agrees with itself wherever the two copies overlap.
pub open spec fn has_border(pat: Seq<u8>, d: int) -> bool {
    forall|k: int| 0 <= k < pat.len() - d ==> #[trigger] pat[k] == pat[k + d]
}

/// No proper prefix of `pat` is also a suffix, so two occurrences of `pat`
/// can never overlap.
pub open spec fn no_self_overlap(pat: Seq<u8>) -> bool {
    forall|d: int| 0 < d < pat.len() ==> !#[trigger] has_border(pat, d)
}

/// Two overlapping occurrences of a pattern without self-overlap coincide.
proof fn lemma_no_overlap_distinct(hay: Seq<u8>, pat: Seq<u8>, a: int, b: int)
    requires
        no_self_overlap(pat),
        matches_at(hay, pat, a),
        matches_at(hay, pat, b),
        a <= b < a + pat.len(),
    ensures
        a == b,
{
    if a < b {
        let d = b - a;
        assert(has_border(pat, d)) by {
            assert forall|k: int| 0 <= k < pat.len() - d implies #[trigger] pat[k] == pat[k
                + d] by {
                assert(hay.subrange(b, b + pat.len() as int)[k] == hay[b + k]);
                assert(hay.subrange(a, a + pat.len() as int)[k + d] == hay[a + (k + d)]);
            }
        }
        assert(!has_border(pat, d));
    }
}

/// Neither encoding of the search label can overlap itself: its first byte
/// occurs nowhere else in it. The non-overlapping occurrence scan therefore
/// misses no occurrence of either encoding.
pub proof fn lemma_search_key_no_self_overlap()
    ensures
        no_self_overlap(search_key_utf8()),
        no_self_overlap(search_key_utf16le()),
{
    let p8 = search_key_utf8();
    let p16 = search_key_utf16le();
    assert(p8[0] == 120);
    assert(forall|j: int| 1 <= j < 20 ==> p8[j] != 120);
    assert forall|d: int| 0 < d < p8.len() implies !has_border(p8, d) by {
        if has_border(p8, d) {
            assert(p8[0] == p8[0 + d]);
        }
    }
    assert(p16[0] == 120);
    assert forall|j: int| 1 <= j < 40 implies p16[j] != 120 by {
        if j % 2 == 0 {
            assert(p16[j] == p8[j / 2]);
        } else {
            assert(p16[j] == 0);
        }
    }
    assert forall|d: int| 0 < d < p16.len() implies !has_border(p16, d) by {
        if has_border(p16, d) {
            assert(p16[0] == p16[0 + d]);
        }
    }
}

/// End of the lookahead window that starts at `start`: `SCAN_AHEAD` bytes,
/// truncated at the end of the buffer.
pub open spec fn window_end(data: Seq<u8>, start: int) -> int {
    if start + SCAN_AHEAD <= data.len() {
        start + SCAN_AHEAD
    } else {
        data.len() as int
    }
}

/// The lookahead window following a label occurrence that ends at `start`.
pub open spec fn lookahead_window(data: Seq<u8>, start: int) -> Seq<u8> {
    data.subrange(start, window_end(data, start))
}

/// The label occurs at `pos` and a UUID is readable in the window after it.
pub open spec fn token_occurrence(data: Seq<u8>, pat: Seq<u8>, pos: int) -> bool {
    &&& matches_at(data, pat, pos)
    &&& window_has_uuid(lookahead_window(data, pos + pat.len()))
}

/// `t` is a UUID read out of the window following some occurrence of `pat`.
pub open spec fn found_token(data: Seq<u8>, pat: Seq<u8>, t: Seq<u8>) -> bool {
    exists|pos: int|
        #[trigger] matches_at(data, pat, pos) && token_in_window(
            lookahead_window(data, pos + pat.len()),
            t,
        )
}

/// The characters with the same code points as the given bytes.
pub open spec fn bytes_to_chars(t: Seq<u8>) -> Seq<char> {
    Seq::new(t.len(), |k: int| t[k] as char)
}

/// The bytes with the same code points as the given characters (meaningful
/// for ASCII text).
pub open spec fn chars_to_bytes(s: Seq<char>) -> Seq<u8> {
    Seq::new(s.len(), |k: int| s[k] as u8)
}

/// Relies on `String::from_utf8`: bytes below 128 are valid UTF-8 and decode
/// to the characters with exactly those code points.
#[verifier::external_body]
pub(crate) fn ascii_to_string(bytes: Vec<u8>) -> (r: String)
    requires
        forall|i: int| 0 <= i < bytes@.len() ==> bytes@[i] < 128,
    ensures
        r@ == bytes_to_chars(bytes@),
{
    String::from_utf8(bytes).unwrap_or_default()
}

/// Scan all non-overlapping occurrences of one pattern encoding and return
/// the first UUID read out of a lookahead window.
#[verifier::rlimit(50)]
fn search_pattern(data: &[u8], pat: &[u8]) -> (r: Option<Vec<u8>>)
    requires
        pat@.len() > 0,
    ensures
        match r {
            Some(t) => is_uuid_seq(t@) && found_token(data@, pat@, t@),
            None => no_self_overlap(pat@) ==> forall|pos: int|
                !token_occurrence(data@, pat@, pos),
        },
{
    let dn: usize = data.len();
    let positions = find_all_positions(data, pat);
    let mut idx: usize = 0;
    while idx < positions.len()
        invariant
            dn == data@.len(),
            pat@.len() > 0,
            forall|j: int| 0 <= j < positions@.len()
                ==> matches_at(data@, pat@, #[trigger] positions@[j] as int),
            forall|i: int| matches_at(data@, pat@, i)
                ==> exists|j: int| 0 <= j < positions@.len()
                    && #[trigger] positions@[j] <= i < positions@[j] + pat@.len(),
            idx <= positions@.len(),
            forall|j: int| 0 <= j < idx
                ==> !window_has_uuid(lookahead_window(data@, #[trigger] positions@[j] + pat@.len())),
        decreases positions@.len() - idx,
    {
        let pos = positions[idx];
        assert(matches_at(data@, pat@, pos as int));
        let start: usize = pos + pat.len();
        if start < dn {
            let end: usize = if dn - start > SCAN_AHEAD {
                start + SCAN_AHEAD
            } else {
                dn
            };
            assert(end == window_end(data@, start as int));
            let w = vstd::slice::slice_subrange(data, start, end);
            assert(w@ == lookahead_window(data@, start as int));
            match find_token_in_window(w) {
                Some(t) => {
                    assert(found_token(data@, pat@, t@)) by {
                        assert(matches_at(data@, pat@, pos as int) && token_in_window(
                            lookahead_window(data@, pos + pat@.len()),
                            t@,
                        ));
                    }
                    return Some(t);
                },
                None => {
                    assert(!window_has_uuid(lookahead_window(data@, pos + pat@.len())));
                },
            }
        } else {
            assert(start == dn);
            assert(lookahead_window(data@, start as int) =~= Seq::<u8>::empty());
            assert(!window_has_uuid(lookahead_window(data@, pos + pat@.len())));
        }
        idx = idx + 1;
    }
    proof {
        if no_self_overlap(pat@) {
            assert forall|pos: int| !token_occurrence(data@, pat@, pos) by {
                if token_occurrence(data@, pat@, pos) {
                    let j = choose|j: int| 0 <= j < positions@.len()
                        && #[trigger] positions@[j] <= pos < positions@[j] + pat@.len();
                    lemma_no_overlap_distinct(data@, pat@, positions@[j] as int, pos);
                }
            }
        }
    }
    None
}

/// Search the buffer for the label in both encodings and return the first
/// UUID readable in a lookahead window after an occurrence, as text.
///
/// The contract gives both directions: a returned token is a UUID read out
/// of the window of a real occurrence of one of the two patterns, and, for a
/// pattern that cannot overlap itself, an occurrence followed by a readable
/// UUID guarantees that some token is returned.
pub fn search_bytes_for_token(data: &[u8], patterns: &(Vec<u8>, Vec<u8>)) -> (r: Option<String>)
    requires
        patterns.0@.len() > 0,
        patterns.1@.len() > 0,
    ensures
        match r {
            Some(tok) => ({
                let t = chars_to_bytes(tok@);
                &&& is_uuid_seq(t)
                &&& tok@ == bytes_to_chars(t)
                &&& found_token(data@, patterns.0@, t) || found_token(data@, patterns.1@, t)
            }),
            None => (no_self_overlap(patterns.0@) ==> forall|pos: int|
                !token_occurrence(data@, patterns.0@, pos)) && (no_self_overlap(patterns.1@)
                ==> forall|pos: int| !token_occurrence(data@, patterns.1@, pos)),
        },
{
    match search_pattern(data, patterns.0.as_slice()) {
        Some(t) => {
            proof {
                assert forall|i: int| 0 <= i < t@.len() implies t@[i] < 128 by {
                    assert(uuid_byte_ok(t@[i], i));
                }
            }
            let ghost tb = t@;
            let s = ascii_to_string(t);
            proof {
                assert(s@ == bytes_to_chars(tb));
                assert(chars_to_bytes(s@) =~= tb);
            }
            Some(s)
        },
        None => match search_pattern(data, patterns.1.as_slice()) {
            Some(t) => {
                proof {
                    assert forall|i: int| 0 <= i < t@.len() implies t@[i] < 128 by {
                        assert(uuid_byte_ok(t@[i], i));
                    }
                }
                let ghost tb = t@;
                let s = ascii_to_string(t);
                proof {
                    assert(s@ == bytes_to_chars(tb));
                    assert(chars_to_bytes(s@) =~= tb);
                }
                Some(s)
            },
            None => None,
        },
    }
}

} // verus!
