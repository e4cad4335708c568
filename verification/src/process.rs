//! Choice of candidate processes to scan.
//!
//! A process qualifies when its name, trimmed, lowercased and with any
//! executable suffixes stripped, mentions the target application. Candidates
//! are scanned newest-first, taking a higher process id as the newer one.

use vstd::prelude::*;

use vstd::seq_lib::lemma_multiset_commutative;

verus! {

/// A Unicode whitespace character, as the standard library's trim sees it.
pub open spec fn is_space(c: char) -> bool {
    ||| c == '\u{9}' || c == '\u{a}' || c == '\u{b}' || c == '\u{c}' || c == '\u{d}'
    ||| c == ' ' || c == '\u{85}' || c == '\u{a0}' || c == '\u{1680}'
    ||| ('\u{2000}' <= c && c <= '\u{200a}')
    ||| c == '\u{2028}' || c == '\u{2029}' || c == '\u{202f}' || c == '\u{205f}'
    ||| c == '\u{3000}'
}

/// First offset at or after `i` holding no whitespace.
pub open spec fn trim_start_idx(s: Seq<char>, i: int) -> int
    decreases s.len() - i
        when 0 <= i <= s.len()
{
    if i < s.len() && is_space(s[i]) {
        trim_start_idx(s, i + 1)
    } else {
        i
    }
}

/// End of the text once trailing whitespace before offset `j` is dropped.
pub open spec fn trim_end_idx(s: Seq<char>, j: int) -> int
    decreases j
        when 0 <= j <= s.len()
{
    if j > 0 && is_space(s[j - 1]) {
        trim_end_idx(s, j - 1)
    } else {
        j
    }
}

/// The text with leading and trailing whitespace removed.
pub open spec fn spec_trim(s: Seq<char>) -> Seq<char> {
    let a = trim_start_idx(s, 0);
    let b = trim_end_idx(s, s.len() as int);
    if a <= b {
        s.subrange(a, b)
    } else {
        Seq::empty()
    }
}

/// An ASCII capital letter mapped to its lowercase form; anything else kept.
pub open spec fn lower_char(c: char) -> char {
    if 'A' <= c && c <= 'Z' {
        (((c as u8) + 32) as char)
    } else {
        c
    }
}

/// The text with ASCII capitals lowercased.
pub open spec fn spec_lower(s: Seq<char>) -> Seq<char> {
    s.map_values(|c: char| lower_char(c))
}

/// The platform executable suffix, after lowercasing.
pub open spec fn exe_suffix() -> Seq<char> {
    seq!['.', 'e', 'x', 'e']
}

/// The text with every trailing repetition of the executable suffix removed.
pub open spec fn strip_exe(s: Seq<char>) -> Seq<char>
    decreases s.len(),
{
    if s.len() >= 4 && s.subrange(s.len() - 4, s.len() as int) == exe_suffix() {
        strip_exe(s.take(s.len() - 4))
    } else {
        s
    }
}

/// `pat` occurs somewhere in `s`.
pub open spec fn contains_sub(s: Seq<char>, pat: Seq<char>) -> bool {
    exists|i: int| 0 <= i <= s.len() - pat.len() && #[trigger] s.subrange(i, i + pat.len()) == pat
}

/// One of the application names looked for in process names.
pub open spec fn target_name_main() -> Seq<char> {
    seq!['a', 'n', 't', 'i', 'g', 'r', 'a', 'v', 'i', 't', 'y']
}

/// The other application name looked for in process names.
pub open spec fn target_name_alt() -> Seq<char> {
    seq!['w', 'i', 'n', 'd', 's', 'u', 'r', 'f']
}

/// The process name, normalized (trimmed, lowercased, executable suffix
/// stripped), mentions one of the target applications.
pub open spec fn spec_is_target(name: Seq<char>) -> bool {
    let t = strip_exe(spec_lower(spec_trim(name)));
    contains_sub(t, target_name_main()) || contains_sub(t, target_name_alt())
}

/// The characters of `s`, as a vector.
fn chars_of(s: &str) -> (v: Vec<char>)
    ensures
        v@ == s@,
{
    let n: usize = s.unicode_len();
    let mut v: Vec<char> = Vec::new();
    let mut i: usize = 0;
    while i < n
        invariant
            n == s@.len(),
            i <= n,
            v@ =~= s@.subrange(0, i as int),
        decreases n - i,
    {
        v.push(s.get_char(i));
        assert(v@ =~= s@.subrange(0, i + 1 as int));
        i = i + 1;
    }
    assert(v@ =~= s@);
    v
}

/// Whether `c` is whitespace.
fn is_space_exec(c: char) -> (r: bool)
    ensures
        r == is_space(c),
{
    c == '\u{9}' || c == '\u{a}' || c == '\u{b}' || c == '\u{c}' || c == '\u{d}' || c == ' '
        || c == '\u{85}' || c == '\u{a0}' || c == '\u{1680}' || ('\u{2000}' <= c && c
        <= '\u{200a}') || c == '\u{2028}' || c == '\u{2029}' || c == '\u{202f}' || c == '\u{205f}'
        || c == '\u{3000}'
}

/// Compare `pat` against the first `end` characters of `t` at offset `i`.
fn chars_match_at(t: &Vec<char>, pat: &Vec<char>, i: usize, end: usize) -> (r: bool)
    requires
        i + pat@.len() <= end <= t@.len(),
    ensures
        r == (t@.take(end as int).subrange(i as int, i + pat@.len()) == pat@),
{
    let ghost tt = t@.take(end as int);
    let m: usize = pat.len();
    let mut k: usize = 0;
    while k < m
        invariant
            tt == t@.take(end as int),
            m == pat@.len(),
            i + m <= end <= t@.len(),
            k <= m,
            forall|q: int| 0 <= q < k ==> tt[i + q] == pat@[q],
        decreases m - k,
    {
        if t[i + k] != pat[k] {
            assert(tt.subrange(i as int, i + m)[k as int] == tt[i + k]);
            return false;
        }
        k = k + 1;
    }
    assert forall|q: int| 0 <= q < m implies tt.subrange(i as int, i + m)[q] == pat@[q] by {
        assert(tt[i + q] == pat@[q]);
    }
    assert(tt.subrange(i as int, i + m) =~= pat@);
    true
}

/// `pat` occurs in the first `end` characters of `t`.
fn contains_chars(t: &Vec<char>, end: usize, pat: &Vec<char>) -> (r: bool)
    requires
        end <= t@.len(),
        pat@.len() > 0,
    ensures
        r == contains_sub(t@.take(end as int), pat@),
{
    let ghost tt = t@.take(end as int);
    let m: usize = pat.len();
    if m > end {
        assert(!contains_sub(tt, pat@));
        return false;
    }
    let mut i: usize = 0;
    while i <= end - m
        invariant
            tt == t@.take(end as int),
            m == pat@.len(),
            0 < m <= end <= t@.len(),
            i <= end - m + 1,
            forall|q: int| 0 <= q < i ==> #[trigger] tt.subrange(q, q + m) != pat@,
        decreases end - m + 1 - i,
    {
        if chars_match_at(t, pat, i, end) {
            return true;
        }
        i = i + 1;
    }
    assert forall|q: int| 0 <= q <= tt.len() - m implies #[trigger] tt.subrange(q, q + m)
        != pat@ by {
        assert(q < i);
    }
    false
}

/// Whether the process name belongs to the target application:
/// case-insensitive, ignoring surrounding whitespace and any trailing
/// executable suffix.
#[verifier::rlimit(100)]
pub fn is_target_process(name: &str) -> (r: bool)
    ensures
        r == spec_is_target(name@),
{
    let chars = chars_of(name);
    let n: usize = chars.len();
    // Leading whitespace.
    let mut a: usize = 0;
    while a < n && is_space_exec(chars[a])
        invariant
            n == chars@.len(),
            a <= n,
            trim_start_idx(chars@, 0) == trim_start_idx(chars@, a as int),
        decreases n - a,
    {
        a = a + 1;
    }
    // Trailing whitespace.
    let mut b: usize = n;
    while b > 0 && is_space_exec(chars[b - 1])
        invariant
            n == chars@.len(),
            b <= n,
            trim_end_idx(chars@, n as int) == trim_end_idx(chars@, b as int),
        decreases b,
    {
        b = b - 1;
    }
    let ghost trimmed = spec_trim(chars@);
    // Lowercase the trimmed middle.
    let mut t: Vec<char> = Vec::new();
    if a < b {
        assert(trimmed == chars@.subrange(a as int, b as int));
        let mut i: usize = a;
        while i < b
            invariant
                n == chars@.len(),
                a <= i <= b <= n,
                trimmed == chars@.subrange(a as int, b as int),
                t@.len() == i - a,
                forall|q: int| 0 <= q < t@.len() ==> #[trigger] t@[q] == lower_char(trimmed[q]),
            decreases b - i,
        {
            let c = chars[i];
            let lc: char = if 'A' <= c && c <= 'Z' {
                ((c as u8) + 32) as char
            } else {
                c
            };
            assert(lc == lower_char(trimmed[i - a]));
            t.push(lc);
            i = i + 1;
        }
    } else {
        assert(trimmed =~= Seq::<char>::empty());
    }
    assert(t@ =~= spec_lower(trimmed));
    // Strip trailing executable suffixes.
    let mut end: usize = t.len();
    assert(t@.take(end as int) =~= t@);
    while end >= 4 && t[end - 1] == 'e' && t[end - 2] == 'x' && t[end - 3] == 'e' && t[end - 4]
        == '.'
        invariant
            end <= t@.len(),
            strip_exe(spec_lower(trimmed)) == strip_exe(t@.take(end as int)),
        decreases end,
    {
        proof {
            let cur = t@.take(end as int);
            assert(cur.subrange(end - 4, end as int) =~= exe_suffix());
            assert(cur.take(end - 4) =~= t@.take(end - 4));
        }
        end = end - 4;
    }
    let ghost stripped = strip_exe(spec_lower(trimmed));
    proof {
        let cur = t@.take(end as int);
        if cur.len() >= 4 && cur.subrange(end - 4, end as int) == exe_suffix() {
            assert(cur[end - 1] == 'e' && cur[end - 2] == 'x' && cur[end - 3] == 'e' && cur[end
                - 4] == '.') by {
                assert(cur.subrange(end - 4, end as int)[3] == cur[end - 1]);
                assert(cur.subrange(end - 4, end as int)[2] == cur[end - 2]);
                assert(cur.subrange(end - 4, end as int)[1] == cur[end - 3]);
                assert(cur.subrange(end - 4, end as int)[0] == cur[end - 4]);
            }
        }
        assert(stripped == cur);
    }
    // Look for either application name.
    let mut main_pat: Vec<char> = Vec::new();
    main_pat.push('a');
    main_pat.push('n');
    main_pat.push('t');
    main_pat.push('i');
    main_pat.push('g');
    main_pat.push('r');
    main_pat.push('a');
    main_pat.push('v');
    main_pat.push('i');
    main_pat.push('t');
    main_pat.push('y');
    assert(main_pat@ =~= target_name_main());
    let mut alt_pat: Vec<char> = Vec::new();
    alt_pat.push('w');
    alt_pat.push('i');
    alt_pat.push('n');
    alt_pat.push('d');
    alt_pat.push('s');
    alt_pat.push('u');
    alt_pat.push('r');
    alt_pat.push('f');
    assert(alt_pat@ =~= target_name_alt());
    contains_chars(&t, end, &main_pat) || contains_chars(&t, end, &alt_pat)
}

/// The process ids of the entries whose name belongs to the target
/// application, in the order given.
pub open spec fn matching_pids(procs: Seq<(u32, String)>) -> Seq<u32>
    decreases procs.len(),
{
    if procs.len() == 0 {
        Seq::empty()
    } else {
        matching_pids(procs.drop_last()) + (if spec_is_target(procs.last().1@) {
            seq![procs.last().0]
        } else {
            Seq::empty()
        })
    }
}

/// Process ids in descending order.
pub open spec fn sorted_desc(s: Seq<u32>) -> bool {
    forall|k: int, l: int| 0 <= k < l < s.len() ==> #[trigger] s[k] >= #[trigger] s[l]
}

/// The target application's process ids among the enumerated processes, each
/// given as (process id, name), ordered by process id descending so that a
/// more recently started process is tried first.
pub fn collect_target_pids(procs: &Vec<(u32, String)>) -> (r: Vec<u32>)
    ensures
        r@.to_multiset() == matching_pids(procs@).to_multiset(),
        sorted_desc(r@),
{
    broadcast use vstd::seq_lib::group_to_multiset_ensures;
    broadcast use vstd::multiset::group_multiset_axioms;

    let n: usize = procs.len();
    let mut found: Vec<u32> = Vec::new();
    let mut i: usize = 0;
    while i < n
        invariant
            n == procs@.len(),
            i <= n,
            found@ == matching_pids(procs@.subrange(0, i as int)),
        decreases n - i,
    {
        let ghost pref = procs@.subrange(0, i as int);
        proof {
            assert(procs@.subrange(0, i + 1 as int).drop_last() =~= pref);
            assert(procs@.subrange(0, i + 1 as int).last() == procs@[i as int]);
        }
        if is_target_process(procs[i].1.as_str()) {
            found.push(procs[i].0);
            assert(found@ =~= matching_pids(procs@.subrange(0, i + 1 as int)));
        } else {
            assert(found@ =~= matching_pids(procs@.subrange(0, i + 1 as int)));
        }
        i = i + 1;
    }
    proof {
        assert(procs@.subrange(0, n as int) =~= procs@);
    }
    // Insertion sort, descending.
    let fn_len: usize = found.len();
    let mut out: Vec<u32> = Vec::new();
    let mut j: usize = 0;
    while j < fn_len
        invariant
            fn_len == found@.len(),
            j <= fn_len,
            out@.to_multiset() == found@.subrange(0, j as int).to_multiset(),
            out@.len() == j,
            sorted_desc(out@),
        decreases fn_len - j,
    {
        let x: u32 = found[j];
        let mut pos: usize = 0;
        while pos < out.len() && out[pos] >= x
            invariant
                pos <= out@.len(),
                forall|k: int| 0 <= k < pos ==> #[trigger] out@[k] >= x,
            decreases out@.len() - pos,
        {
            pos = pos + 1;
        }
        let ghost old_out = out@;
        out.insert(pos, x);
        proof {
            broadcast use vstd::seq_lib::group_to_multiset_ensures;
            broadcast use vstd::multiset::group_multiset_axioms;

            assert(out@ == old_out.insert(pos as int, x));
            let left = old_out.subrange(0, pos as int);
            let right = old_out.subrange(pos as int, old_out.len() as int);
            assert(old_out.insert(pos as int, x) =~= left.push(x) + right);
            lemma_multiset_commutative(left.push(x), right);
            lemma_multiset_commutative(left, right);
            assert(left + right =~= old_out);
            assert(out@.to_multiset() =~= (left.push(x) + right).to_multiset());
            assert(left.push(x).to_multiset() =~= left.to_multiset().insert(x));
            assert(old_out.to_multiset() =~= left.to_multiset().add(right.to_multiset()));
            assert(out@.to_multiset() =~= old_out.to_multiset().insert(x));
            let p = found@.subrange(0, j + 1 as int);
            assert(p =~= found@.subrange(0, j as int).push(x));
            assert(p.to_multiset() =~= found@.subrange(0, j as int).push(x).to_multiset());
            assert(found@.subrange(0, j as int).push(x).to_multiset() =~= found@.subrange(
                0,
                j as int,
            ).to_multiset().insert(x));
            assert(sorted_desc(out@)) by {
                assert forall|k: int, l: int| 0 <= k < l < out@.len() implies out@[k] >= out@[l] by {
                    if l < pos {
                        assert(out@[k] == old_out[k] && out@[l] == old_out[l]);
                    } else if k > pos {
                        assert(out@[k] == old_out[k - 1] && out@[l] == old_out[l - 1]);
                    } else if k == pos {
                        assert(out@[k] == x && out@[l] == old_out[l - 1]);
                        if pos < old_out.len() {
                            assert(!(old_out[pos as int] >= x));
                            assert(old_out[pos as int] >= old_out[l - 1] || pos as int == l - 1);
                        }
                    } else if l == pos {
                        assert(out@[k] == old_out[k] && out@[l] == x);
                        assert(old_out[k] >= x);
                    } else {
                        assert(k < pos && pos < l);
                        assert(out@[k] == old_out[k] && out@[l] == old_out[l - 1]);
                        assert(old_out[k] >= old_out[l - 1]);
                    }
                }
            }
        }
        j = j + 1;
    }
    proof {
        assert(found@.subrange(0, fn_len as int) =~= found@);
    }
    out
}

} // verus!
