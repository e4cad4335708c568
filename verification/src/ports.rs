//! Port extraction from the application's log text.
//!
//! The log announces each port with a fixed label followed by a decimal
//! number. Each of the three roles is extracted independently; the last
//! announcement of a role in the file wins, and a role never announced (or
//! announced with a number too large for a port) is absent.

use vstd::prelude::*;

use crate::pattern::{is_match_at, matches_at};
use vstd::string::StringSliceAdditionalSpecFns;
use crate::types::PortInfo;

verus! {

/// A decimal digit byte.
pub open spec fn is_digit(b: u8) -> bool {
    48 <= b && b <= 57
}

/// End of the run of decimal digits starting at `q`: the first offset at or
/// after `q` holding no digit.
pub open spec fn digits_end(text: Seq<u8>, q: int) -> int
    decreases text.len() - q
        when 0 <= q <= text.len()
{
    if q < text.len() && is_digit(text[q]) {
        digits_end(text, q + 1)
    } else {
        q
    }
}

/// A port announcement for one role starts at `p`: the announcement label,
/// then at least one decimal digit, then the role's closing text right after
/// the digit run.
pub open spec fn label_match_at(text: Seq<u8>, pre: Seq<u8>, suf: Seq<u8>, p: int) -> bool {
    let q = p + pre.len();
    let e = digits_end(text, q);
    &&& matches_at(text, pre, p)
    &&& q < e
    &&& matches_at(text, suf, e)
}

/// Start of the last announcement before offset `n`, if any.
pub open spec fn last_label_match(text: Seq<u8>, pre: Seq<u8>, suf: Seq<u8>, n: int) -> Option<
    int,
>
    decreases n when n >= 0
{
    if n <= 0 {
        None
    } else if label_match_at(text, pre, suf, n - 1) {
        Some(n - 1)
    } else {
        last_label_match(text, pre, suf, n - 1)
    }
}

/// Numeric value of a run of decimal digit bytes.
pub open spec fn digits_val(ds: Seq<u8>) -> int
    decreases ds.len(),
{
    if ds.len() == 0 {
        0
    } else {
        digits_val(ds.drop_last()) * 10 + (ds.last() - 48)
    }
}

/// The digit run as a port number: absent when its value does not fit.
pub open spec fn port_of(ds: Seq<u8>) -> Option<u16> {
    if 0 <= digits_val(ds) <= 65535 {
        Some(digits_val(ds) as u16)
    } else {
        None
    }
}

/// The port carried by the last announcement of one role in the text.
pub open spec fn spec_last_port(text: Seq<u8>, pre: Seq<u8>, suf: Seq<u8>) -> Option<u16> {
    match last_label_match(text, pre, suf, text.len() as int) {
        Some(p) => port_of(text.subrange(p + pre.len(), digits_end(text, p + pre.len()))),
        None => None,
    }
}

/// The text announcing a freshly chosen port: the bytes of
/// `"random port at "`.
pub open spec fn port_announce_label() -> Seq<u8> {
    seq![114u8, 97u8, 110u8, 100u8, 111u8, 109u8, 32u8, 112u8, 111u8, 114u8, 116u8, 32u8, 97u8, 116u8, 32u8]
}

/// The bytes of `"random port at "`, as a vector.
fn port_announce_label_vec() -> (r: Vec<u8>)
    ensures
        r@ == port_announce_label(),
{
    let mut v: Vec<u8> = Vec::new();
    v.push(114); // r
    v.push(97); // a
    v.push(110); // n
    v.push(100); // d
    v.push(111); // o
    v.push(109); // m
    v.push(32); // space
    v.push(112); // p
    v.push(111); // o
    v.push(114); // r
    v.push(116); // t
    v.push(32); // space
    v.push(97); // a
    v.push(116); // t
    v.push(32); // space
    assert(v@ =~= port_announce_label());
    v
}

/// The role text closing an HTTPS port announcement: the bytes of
/// `" for HTTPS"`.
pub open spec fn https_role_label() -> Seq<u8> {
    seq![32u8, 102u8, 111u8, 114u8, 32u8, 72u8, 84u8, 84u8, 80u8, 83u8]
}

/// The bytes of `" for HTTPS"`, as a vector.
fn https_role_label_vec() -> (r: Vec<u8>)
    ensures
        r@ == https_role_label(),
{
    let mut v: Vec<u8> = Vec::new();
    v.push(32); // space
    v.push(102); // f
    v.push(111); // o
    v.push(114); // r
    v.push(32); // space
    v.push(72); // H
    v.push(84); // T
    v.push(84); // T
    v.push(80); // P
    v.push(83); // S
    assert(v@ =~= https_role_label());
    v
}

/// The role text closing an HTTP port announcement: the bytes of
/// `" for HTTP"`. This is a prefix of the HTTPS role text, so an HTTPS line
/// also matches it; the last announcement in the log settles each role.
pub open spec fn http_role_label() -> Seq<u8> {
    seq![32u8, 102u8, 111u8, 114u8, 32u8, 72u8, 84u8, 84u8, 80u8]
}

/// The bytes of `" for HTTP"`, as a vector.
fn http_role_label_vec() -> (r: Vec<u8>)
    ensures
        r@ == http_role_label(),
{
    let mut v: Vec<u8> = Vec::new();
    v.push(32); // space
    v.push(102); // f
    v.push(111); // o
    v.push(114); // r
    v.push(32); // space
    v.push(72); // H
    v.push(84); // T
    v.push(84); // T
    v.push(80); // P
    assert(v@ =~= http_role_label());
    v
}

/// The text announcing the extension server port: the bytes of
/// `"extension server client at port "`.
pub open spec fn extension_label() -> Seq<u8> {
    seq![101u8, 120u8, 116u8, 101u8, 110u8, 115u8, 105u8, 111u8, 110u8, 32u8, 115u8, 101u8, 114u8, 118u8, 101u8, 114u8, 32u8, 99u8, 108u8, 105u8, 101u8, 110u8, 116u8, 32u8, 97u8, 116u8, 32u8, 112u8, 111u8, 114u8, 116u8, 32u8]
}

/// The bytes of `"extension server client at port "`, as a vector.
fn extension_label_vec() -> (r: Vec<u8>)
    ensures
        r@ == extension_label(),
{
    let mut v: Vec<u8> = Vec::new();
    v.push(101); // e
    v.push(120); // x
    v.push(116); // t
    v.push(101); // e
    v.push(110); // n
    v.push(115); // s
    v.push(105); // i
    v.push(111); // o
    v.push(110); // n
    v.push(32); // space
    v.push(115); // s
    v.push(101); // e
    v.push(114); // r
    v.push(118); // v
    v.push(101); // e
    v.push(114); // r
    v.push(32); // space
    v.push(99); // c
    v.push(108); // l
    v.push(105); // i
    v.push(101); // e
    v.push(110); // n
    v.push(116); // t
    v.push(32); // space
    v.push(97); // a
    v.push(116); // t
    v.push(32); // space
    v.push(112); // p
    v.push(111); // o
    v.push(114); // r
    v.push(116); // t
    v.push(32); // space
    assert(v@ =~= extension_label());
    v
}

/// End of the digit run starting at `q`, and the run itself.
fn digits_end_exec(text: &[u8], q: usize) -> (e: usize)
    requires
        q <= text@.len(),
    ensures
        e == digits_end(text@, q as int),
        q <= e <= text@.len(),
        forall|m: int| q <= m < e ==> is_digit(#[trigger] text@[m]),
{
    let n: usize = text.len();
    let mut e: usize = q;
    while e < n && 48 <= text[e] && text[e] <= 57
        invariant
            q <= e <= n,
            n == text@.len(),
            digits_end(text@, q as int) == digits_end(text@, e as int),
            forall|m: int| q <= m < e ==> is_digit(#[trigger] text@[m]),
        decreases n - e,
    {
        e = e + 1;
    }
    e
}

/// Parse the digit run `text[q..e]` as a port number; a value over 65535
/// yields nothing.
fn parse_port_digits(text: &[u8], q: usize, e: usize) -> (r: Option<u16>)
    requires
        q <= e <= text@.len(),
        forall|m: int| q <= m < e ==> is_digit(#[trigger] text@[m]),
    ensures
        r == port_of(text@.subrange(q as int, e as int)),
{
    let mut i: usize = q;
    let mut val: u32 = 0;
    let mut over: bool = false;
    while i < e
        invariant
            q <= i <= e <= text@.len(),
            forall|m: int| q <= m < e ==> is_digit(#[trigger] text@[m]),
            !over ==> val == digits_val(text@.subrange(q as int, i as int)) && val <= 65535,
            over ==> digits_val(text@.subrange(q as int, i as int)) > 65535,
        decreases e - i,
    {
        let ghost pref = text@.subrange(q as int, i as int);
        let d: u8 = text[i] - 48;
        proof {
            assert(text@.subrange(q as int, i + 1 as int).drop_last() =~= pref);
            assert(text@.subrange(q as int, i + 1 as int).last() == text@[i as int]);
        }
        if over {
            assert(digits_val(text@.subrange(q as int, i + 1 as int)) > 65535);
        } else {
            let nv: u32 = val * 10 + (d as u32);
            if nv > 65535 {
                over = true;
            } else {
                val = nv;
            }
        }
        i = i + 1;
    }
    proof {
        assert(text@.subrange(q as int, e as int) == text@.subrange(q as int, i as int));
    }
    if over {
        None
    } else {
        Some(val as u16)
    }
}

/// Whether an announcement for the given role starts at `p`.
fn label_check(text: &[u8], pre: &[u8], suf: &[u8], p: usize) -> (r: bool)
    requires
        p <= text@.len(),
    ensures
        r == label_match_at(text@, pre@, suf@, p as int),
{
    let n: usize = text.len();
    if pre.len() > n - p {
        return false;
    }
    if !is_match_at(text, pre, p) {
        return false;
    }
    let q: usize = p + pre.len();
    let e: usize = digits_end_exec(text, q);
    if e == q {
        return false;
    }
    if suf.len() > n - e {
        return false;
    }
    is_match_at(text, suf, e)
}

/// Port carried by the last announcement of one role in the text, scanning
/// from the end.
fn last_labeled_port(text: &[u8], pre: &[u8], suf: &[u8]) -> (r: Option<u16>)
    ensures
        r == spec_last_port(text@, pre@, suf@),
{
    let n: usize = text.len();
    let mut p: usize = n;
    while p > 0
        invariant
            p <= n,
            n == text@.len(),
            last_label_match(text@, pre@, suf@, n as int) == last_label_match(
                text@,
                pre@,
                suf@,
                p as int,
            ),
        decreases p,
    {
        p = p - 1;
        if label_check(text, pre, suf, p) {
            let q: usize = p + pre.len();
            let e: usize = digits_end_exec(text, q);
            return parse_port_digits(text, q, e);
        }
    }
    None
}

/// Extract the HTTPS, HTTP and extension-server ports from log text: for
/// each role, the number of its last announcement in the text.
pub fn parse_ports_from_log(content: &str) -> (r: (Option<u16>, Option<u16>, Option<u16>))
    ensures
        r.0 == spec_last_port(content.spec_bytes(), port_announce_label(), https_role_label()),
        r.1 == spec_last_port(content.spec_bytes(), port_announce_label(), http_role_label()),
        r.2 == spec_last_port(content.spec_bytes(), extension_label(), Seq::<u8>::empty()),
{
    let bytes: &[u8] = content.as_bytes();
    let announce = port_announce_label_vec();
    let https = https_role_label_vec();
    let http = http_role_label_vec();
    let ext = extension_label_vec();
    let empty: Vec<u8> = Vec::new();
    let https_port = last_labeled_port(bytes, announce.as_slice(), https.as_slice());
    let http_port = last_labeled_port(bytes, announce.as_slice(), http.as_slice());
    let extension_port = last_labeled_port(bytes, ext.as_slice(), empty.as_slice());
    (https_port, http_port, extension_port)
}

/// The ports parsed out of the given log text, bundled with the path of the
/// log file the text came from.
pub fn port_info_from_log(content: &str, log_path: String) -> (r: PortInfo)
    ensures
        r.https_port == spec_last_port(
            content.spec_bytes(),
            port_announce_label(),
            https_role_label(),
        ),
        r.http_port == spec_last_port(
            content.spec_bytes(),
            port_announce_label(),
            http_role_label(),
        ),
        r.extension_port == spec_last_port(
            content.spec_bytes(),
            extension_label(),
            Seq::<u8>::empty(),
        ),
        r.log_path matches Some(p) && p@ == log_path@,
{
    let (https_port, http_port, extension_port) = parse_ports_from_log(content);
    PortInfo { https_port, http_port, extension_port, log_path: Some(log_path) }
}

/// Index of the log file to read among discovered candidates, each given
/// with its modification time: the first candidate carrying the newest time.
pub fn select_newest_log(candidates: &Vec<(String, u64)>) -> (r: Option<usize>)
    ensures
        match r {
            Some(i) => {
                &&& i < candidates@.len()
                &&& forall|j: int| 0 <= j < candidates@.len()
                    ==> (#[trigger] candidates@[j]).1 <= candidates@[i as int].1
                &&& forall|j: int| 0 <= j < i ==> (#[trigger] candidates@[j]).1
                    < candidates@[i as int].1
            },
            None => candidates@.len() == 0,
        },
{
    let n: usize = candidates.len();
    if n == 0 {
        return None;
    }
    let mut best: usize = 0;
    let mut i: usize = 1;
    while i < n
        invariant
            n == candidates@.len(),
            best < i <= n,
            forall|j: int| 0 <= j < i ==> (#[trigger] candidates@[j]).1
                <= candidates@[best as int].1,
            forall|j: int| 0 <= j < best ==> (#[trigger] candidates@[j]).1
                < candidates@[best as int].1,
        decreases n - i,
    {
        if candidates[i].1 > candidates[best].1 {
            best = i;
        }
        i = i + 1;
    }
    Some(best)
}

/// Last occurrence wins: when an announcement for a role stands at `p` and
/// none stands after it, the port extracted for that role is that
/// announcement's number, whatever was announced earlier in the text.
pub proof fn lemma_last_occurrence_wins(text: Seq<u8>, pre: Seq<u8>, suf: Seq<u8>, p: int)
    requires
        0 <= p < text.len(),
        label_match_at(text, pre, suf, p),
        forall|q: int| p < q < text.len() ==> !label_match_at(text, pre, suf, q),
    ensures
        last_label_match(text, pre, suf, text.len() as int) == Some(p),
        spec_last_port(text, pre, suf) == port_of(
            text.subrange(p + pre.len(), digits_end(text, p + pre.len())),
        ),
{
    lemma_no_match_above(text, pre, suf, p, text.len() as int);
}

/// The latest announcement before `n` is the one at `p` when none stands in
/// between.
proof fn lemma_no_match_above(text: Seq<u8>, pre: Seq<u8>, suf: Seq<u8>, p: int, n: int)
    requires
        0 <= p < n <= text.len(),
        label_match_at(text, pre, suf, p),
        forall|q: int| p < q < n ==> !label_match_at(text, pre, suf, q),
    ensures
        last_label_match(text, pre, suf, n) == Some(p),
    decreases n,
{
    if n == p + 1 {
    } else {
        lemma_no_match_above(text, pre, suf, p, n - 1);
    }
}

} // verus!
