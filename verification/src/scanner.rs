//! Chunked scan of process memory regions.
//!
//! A region is read in fixed-size chunks with enough overlap between
//! consecutive chunks that a label-plus-token span can never straddle a chunk
//! boundary unseen. The number of bytes taken from one region is capped, a
//! failed chunk read skips forward instead of aborting the region, and the
//! cursor always advances by at least one byte.

use vstd::prelude::*;

use crate::types::ScanError;

use crate::pattern::{
    bytes_to_chars, chars_to_bytes, found_token, is_uuid_seq, lookahead_window, matches_at,
    no_self_overlap, search_bytes_for_token, token_in_window, token_occurrence, unit16_ok,
    uuid16_at, uuid_at, uuid_bytes_at16, window_end, window_has_uuid, SCAN_AHEAD, UUID_LEN,
};

verus! {

/// Bytes read from a region per chunk.
pub const CHUNK_SIZE: usize = 512 * 1024;

/// Cap on the bytes scanned from a single region, bounding the worst-case
/// cost of a pathologically large region.
pub const MAX_REGION_BYTES: usize = 64 * 1024 * 1024;

/// The overlap kept between consecutive chunks for the given pair of pattern
/// encodings: the longer pattern plus the lookahead window.
pub open spec fn spec_overlap(p8: Seq<u8>, p16: Seq<u8>) -> int {
    if p8.len() >= p16.len() {
        p8.len() + SCAN_AHEAD
    } else {
        p16.len() + SCAN_AHEAD
    }
}

/// Overlap between consecutive chunks, from the pattern lengths.
fn overlap_for(patterns: &(Vec<u8>, Vec<u8>)) -> (r: usize)
    requires
        patterns.0@.len() + SCAN_AHEAD <= usize::MAX,
        patterns.1@.len() + SCAN_AHEAD <= usize::MAX,
    ensures
        r == spec_overlap(patterns.0@, patterns.1@),
{
    let a = patterns.0.len();
    let b = patterns.1.len();
    if a >= b {
        a + SCAN_AHEAD
    } else {
        b + SCAN_AHEAD
    }
}

/// An opaque handle onto another process's address space.
#[verifier::external_type_specification]
#[verifier::external_body]
pub struct ExProcessHandle(read_process_memory::ProcessHandle);

/// Relies on `TryFrom<Pid> for read_process_memory::ProcessHandle`: opens a
/// handle for reading the process's memory. On several platforms this needs
/// privilege and may fail; nothing is promised of the outcome.
#[verifier::external_body]
fn open_process_handle(pid: u32) -> (r: Option<read_process_memory::ProcessHandle>) {
    <read_process_memory::ProcessHandle as std::convert::TryFrom<read_process_memory::Pid>>::try_from(
        pid as read_process_memory::Pid,
    ).ok()
}

/// Relies on `CopyAddress::copy_address` of `read_process_memory`: copies
/// `len` bytes from address `addr` of the target process into a fresh buffer,
/// or fails. Nothing is promised of the bytes themselves: the target process
/// mutates its memory concurrently.
#[verifier::external_body]
fn read_process_chunk(
    handle: &read_process_memory::ProcessHandle,
    addr: usize,
    len: usize,
) -> (r: Option<Vec<u8>>)
    ensures
        r matches Some(b) ==> b@.len() == len,
{
    let mut buf: Vec<u8> = vec![0u8; len];
    match read_process_memory::CopyAddress::copy_address(handle, addr, &mut buf) {
        Ok(()) => Some(buf),
        Err(_) => None,
    }
}

/// `tok` is the text of a syntactic UUID: 36 ASCII characters, hex digits
/// with dashes at the four group separators.
pub open spec fn is_uuid_text(tok: Seq<char>) -> bool {
    is_uuid_seq(chars_to_bytes(tok)) && tok == bytes_to_chars(chars_to_bytes(tok))
}

/// Scan one readable memory region of a process, in overlapping chunks, up
/// to the per-region cap, and return the first token found.
///
/// A failed chunk read is not fatal: the cursor skips forward by the same
/// step and the scan continues. The bytes read are whatever the target
/// process holds at that moment, so the contract promises only that a
/// returned token has the UUID shape; the scan over a buffer with known
/// content is `scan_buffer_chunked`, which carries the full contract.
pub fn scan_region_for_token(
    handle: &read_process_memory::ProcessHandle,
    base: usize,
    size: usize,
    patterns: &(Vec<u8>, Vec<u8>),
) -> (r: Option<String>)
    requires
        0 < patterns.0@.len(),
        0 < patterns.1@.len(),
        patterns.0@.len() + SCAN_AHEAD <= usize::MAX,
        patterns.1@.len() + SCAN_AHEAD <= usize::MAX,
    ensures
        r matches Some(tok) ==> is_uuid_text(tok@),
{
    let capped: usize = if size < MAX_REGION_BYTES {
        size
    } else {
        MAX_REGION_BYTES
    };
    let overlap = overlap_for(patterns);
    let mut offset: usize = 0;
    while offset < capped
        invariant
            capped <= MAX_REGION_BYTES,
            0 < patterns.0@.len(),
            0 < patterns.1@.len(),
        decreases capped - offset,
    {
        let read_size: usize = if CHUNK_SIZE < capped - offset {
            CHUNK_SIZE
        } else {
            capped - offset
        };
        let step: usize = if read_size > overlap {
            read_size - overlap
        } else {
            1
        };
        match base.checked_add(offset) {
            Some(addr) => {
                match read_process_chunk(handle, addr, read_size) {
                    Some(chunk) => {
                        match search_bytes_for_token(chunk.as_slice(), patterns) {
                            Some(tok) => {
                                return Some(tok);
                            },
                            None => {},
                        }
                    },
                    None => {},
                }
            },
            None => {
                // The address space wrapped around; there is nothing further
                // to read in this region.
                return None;
            },
        }
        offset = if step < capped - offset {
            offset + step
        } else {
            capped
        };
    }
    None
}

/// Scan one candidate process for a token, over the readable regions that
/// the caller enumerated, each as (base address, size).
///
/// Failure to open the process for reading is a hard per-process error: it
/// is propagated and the caller moves to its next candidate. Within an open
/// process, regions are scanned in the order given, each up to the
/// per-region cap, and the first token found is returned; a process whose
/// regions are exhausted yields nothing, which is not an error.
pub fn scan_process_for_token(
    pid: u32,
    regions: &Vec<(usize, usize)>,
    patterns: &(Vec<u8>, Vec<u8>),
) -> (r: Result<Option<String>, ScanError>)
    requires
        0 < patterns.0@.len(),
        0 < patterns.1@.len(),
        patterns.0@.len() + SCAN_AHEAD <= usize::MAX,
        patterns.1@.len() + SCAN_AHEAD <= usize::MAX,
    ensures
        match r {
            Ok(found) => found matches Some(tok) ==> is_uuid_text(tok@),
            Err(e) => e is ProcessOpenDenied,
        },
{
    let handle = match open_process_handle(pid) {
        Some(h) => h,
        None => {
            return Err(ScanError::ProcessOpenDenied);
        },
    };
    let n: usize = regions.len();
    let mut i: usize = 0;
    while i < n
        invariant
            n == regions@.len(),
            i <= n,
            0 < patterns.0@.len(),
            0 < patterns.1@.len(),
            patterns.0@.len() + SCAN_AHEAD <= usize::MAX,
            patterns.1@.len() + SCAN_AHEAD <= usize::MAX,
        decreases n - i,
    {
        let (base, size) = regions[i];
        if size > 0 {
            match scan_region_for_token(&handle, base, size, patterns) {
                Some(tok) => {
                    return Ok(Some(tok));
                },
                None => {},
            }
        }
        i = i + 1;
    }
    Ok(None)
}

/// A UUID readable in a window stays readable in any longer window that
/// extends it to the right.
proof fn lemma_token_in_window_extend(w1: Seq<u8>, w2: Seq<u8>, t: Seq<u8>)
    requires
        w1.len() <= w2.len(),
        forall|i: int| 0 <= i < w1.len() ==> w1[i] == w2[i],
        token_in_window(w1, t),
    ensures
        token_in_window(w2, t),
{
    if exists|p: int| uuid_at(w1, p) && t == w1.subrange(p, p + UUID_LEN) {
        let p = choose|p: int| uuid_at(w1, p) && t == w1.subrange(p, p + UUID_LEN);
        assert forall|k: int| 0 <= k < UUID_LEN implies uuid_byte_ok_in(w2, p, k) by {
            assert(w2[p + k] == w1[p + k]);
        }
        assert(uuid_at(w2, p));
        assert(w2.subrange(p, p + UUID_LEN) =~= w1.subrange(p, p + UUID_LEN));
    } else {
        let p = choose|p: int| uuid16_at(w1, p) && t == uuid_bytes_at16(w1, p);
        assert forall|k: int| 0 <= k < UUID_LEN implies #[trigger] unit16_ok(w2, p, k) by {
            assert(unit16_ok(w1, p, k));
            assert(w2[2 * (p + k)] == w1[2 * (p + k)]);
            assert(w2[2 * (p + k) + 1] == w1[2 * (p + k) + 1]);
        }
        assert(uuid16_at(w2, p));
        assert(uuid_bytes_at16(w2, p) =~= uuid_bytes_at16(w1, p));
    }
}

/// The byte at UUID offset `k` of a window occurrence, phrased so that the
/// extension lemma can instantiate the grammar quantifier.
spec fn uuid_byte_ok_in(w: Seq<u8>, p: int, k: int) -> bool {
    crate::pattern::uuid_byte_ok(w[p + k], k)
}

/// A token found inside a chunk is found in the buffer the chunk was cut
/// from: the occurrence shifts by the chunk offset, and the buffer's
/// lookahead window extends the chunk's.
proof fn lemma_found_token_lift(d: Seq<u8>, c: Seq<u8>, pat: Seq<u8>, off: int, read: int, t: Seq<u8>)
    requires
        0 <= off,
        0 <= read,
        off + read <= d.len(),
        c == d.subrange(off, off + read),
        pat.len() > 0,
        found_token(c, pat, t),
    ensures
        found_token(d, pat, t),
{
    let q = choose|q: int|
        #[trigger] matches_at(c, pat, q) && token_in_window(lookahead_window(c, q + pat.len()), t);
    assert(matches_at(d, pat, off + q)) by {
        assert(d.subrange(off + q, off + q + pat.len()) =~= c.subrange(q, q + pat.len()));
    }
    let s = q + pat.len() as int;
    let w1 = lookahead_window(c, s);
    let w2 = lookahead_window(d, off + s);
    assert(w1.len() <= w2.len());
    assert forall|i: int| 0 <= i < w1.len() implies w1[i] == w2[i] by {
        assert(w1[i] == c[s + i]);
        assert(c[s + i] == d[off + s + i]);
        assert(w2[i] == d[off + s + i]);
    }
    lemma_token_in_window_extend(w1, w2, t);
}

/// An occurrence whose whole lookahead window lies inside a chunk is an
/// occurrence inside that chunk, with an identical window.
proof fn lemma_chunk_occurrence(d: Seq<u8>, c: Seq<u8>, pat: Seq<u8>, off: int, read: int, pos: int)
    requires
        0 <= off,
        0 <= read,
        off + read <= d.len(),
        c == d.subrange(off, off + read),
        pat.len() > 0,
        token_occurrence(d, pat, pos),
        off <= pos,
        window_end(d, pos + pat.len()) <= off + read,
    ensures
        token_occurrence(c, pat, pos - off),
{
    let s = pos + pat.len() as int;
    assert(s <= window_end(d, s));
    assert(matches_at(c, pat, pos - off)) by {
        assert(c.subrange(pos - off, pos - off + pat.len()) =~= d.subrange(pos, pos + pat.len()));
    }
    assert(window_end(c, s - off) + off == window_end(d, s));
    assert(lookahead_window(c, s - off) =~= lookahead_window(d, s));
}

/// Bytes of one region actually scanned: all of it up to the per-region cap.
pub open spec fn capped_len(n: int) -> int {
    if n <= MAX_REGION_BYTES {
        n
    } else {
        MAX_REGION_BYTES as int
    }
}

/// Chunked scan over a buffer that stands for one readable region, using the
/// production chunk size, overlap and per-region cap.
///
/// This is the functional model of the live loop in `scan_region_for_token`:
/// the two advance their cursors identically (same chunk size, cap, overlap
/// and minimum step) and must be kept in step; only the source of the bytes
/// differs.
///
/// The contract carries the two scan invariants. Only the first `capped_len`
/// bytes count: a returned token was read out of a window following a label
/// occurrence within the cap, and content beyond the cap is never found.
/// And the overlap makes chunking invisible: for a label that cannot overlap
/// itself, if any occurrence inside the cap has a readable UUID in its
/// window, the scan returns a token — whether or not the occurrence
/// straddles a chunk boundary.
#[verifier::rlimit(100)]
pub fn scan_buffer_chunked(data: &[u8], patterns: &(Vec<u8>, Vec<u8>)) -> (r: Option<String>)
    requires
        0 < patterns.0@.len(),
        0 < patterns.1@.len(),
        spec_overlap(patterns.0@, patterns.1@) < CHUNK_SIZE,
    ensures
        ({
            let d = data@.take(capped_len(data@.len() as int));
            match r {
                Some(tok) => {
                    let t = chars_to_bytes(tok@);
                    &&& is_uuid_seq(t)
                    &&& tok@ == bytes_to_chars(t)
                    &&& found_token(d, patterns.0@, t) || found_token(d, patterns.1@, t)
                },
                None => (no_self_overlap(patterns.0@) ==> forall|pos: int|
                    !token_occurrence(d, patterns.0@, pos)) && (no_self_overlap(patterns.1@)
                    ==> forall|pos: int| !token_occurrence(d, patterns.1@, pos)),
            }
        }),
{
    let dn: usize = data.len();
    let capped: usize = if dn < MAX_REGION_BYTES {
        dn
    } else {
        MAX_REGION_BYTES
    };
    let region = vstd::slice::slice_subrange(data, 0, capped);
    proof {
        assert(region@ =~= data@.take(capped_len(data@.len() as int)));
    }
    let overlap = overlap_for(patterns);
    let mut offset: usize = 0;
    while offset < capped
        invariant
            capped == capped_len(data@.len() as int),
            region@ == data@.take(capped_len(data@.len() as int)),
            region@.len() == capped,
            0 < patterns.0@.len(),
            0 < patterns.1@.len(),
            overlap == spec_overlap(patterns.0@, patterns.1@),
            overlap < CHUNK_SIZE,
            no_self_overlap(patterns.0@) ==> forall|pos: int|
                #[trigger] token_occurrence(region@, patterns.0@, pos) ==> pos >= offset,
            no_self_overlap(patterns.1@) ==> forall|pos: int|
                #[trigger] token_occurrence(region@, patterns.1@, pos) ==> pos >= offset,
        decreases capped - offset,
    {
        let read_size: usize = if CHUNK_SIZE < capped - offset {
            CHUNK_SIZE
        } else {
            capped - offset
        };
        let end: usize = offset + read_size;
        let chunk = vstd::slice::slice_subrange(region, offset, end);
        let step: usize = if read_size > overlap {
            read_size - overlap
        } else {
            1
        };
        match search_bytes_for_token(chunk, patterns) {
            Some(tok) => {
                proof {
                    let t = chars_to_bytes(tok@);
                    if found_token(chunk@, patterns.0@, t) {
                        lemma_found_token_lift(
                            region@,
                            chunk@,
                            patterns.0@,
                            offset as int,
                            read_size as int,
                            t,
                        );
                    } else {
                        lemma_found_token_lift(
                            region@,
                            chunk@,
                            patterns.1@,
                            offset as int,
                            read_size as int,
                            t,
                        );
                    }
                }
                return Some(tok);
            },
            None => {
                proof {
                    let d = region@;
                    let off = offset as int;
                    let read = read_size as int;
                    if no_self_overlap(patterns.0@) {
                        assert forall|pos: int|
                            #[trigger] token_occurrence(d, patterns.0@, pos) implies pos >= off
                            + step by {
                            lemma_unfound_is_far(
                                d,
                                chunk@,
                                patterns.0@,
                                off,
                                read,
                                overlap as int,
                                step as int,
                                pos,
                            );
                        }
                    }
                    if no_self_overlap(patterns.1@) {
                        assert forall|pos: int|
                            #[trigger] token_occurrence(d, patterns.1@, pos) implies pos >= off
                            + step by {
                            lemma_unfound_is_far(
                                d,
                                chunk@,
                                patterns.1@,
                                off,
                                read,
                                overlap as int,
                                step as int,
                                pos,
                            );
                        }
                    }
                }
            },
        }
        offset = if step < capped - offset {
            offset + step
        } else {
            capped
        };
    }
    proof {
        let d = region@;
        if no_self_overlap(patterns.0@) {
            assert forall|pos: int| !token_occurrence(d, patterns.0@, pos) by {
                if token_occurrence(d, patterns.0@, pos) {
                    assert(pos + patterns.0@.len() <= d.len());
                }
            }
        }
        if no_self_overlap(patterns.1@) {
            assert forall|pos: int| !token_occurrence(d, patterns.1@, pos) by {
                if token_occurrence(d, patterns.1@, pos) {
                    assert(pos + patterns.1@.len() <= d.len());
                }
            }
        }
    }
    None
}

/// After a chunk yields nothing, every remaining occurrence lies at least a
/// full step further on: an occurrence whose window ends inside the chunk
/// would have been found, and one whose window runs past the chunk starts
/// beyond the next chunk's start, because the chunks overlap by more than a
/// label plus a window.
proof fn lemma_unfound_is_far(
    d: Seq<u8>,
    c: Seq<u8>,
    pat: Seq<u8>,
    off: int,
    read: int,
    ov: int,
    step: int,
    pos: int,
)
    requires
        0 <= off,
        0 < read,
        off + read <= d.len(),
        c == d.subrange(off, off + read),
        pat.len() > 0,
        pat.len() + SCAN_AHEAD <= ov,
        ov < CHUNK_SIZE,
        read == CHUNK_SIZE || off + read == d.len(),
        step == if read > ov {
            read - ov
        } else {
            1
        },
        no_self_overlap(pat),
        forall|q: int| !token_occurrence(c, pat, q),
        token_occurrence(d, pat, pos),
        pos >= off,
    ensures
        pos >= off + step,
{
    if window_end(d, pos + pat.len()) <= off + read {
        lemma_chunk_occurrence(d, c, pat, off, read, pos);
        assert(false);
    } else {
        // The window runs past this chunk, so the chunk is full-sized and the
        // occurrence starts beyond the next chunk start.
        assert(off + read < window_end(d, pos + pat.len()));
        assert(window_end(d, pos + pat.len()) <= pos + pat.len() + SCAN_AHEAD);
        assert(read == CHUNK_SIZE);
        assert(pos > off + read - pat.len() - SCAN_AHEAD);
        assert(pos > off + read - ov);
    }
}

} // verus!
