use antigravity_agent::{get_patterns, scan_buffer_chunked, scan_process_for_token};

const KEY: &[u8] = b"x-codeium-csrf-token";
const UUID: &str = "12345678-9abc-def0-1234-56789abcdef0";

const CHUNK_SIZE: usize = 512 * 1024;
const SCAN_AHEAD: usize = 200;
const MAX_REGION_BYTES: usize = 64 * 1024 * 1024;

fn place(buf: &mut [u8], offset: usize) {
    buf[offset..offset + KEY.len()].copy_from_slice(KEY);
    let start = offset + KEY.len();
    buf[start..start + UUID.len()].copy_from_slice(UUID.as_bytes());
}

fn erase(buf: &mut [u8], offset: usize) {
    for b in buf[offset..offset + KEY.len() + UUID.len()].iter_mut() {
        *b = 0;
    }
}

#[test]
fn boundary_safety_across_chunk_edge() {
    // A label-plus-token span placed at offsets around the first chunk
    // boundary, sampled over the whole overlap range plus its endpoints,
    // is found for every sampled offset.
    // The production overlap: the longer (16-bit-unit) encoding of the label
    // plus the lookahead window.
    let overlap = 2 * KEY.len() + SCAN_AHEAD;
    let mut buf = vec![0u8; 2 * CHUNK_SIZE];
    let patterns = get_patterns();
    let lo = CHUNK_SIZE - overlap + 1;
    let hi = CHUNK_SIZE + overlap - 1;
    let mut offsets: Vec<usize> = (lo..=hi).step_by(23).collect();
    offsets.push(hi);
    offsets.push(CHUNK_SIZE - 1);
    offsets.push(CHUNK_SIZE);
    offsets.push(CHUNK_SIZE + 1);
    for off in offsets {
        place(&mut buf, off);
        let found = scan_buffer_chunked(&buf, &patterns);
        assert_eq!(found, Some(UUID.to_string()), "missed token at offset {}", off);
        erase(&mut buf, off);
    }
}

#[test]
fn token_within_region_cap_is_found() {
    let mut buf = vec![0u8; 8 * 1024];
    place(&mut buf, 1000);
    assert_eq!(scan_buffer_chunked(&buf, &get_patterns()), Some(UUID.to_string()));
}

#[test]
fn content_beyond_region_cap_is_never_found() {
    // The simulated region is larger than the per-region cap; a token placed
    // beyond the cap stays unseen.
    let mut buf = vec![0u8; MAX_REGION_BYTES + 4096];
    place(&mut buf, MAX_REGION_BYTES + 100);
    assert_eq!(scan_buffer_chunked(&buf, &get_patterns()), None);
}

#[test]
fn token_straddling_the_region_cap_is_not_reported() {
    // The span begins inside the cap but its token ends beyond it.
    let mut buf = vec![0u8; MAX_REGION_BYTES + 4096];
    place(&mut buf, MAX_REGION_BYTES - KEY.len() - 10);
    assert_eq!(scan_buffer_chunked(&buf, &get_patterns()), None);
}

#[test]
fn empty_region_yields_nothing() {
    let buf: Vec<u8> = Vec::new();
    assert_eq!(scan_buffer_chunked(&buf, &get_patterns()), None);
}

#[test]
fn process_scan_without_regions_finds_nothing() {
    // Opening a process succeeds on this platform; with no regions to scan
    // there is nothing to find, which is not an error.
    let regions: Vec<(usize, usize)> = Vec::new();
    let r = scan_process_for_token(1, &regions, &get_patterns());
    assert!(matches!(r, Ok(None)));
}

#[test]
fn failed_region_reads_are_not_fatal() {
    // Reads from another process's unmapped addresses fail; the scan skips
    // on and ends with nothing rather than an error.
    let regions = vec![(0usize, 0usize), (0x1000usize, 4096usize)];
    let r = scan_process_for_token(1, &regions, &get_patterns());
    assert!(matches!(r, Ok(None)));
}
