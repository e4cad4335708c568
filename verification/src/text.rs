//! Small verified text helpers: decimal rendering and list joining, used to
//! assemble status messages.

use vstd::prelude::*;

use crate::pattern::{ascii_to_string, bytes_to_chars};

verus! {

/// Decimal digits of `n`, most significant first, as ASCII bytes.
pub open spec fn spec_dec_bytes(n: int) -> Seq<u8>
    decreases n
        when n >= 0
{
    if n < 10 {
        seq![(48 + n) as u8]
    } else {
        spec_dec_bytes(n / 10).push((48 + n % 10) as u8)
    }
}

/// Decimal digits of `n`, most significant first.
pub open spec fn spec_dec_chars(n: int) -> Seq<char> {
    bytes_to_chars(spec_dec_bytes(n))
}

/// `n` rendered in decimal.
pub fn u64_to_string(n: u64) -> (r: String)
    ensures
        r@ == spec_dec_chars(n as int),
{
    let mut buf: Vec<u8> = Vec::new();
    let mut m: u64 = n;
    let d0: u8 = (m % 10) as u8 + 48;
    buf.push(d0);
    m = m / 10;
    proof {
        if n < 10 {
            assert(buf@.reverse() =~= spec_dec_bytes(n as int));
        } else {
            assert(buf@.reverse() =~= seq![(48 + (n as int) % 10) as u8]);
            assert(spec_dec_bytes(n as int) =~= spec_dec_bytes(m as int) + buf@.reverse());
        }
    }
    while m > 0
        invariant
            m == 0 ==> spec_dec_bytes(n as int) == buf@.reverse(),
            m > 0 ==> spec_dec_bytes(n as int) == spec_dec_bytes(m as int) + buf@.reverse(),
            forall|i: int| 0 <= i < buf@.len() ==> 48 <= #[trigger] buf@[i] <= 57,
        decreases m,
    {
        let ghost bold = buf@;
        let ghost mold = m as int;
        let d: u8 = (m % 10) as u8 + 48;
        buf.push(d);
        m = m / 10;
        proof {
            assert(buf@.reverse() =~= seq![d] + bold.reverse());
            if mold < 10 {
                assert(spec_dec_bytes(mold) =~= seq![d]);
                assert(spec_dec_bytes(n as int) =~= buf@.reverse());
            } else {
                assert(spec_dec_bytes(mold) == spec_dec_bytes(mold / 10).push(d));
                assert(spec_dec_bytes(mold) =~= spec_dec_bytes(m as int) + seq![d]);
                assert(spec_dec_bytes(n as int) =~= spec_dec_bytes(m as int) + buf@.reverse());
            }
        }
    }
    let mut out: Vec<u8> = Vec::new();
    let bn: usize = buf.len();
    let mut j: usize = bn;
    while j > 0
        invariant
            bn == buf@.len(),
            j <= bn,
            out@.len() == bn - j,
            forall|k: int| 0 <= k < out@.len() ==> #[trigger] out@[k] == buf@[bn - 1 - k],
            forall|i: int| 0 <= i < buf@.len() ==> 48 <= #[trigger] buf@[i] <= 57,
        decreases j,
    {
        j = j - 1;
        out.push(buf[j]);
    }
    assert(out@ =~= buf@.reverse());
    assert forall|i: int| 0 <= i < out@.len() implies out@[i] < 128 by {
        assert(out@[i] == buf@[bn - 1 - i]);
    }
    ascii_to_string(out)
}

/// The pieces joined with "; " between them.
pub open spec fn spec_join_semicolon(parts: Seq<Seq<char>>) -> Seq<char>
    decreases parts.len(),
{
    if parts.len() == 0 {
        Seq::empty()
    } else if parts.len() == 1 {
        parts[0]
    } else {
        spec_join_semicolon(parts.drop_last()) + "; "@ + parts.last()
    }
}

/// The given strings joined with "; " between them.
pub fn join_semicolon(parts: &Vec<String>) -> (r: String)
    ensures
        r@ == spec_join_semicolon(parts@.map_values(|s: String| s@)),
{
    let ghost mapped = parts@.map_values(|s: String| s@);
    let mut out = String::new();
    let n: usize = parts.len();
    let mut i: usize = 0;
    while i < n
        invariant
            n == parts@.len(),
            mapped == parts@.map_values(|s: String| s@),
            mapped.len() == n,
            i <= n,
            out@ == spec_join_semicolon(mapped.take(i as int)),
        decreases n - i,
    {
        proof {
            assert(mapped.take(i + 1 as int).drop_last() =~= mapped.take(i as int));
            assert(mapped.take(i + 1 as int).last() == mapped[i as int]);
            assert(mapped[i as int] == parts@[i as int]@);
        }
        if i > 0 {
            out.append("; ");
        } else {
            assert(mapped.take(1).len() == 1);
        }
        out.append(parts[i].as_str());
        i = i + 1;
    }
    proof {
        assert(mapped.take(n as int) =~= mapped);
    }
    out
}

} // verus!
