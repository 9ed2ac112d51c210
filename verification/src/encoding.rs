//! Canonical byte encoding of the values that identifiers are derived from.
//!
//! Numbers of fixed width are written little-endian. Lengths and variant
//! indices are written as ULEB128: seven bits per byte, least significant
//! group first, the high bit set on every byte but the last.

use vstd::prelude::*;

verus! {

/// The ULEB128 encoding of `n`.
pub open spec fn uleb128(n: nat) -> Seq<u8>
    decreases n,
{
    if n < 128 {
        seq![n as u8]
    } else {
        seq![(128 + n % 128) as u8] + uleb128(n / 128)
    }
}

/// The `width` low bytes of `n`, least significant first.
pub open spec fn le_bytes(n: nat, width: nat) -> Seq<u8>
    decreases width,
{
    if width == 0 {
        Seq::empty()
    } else {
        seq![(n % 256) as u8] + le_bytes(n / 256, (width - 1) as nat)
    }
}

/// A byte string with its length in front.
pub open spec fn length_prefixed(bytes: Seq<u8>) -> Seq<u8> {
    uleb128(bytes.len()) + bytes
}

/// Appends the ULEB128 encoding of `n`.
pub fn push_uleb128(out: &mut Vec<u8>, n: usize)
    ensures
        final(out)@ == old(out)@ + uleb128(n as nat),
{
    let ghost start = out@;
    let mut rest = n;
    while rest >= 128
        invariant
            start + uleb128(n as nat) == out@ + uleb128(rest as nat),
        decreases rest,
    {
        let ghost before = out@;
        let group = (128 + rest % 128) as u8;
        out.push(group);
        assert(before + uleb128(rest as nat) =~= before.push(group) + uleb128(
            (rest / 128) as nat,
        ));
        rest = rest / 128;
    }
    let ghost before = out@;
    out.push(rest as u8);
    assert(before + uleb128(rest as nat) =~= before.push(rest as u8));
}

/// Appends `n` as eight little-endian bytes.
pub fn push_u64_le(out: &mut Vec<u8>, n: u64)
    ensures
        final(out)@ == old(out)@ + le_bytes(n as nat, 8),
{
    let ghost start = out@;
    let mut rest = n;
    let mut written: usize = 0;
    while written < 8
        invariant
            written <= 8,
            start + le_bytes(n as nat, 8) == out@ + le_bytes(rest as nat, (8 - written) as nat),
        decreases 8 - written,
    {
        let ghost before = out@;
        let low = (rest % 256) as u8;
        out.push(low);
        assert(before + le_bytes(rest as nat, (8 - written) as nat) =~= before.push(low)
            + le_bytes((rest / 256) as nat, (8 - written - 1) as nat));
        rest = rest / 256;
        written = written + 1;
    }
    assert(out@ + le_bytes(rest as nat, 0) =~= out@);
}

/// Appends `bytes` as they are.
pub fn push_all(out: &mut Vec<u8>, bytes: &[u8])
    ensures
        final(out)@ == old(out)@ + bytes@,
{
    let ghost start = out@;
    let mut i: usize = 0;
    while i < bytes.len()
        invariant
            i <= bytes@.len(),
            out@ == start + bytes@.take(i as int),
        decreases bytes@.len() - i,
    {
        out.push(bytes[i]);
        assert(out@ =~= start + bytes@.take(i + 1));
        i = i + 1;
    }
    assert(bytes@.take(i as int) =~= bytes@);
}

/// Appends `bytes` with their length in front.
pub fn push_length_prefixed(out: &mut Vec<u8>, bytes: &[u8])
    ensures
        final(out)@ == old(out)@ + length_prefixed(bytes@),
{
    let ghost start = out@;
    push_uleb128(out, bytes.len());
    push_all(out, bytes);
    assert(out@ =~= start + length_prefixed(bytes@));
}

} // verus!
