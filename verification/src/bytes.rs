//! Fixed-size pieces of byte strings and big-endian lengths.

use vstd::prelude::*;

verus! {

/// The two big-endian bytes of the low 16 bits of `n`.
pub open spec fn be16(n: int) -> Seq<u8> {
    seq![((n / 256) % 256) as u8, (n % 256) as u8]
}

/// The number that two big-endian bytes stand for.
pub open spec fn from_be16(hi: u8, lo: u8) -> int {
    hi * 256 + lo
}

/// Appends the two big-endian bytes of the low 16 bits of `n`.
pub fn push_be16(out: &mut Vec<u8>, n: usize)
    ensures
        final(out)@ == old(out)@ + be16(n as int),
{
    out.push(((n / 256) % 256) as u8);
    out.push((n % 256) as u8);
}

/// A number below 65536 is read back from its two bytes.
pub proof fn law_be16_roundtrip(n: int)
    requires
        0 <= n < 65536,
    ensures
        from_be16(be16(n)[0], be16(n)[1]) == n,
{
}

/// The 16 bytes of `bytes` from position `from` on.
pub fn take16(bytes: &[u8], from: usize) -> (out: [u8; 16])
    requires
        from + 16 <= bytes@.len(),
    ensures
        out@ == bytes@.subrange(from as int, from + 16),
{
    let mut out: [u8; 16] = [0; 16];
    let mut i: usize = 0;
    while i < 16
        invariant
            i <= 16,
            from + 16 <= bytes.len(),
            forall|k: int| 0 <= k < i ==> #[trigger] out@[k] == bytes@[from + k],
        decreases 16 - i,
    {
        out[i] = bytes[from + i];
        i += 1;
    }
    assert(out@ =~= bytes@.subrange(from as int, from + 16));
    out
}

/// The 32 bytes of `bytes` from its start on.
pub fn take32(bytes: &[u8]) -> (out: [u8; 32])
    requires
        32 <= bytes@.len(),
    ensures
        out@ == bytes@.subrange(0, 32),
{
    let mut out: [u8; 32] = [0; 32];
    let mut i: usize = 0;
    while i < 32
        invariant
            i <= 32,
            32 <= bytes@.len(),
            forall|k: int| 0 <= k < i ==> #[trigger] out@[k] == bytes@[k],
        decreases 32 - i,
    {
        out[i] = bytes[i];
        i += 1;
    }
    assert(out@ =~= bytes@.subrange(0, 32));
    out
}

/// Of any number the two bytes keep what is left of it modulo 65536.
pub proof fn law_be16_low_bits(n: int)
    requires
        0 <= n,
    ensures
        be16(n).len() == 2,
        be16(n)[0] * 256 + be16(n)[1] == n % 65536,
        from_be16(be16(n)[0], be16(n)[1]) == n % 65536,
{
    let q = n / 256;
    assert(n == 256 * q + n % 256);
    assert(q == 256 * (q / 256) + q % 256);
}

/// Pieces are copied from where they stand, and a length is put behind what is
/// there, its higher byte first.
pub proof fn law_pieces_are_copied(
    bytes: &[u8],
    from: usize,
    piece: [u8; 16],
    head: [u8; 32],
    out: &mut Vec<u8>,
    n: usize,
)
    requires
        call_ensures(take16, (bytes, from), piece),
        call_ensures(take32, (bytes,), head),
        call_ensures(push_be16, (out, n), ()),
        from + 16 <= bytes@.len(),
        32 <= bytes@.len(),
    ensures
        forall|k: int| 0 <= k < 16 ==> #[trigger] piece@[k] == bytes@[from + k],
        forall|k: int| 0 <= k < 32 ==> #[trigger] head@[k] == bytes@[k],
        final(out)@.len() == old(out)@.len() + 2,
        final(out)@.take(old(out)@.len() as int) == old(out)@,
        final(out)@[old(out)@.len() as int] * 256 + final(out)@[old(out)@.len() as int + 1] == n
            % 65536,
{
    law_be16_low_bits(n as int);
    assert(final(out)@.take(old(out)@.len() as int) =~= old(out)@);
}

} // verus!
