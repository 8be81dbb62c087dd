//! Little-endian encoding of unsigned numbers in a fixed number of bytes.

use vstd::prelude::*;

verus! {

/// 256 to the power `n`.
pub open spec fn pow256(n: nat) -> nat
    decreases n,
{
    if n == 0 {
        1
    } else {
        256 * pow256((n - 1) as nat)
    }
}

/// The `len` low bytes of `x`, least significant first.
pub open spec fn le_bytes(x: nat, len: nat) -> Seq<u8>
    decreases len,
{
    if len == 0 {
        Seq::empty()
    } else {
        seq![(x % 256) as u8] + le_bytes(x / 256, (len - 1) as nat)
    }
}

/// The number that `bytes` spell, least significant byte first.
pub open spec fn le_value(bytes: Seq<u8>) -> nat
    decreases bytes.len(),
{
    if bytes.len() == 0 {
        0
    } else {
        bytes[0] as nat + 256 * le_value(bytes.drop_first())
    }
}

/// `s` with the bytes from position `at` on replaced by `patch`.
pub open spec fn splice(s: Seq<u8>, at: int, patch: Seq<u8>) -> Seq<u8> {
    Seq::new(
        s.len(),
        |i: int|
            if at <= i < at + patch.len() {
                patch[i - at]
            } else {
                s[i]
            },
    )
}

pub proof fn lemma_pow256_values()
    ensures
        pow256(0) == 1,
        pow256(1) == 0x100,
        pow256(2) == 0x1_0000,
        pow256(3) == 0x100_0000,
        pow256(4) == 0x1_0000_0000,
        pow256(5) == 0x100_0000_0000,
        pow256(6) == 0x1_0000_0000_0000,
        pow256(7) == 0x100_0000_0000_0000,
        pow256(8) == 0x1_0000_0000_0000_0000,
{
}

pub proof fn lemma_le_bytes_len(x: nat, len: nat)
    ensures
        le_bytes(x, len).len() == len,
    decreases len,
{
    if len > 0 {
        lemma_le_bytes_len(x / 256, (len - 1) as nat);
    }
}

/// The bytes of a number spell a number below `256^len`.
pub proof fn lemma_le_value_bound(bytes: Seq<u8>)
    ensures
        le_value(bytes) < pow256(bytes.len()),
    decreases bytes.len(),
{
    if bytes.len() > 0 {
        lemma_le_value_bound(bytes.drop_first());
    }
}

/// Decoding undoes encoding for every number that fits in `len` bytes.
pub proof fn lemma_le_value_of_bytes(x: nat, len: nat)
    requires
        x < pow256(len),
    ensures
        le_value(le_bytes(x, len)) == x,
    decreases len,
{
    if len > 0 {
        let rest = le_bytes(x / 256, (len - 1) as nat);
        let all = le_bytes(x, len);
        assert(all.drop_first() =~= rest);
        lemma_le_value_of_bytes(x / 256, (len - 1) as nat);
    }
}

/// Encoding undoes decoding.
pub proof fn lemma_le_bytes_of_value(bytes: Seq<u8>)
    ensures
        le_bytes(le_value(bytes), bytes.len()) == bytes,
    decreases bytes.len(),
{
    if bytes.len() > 0 {
        let rest = bytes.drop_first();
        let x = le_value(bytes);
        lemma_le_bytes_of_value(rest);
    } else {
    }
}

/// Writes the `len` low bytes of `x` into `buffer` from position `offset` on,
/// least significant first.
pub fn write_le(buffer: &mut [u8], offset: usize, x: u64, len: usize)
    requires
        offset + len <= old(buffer).len(),
    ensures
        final(buffer)@ == splice(old(buffer)@, offset as int, le_bytes(x as nat, len as nat)),
{
    let mut rest: u64 = x;
    let mut k: usize = 0;
    proof {
        lemma_le_bytes_len(x as nat, len as nat);
    }
    while k < len
        invariant
            k <= len,
            offset + len <= buffer.len(),
            buffer.len() == old(buffer).len(),
            le_bytes(x as nat, len as nat).len() == len,
            le_bytes(x as nat, len as nat).subrange(k as int, len as int) == le_bytes(
                rest as nat,
                (len - k) as nat,
            ),
            forall|i: int|
                0 <= i < buffer.len() ==> buffer@[i] == (if offset <= i < offset + k {
                    le_bytes(x as nat, len as nat)[i - offset]
                } else {
                    old(buffer)@[i]
                }),
        decreases len - k,
    {
        let ghost all = le_bytes(x as nat, len as nat);
        let ghost tail = le_bytes(rest as nat, (len - k) as nat);
        proof {
            assert(all[k as int] == all.subrange(k as int, len as int)[0]);
            assert(tail.drop_first() =~= le_bytes((rest / 256) as nat, (len - k - 1) as nat));
        }
        buffer[offset + k] = (rest % 256) as u8;
        rest = rest / 256;
        k = k + 1;
    }
}

/// Reads the number that the `len` bytes of `buffer` from position `offset`
/// on spell, least significant first.
pub fn read_le(buffer: &[u8], offset: usize, len: usize) -> (x: u64)
    requires
        len <= 8,
        offset + len <= buffer.len(),
    ensures
        x == le_value(buffer@.subrange(offset as int, offset + len)),
{
    let mut acc: u64 = 0;
    let mut k: usize = len;
    let ghost bytes = buffer@.subrange(offset as int, offset + len);
    while k > 0
        invariant
            k <= len <= 8,
            offset + len <= buffer.len(),
            bytes == buffer@.subrange(offset as int, offset + len),
            acc == le_value(bytes.subrange(k as int, len as int)),
        decreases k,
    {
        let ghost upper = bytes.subrange(k as int, len as int);
        let ghost next = bytes.subrange(k - 1, len as int);
        proof {
            lemma_le_value_bound(upper);
            lemma_pow256_values();
            assert(pow256(upper.len()) <= pow256(7)) by {
            }
            assert(next.drop_first() =~= upper);
        }
        k = k - 1;
        acc = acc * 256 + buffer[offset + k] as u64;
    }
    assert(bytes.subrange(0, len as int) =~= bytes);
    acc
}

pub proof fn lemma_pow256_monotone(a: nat, b: nat)
    requires
        a <= b,
    ensures
        pow256(a) <= pow256(b),
    decreases b,
{
    if a < b {
        lemma_pow256_monotone(a, (b - 1) as nat);
    }
}

/// Copies `bytes` into `buffer` from position `offset` on, and touches
/// nothing else.
pub fn write_bytes(buffer: &mut [u8], offset: usize, bytes: &[u8])
    requires
        offset + bytes.len() <= old(buffer).len(),
    ensures
        final(buffer)@ == splice(old(buffer)@, offset as int, bytes@),
{
    let mut k: usize = 0;
    while k < bytes.len()
        invariant
            k <= bytes.len(),
            offset + bytes.len() <= buffer.len(),
            buffer.len() == old(buffer).len(),
            forall|i: int|
                0 <= i < buffer.len() ==> buffer@[i] == (if offset <= i < offset + k {
                    bytes@[i - offset]
                } else {
                    old(buffer)@[i]
                }),
        decreases bytes.len() - k,
    {
        buffer[offset + k] = bytes[k];
        k = k + 1;
    }
}

/// Whether `size` bytes from position `offset` on lie within `len` bytes.
pub fn holds(len: usize, offset: usize, size: usize) -> (within: bool)
    ensures
        within == (offset + size <= len),
{
    size <= len && offset <= len - size
}

/// What was written is what is there, as far as it fits.
pub proof fn lemma_splice_reads_back(s: Seq<u8>, at: int, patch: Seq<u8>)
    requires
        0 <= at,
        at + patch.len() <= s.len(),
    ensures
        splice(s, at, patch).len() == s.len(),
        splice(s, at, patch).subrange(at, at + patch.len()) == patch,
        forall|i: int| 0 <= i < at ==> splice(s, at, patch)[i] == s[i],
        forall|i: int| at + patch.len() <= i < s.len() ==> splice(s, at, patch)[i] == s[i],
{
}

} // verus!
