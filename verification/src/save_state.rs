//! Byte-serial save-state codec: little-endian, no version header, no
//! padding.  Each primitive serialises at its natural width; fixed-size
//! regions dump their bytes; packs of up to 8 bools compress into one byte
//! (least significant bit first).
//!
//! Every writer appends exactly the bytes that its `spec` counterpart
//! describes, and every reader consumes exactly those bytes, so the
//! round-trip laws of the whole machine state reduce to the per-field
//! lemmas proved here.

use vstd::prelude::*;

verus! {

/// Why decoding a snapshot failed.  The decoder leaves the target entity
/// unspecified on any error; the caller must discard it.
#[derive(Clone, Copy, Debug, PartialEq, Eq, Structural)]
pub enum LoadStateError {
    /// The input ended before the state was complete.
    UnexpectedEof,
    /// The picture-processing-unit state word is not one the dot machine
    /// can stand in.
    InvalidPpuMode(u8),
    /// The sound controller arrived at a clock different from the board's.
    SoundControllerDesync(u64, u64),
    /// A sub-machine arrived ahead of the board's clock.
    ClockBackwards,
    /// The snapshot asserts an active boot ROM shadow, but the machine
    /// it is loaded into holds no boot ROM to shadow with.
    MissingBootRom,
}

/// The two bytes of `v`, low byte first.
pub open spec fn u16_le(v: u16) -> Seq<u8> {
    seq![v as u8, (v >> 8) as u8]
}

/// The eight bytes of `v`, low byte first.
pub open spec fn u64_le(v: u64) -> Seq<u8> {
    seq![
        v as u8,
        (v >> 8) as u8,
        (v >> 16) as u8,
        (v >> 24) as u8,
        (v >> 32) as u8,
        (v >> 40) as u8,
        (v >> 48) as u8,
        (v >> 56) as u8,
    ]
}

/// The `u16` whose low byte is `b0` and high byte `b1`.
pub open spec fn u16_from_le(b0: u8, b1: u8) -> u16 {
    ((b0 as u16) | ((b1 as u16) << 8)) as u16
}

/// The `u64` assembled from eight bytes, low byte first.
pub open spec fn u64_from_le(b: Seq<u8>) -> u64 {
    ((b[0] as u64) | ((b[1] as u64) << 8) | ((b[2] as u64) << 16) | ((b[3] as u64) << 24)
        | ((b[4] as u64) << 32) | ((b[5] as u64) << 40) | ((b[6] as u64) << 48)
        | ((b[7] as u64) << 56)) as u64
}

/// Reassembling the two little-endian bytes of a `u16` gives it back.
pub proof fn lemma_u16_le_roundtrip(v: u16)
    ensures
        u16_from_le(u16_le(v)[0], u16_le(v)[1]) == v,
{
    assert(((v as u8) as u16) | ((((v >> 8) as u8) as u16) << 8) == v) by (bit_vector);
}

/// Reassembling the eight little-endian bytes of a `u64` gives it back.
pub proof fn lemma_u64_le_roundtrip(v: u64)
    ensures
        u64_from_le(u64_le(v)) == v,
{
    let b0 = v as u8;
    let b1 = (v >> 8) as u8;
    let b2 = (v >> 16) as u8;
    let b3 = (v >> 24) as u8;
    let b4 = (v >> 32) as u8;
    let b5 = (v >> 40) as u8;
    let b6 = (v >> 48) as u8;
    let b7 = (v >> 56) as u8;
    assert((b0 as u64) | ((b1 as u64) << 8) | ((b2 as u64) << 16) | ((b3 as u64) << 24)
        | ((b4 as u64) << 32) | ((b5 as u64) << 40) | ((b6 as u64) << 48)
        | ((b7 as u64) << 56) == v) by (bit_vector)
        requires
            b0 == v as u8,
            b1 == (v >> 8) as u8,
            b2 == (v >> 16) as u8,
            b3 == (v >> 24) as u8,
            b4 == (v >> 32) as u8,
            b5 == (v >> 40) as u8,
            b6 == (v >> 48) as u8,
            b7 == (v >> 56) as u8,
    ;
}

/// Appends one byte.
pub fn save_u8(data: &mut Vec<u8>, v: u8)
    ensures
        final(data)@ == old(data)@.push(v),
{
    data.push(v);
}

/// Appends the two bytes of `v`, low byte first.
pub fn save_u16(data: &mut Vec<u8>, v: u16)
    ensures
        final(data)@ == old(data)@ + u16_le(v),
{
    data.push(v as u8);
    data.push((v >> 8) as u8);
    assert(data@ =~= old(data)@ + u16_le(v));
}

/// Appends the eight bytes of `v`, low byte first.
pub fn save_u64(data: &mut Vec<u8>, v: u64)
    ensures
        final(data)@ == old(data)@ + u64_le(v),
{
    data.push(v as u8);
    data.push((v >> 8) as u8);
    data.push((v >> 16) as u8);
    data.push((v >> 24) as u8);
    data.push((v >> 32) as u8);
    data.push((v >> 40) as u8);
    data.push((v >> 48) as u8);
    data.push((v >> 56) as u8);
    assert(data@ =~= old(data)@ + u64_le(v));
}

/// Appends the contents of `src`.
pub fn save_bytes(data: &mut Vec<u8>, src: &Vec<u8>)
    ensures
        final(data)@ == old(data)@ + src@,
{
    let mut i: usize = 0;
    while i < src.len()
        invariant
            i <= src.len(),
            data@ == old(data)@ + src@.subrange(0, i as int),
        decreases src.len() - i,
    {
        data.push(src[i]);
        i += 1;
        assert(data@ =~= old(data)@ + src@.subrange(0, i as int));
    }
    assert(data@ =~= old(data)@ + src@);
}

/// Whether two byte arrays hold the same bytes.
pub fn bytes_eq(a: &Vec<u8>, b: &Vec<u8>) -> (r: bool)
    ensures
        r == (a@ == b@),
{
    if a.len() != b.len() {
        proof {
            assert(a@.len() != b@.len() ==> a@ != b@);
        }
        return false;
    }
    let n = a.len();
    let mut i: usize = 0;
    while i < n
        invariant
            i <= n,
            n == a@.len() == b@.len(),
            forall|j: int| 0 <= j < i ==> a@[j] == b@[j],
        decreases n - i,
    {
        if a[i] != b[i] {
            return false;
        }
        i += 1;
    }
    proof {
        assert(a@ =~= b@);
    }
    true
}

/// Reads one byte at `*pos` and advances; fails at the end of input.
pub fn load_u8(data: &Vec<u8>, pos: &mut usize) -> (r: Result<u8, LoadStateError>)
    ensures
        *old(pos) < data@.len() ==> r == Ok::<u8, LoadStateError>(data@[*old(pos) as int])
            && *final(pos) == *old(pos) + 1,
        *old(pos) >= data@.len() ==> r == Err::<u8, LoadStateError>(LoadStateError::UnexpectedEof)
            && *final(pos) == *old(pos),
{
    if *pos < data.len() {
        let v = data[*pos];
        *pos = *pos + 1;
        Ok(v)
    } else {
        Err(LoadStateError::UnexpectedEof)
    }
}

/// Reads a little-endian `u16` and advances; fails at the end of input.
pub fn load_u16(data: &Vec<u8>, pos: &mut usize) -> (r: Result<u16, LoadStateError>)
    ensures
        *old(pos) + 2 <= data@.len() ==> r == Ok::<u16, LoadStateError>(
            u16_from_le(data@[*old(pos) as int], data@[*old(pos) + 1]),
        ) && *final(pos) == *old(pos) + 2,
        *old(pos) + 2 > data@.len() ==> r == Err::<u16, LoadStateError>(
            LoadStateError::UnexpectedEof,
        ),
{
    if *pos < data.len() && data.len() - *pos >= 2 {
        let b0 = data[*pos];
        let b1 = data[*pos + 1];
        *pos = *pos + 2;
        Ok(b0 as u16 | ((b1 as u16) << 8))
    } else {
        Err(LoadStateError::UnexpectedEof)
    }
}

/// Reads a little-endian `u64` and advances; fails at the end of input.
pub fn load_u64(data: &Vec<u8>, pos: &mut usize) -> (r: Result<u64, LoadStateError>)
    ensures
        *old(pos) + 8 <= data@.len() ==> r == Ok::<u64, LoadStateError>(
            u64_from_le(data@.subrange(*old(pos) as int, *old(pos) + 8)),
        ) && *final(pos) == *old(pos) + 8,
        *old(pos) + 8 > data@.len() ==> r == Err::<u64, LoadStateError>(
            LoadStateError::UnexpectedEof,
        ),
{
    if *pos < data.len() && data.len() - *pos >= 8 {
        let p = *pos;
        let v = (data[p] as u64) | ((data[p + 1] as u64) << 8) | ((data[p + 2] as u64) << 16)
            | ((data[p + 3] as u64) << 24) | ((data[p + 4] as u64) << 32)
            | ((data[p + 5] as u64) << 40) | ((data[p + 6] as u64) << 48)
            | ((data[p + 7] as u64) << 56);
        *pos = p + 8;
        Ok(v)
    } else {
        Err(LoadStateError::UnexpectedEof)
    }
}

/// Overwrites `dst` (whose length is kept) with the next `dst.len()` bytes;
/// fails at the end of input.
pub fn load_bytes(data: &Vec<u8>, pos: &mut usize, dst: &mut Vec<u8>) -> (r: Result<
    (),
    LoadStateError,
>)
    ensures
        *old(pos) + old(dst)@.len() <= data@.len() ==> r == Ok::<(), LoadStateError>(())
            && final(dst)@ == data@.subrange(
            *old(pos) as int,
            *old(pos) + old(dst)@.len(),
        ) && *final(pos) == *old(pos) + old(dst)@.len(),
        *old(pos) + old(dst)@.len() > data@.len() ==> r == Err::<(), LoadStateError>(
            LoadStateError::UnexpectedEof,
        ) && final(dst)@.len() == old(dst)@.len(),
{
    let n = dst.len();
    if *pos <= data.len() && data.len() - *pos >= n {
        let start = *pos;
        let mut i: usize = 0;
        while i < n
            invariant
                i <= n,
                dst@.len() == n,
                start + n <= data.len(),
                forall|j: int| 0 <= j < i ==> dst@[j] == data@[start + j],
                forall|j: int| i <= j < n ==> dst@[j] == old(dst)@[j],
            decreases n - i,
        {
            let b = data[start + i];
            dst[i] = b;
            i += 1;
        }
        *pos = start + n;
        assert(dst@ =~= data@.subrange(start as int, start + n));
        Ok(())
    } else {
        Err(LoadStateError::UnexpectedEof)
    }
}

} // verus!
