use vstd::prelude::*;

verus! {

/// The unsigned value of the four little-endian bytes at `pos`.
pub open spec fn le32(b: Seq<u8>, pos: int) -> int {
    b[pos] + 0x100 * b[pos + 1] + 0x1_0000 * b[pos + 2] + 0x100_0000 * b[pos + 3]
}

/// The same four bytes read as a two's-complement signed 32-bit value.
pub open spec fn le32_signed(b: Seq<u8>, pos: int) -> int {
    if le32(b, pos) >= 0x8000_0000 {
        le32(b, pos) - 0x1_0000_0000
    } else {
        le32(b, pos)
    }
}

/// Reads the little-endian 32-bit word at `pos`.
pub fn read_le32(b: &Vec<u8>, pos: usize) -> (r: u32)
    requires
        pos + 4 <= b@.len(),
    ensures
        r == le32(b@, pos as int),
{
    let n: usize = b.len();
    proof {
        assert(pos + 4 <= n);
    }
    let b0: u32 = b[pos] as u32;
    let b1: u32 = b[pos + 1] as u32;
    let b2: u32 = b[pos + 2] as u32;
    let b3: u32 = b[pos + 3] as u32;
    b0 + 0x100 * b1 + 0x1_0000 * b2 + 0x100_0000 * b3
}

/// The position of the first NUL within the `lim`-byte field at `off`,
/// relative to `off` and scanning from `k`; `lim` when the field holds none.
pub open spec fn nul_scan(b: Seq<u8>, off: int, k: int, lim: int) -> int
    decreases lim - k,
{
    if k >= lim {
        lim
    } else if b[off + k] == 0 {
        k
    } else {
        nul_scan(b, off, k + 1, lim)
    }
}

/// Finds the first NUL within the `lim`-byte field at `off`.
pub fn find_nul(b: &Vec<u8>, off: usize, lim: usize) -> (r: usize)
    requires
        off + lim <= b@.len(),
    ensures
        r == nul_scan(b@, off as int, 0, lim as int),
        r <= lim,
{
    let n: usize = b.len();
    let mut k: usize = 0;
    while k < lim && b[off + k] != 0
        invariant
            off + lim <= n,
            n == b@.len(),
            k <= lim,
            nul_scan(b@, off as int, 0, lim as int) == nul_scan(b@, off as int, k as int, lim as int),
        decreases lim - k,
    {
        k = k + 1;
    }
    k
}

/// Reads the little-endian 32-bit word at `pos` as a signed value.
pub fn read_le32_signed(b: &Vec<u8>, pos: usize) -> (r: i32)
    requires
        pos + 4 <= b@.len(),
    ensures
        r == le32_signed(b@, pos as int),
{
    let v: u32 = read_le32(b, pos);
    if v >= 0x8000_0000 {
        ((v as i64) - 0x1_0000_0000i64) as i32
    } else {
        v as i32
    }
}

/// An owned copy of `b[start .. start + len]`.
pub fn copy_range(b: &Vec<u8>, start: usize, len: usize) -> (r: Vec<u8>)
    requires
        start + len <= b@.len(),
    ensures
        r@ == b@.subrange(start as int, start as int + len as int),
{
    let n: usize = b.len();
    let mut r: Vec<u8> = Vec::new();
    let mut i: usize = 0;
    while i < len
        invariant
            start + len <= n == b@.len(),
            i <= len,
            r@ =~= b@.subrange(start as int, start as int + i as int),
        decreases len - i,
    {
        r.push(b[start + i]);
        i = i + 1;
    }
    proof {
        assert(r@ =~= b@.subrange(start as int, start as int + len as int));
    }
    r
}

} // verus!
