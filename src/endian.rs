use vstd::prelude::*;

verus! {

/// The 16-bit integer stored at `o` in the given byte order.
pub open spec fn spec_u16(le: bool, d: Seq<u8>, o: int) -> u16 {
    if le {
        (d[o + 1] as int * 0x100 + d[o] as int) as u16
    } else {
        (d[o] as int * 0x100 + d[o + 1] as int) as u16
    }
}

/// The 32-bit integer stored at `o` in the given byte order.
pub open spec fn spec_u32(le: bool, d: Seq<u8>, o: int) -> u32 {
    if le {
        (spec_u16(true, d, o + 2) as int * 0x10000 + spec_u16(true, d, o) as int) as u32
    } else {
        (spec_u16(false, d, o) as int * 0x10000 + spec_u16(false, d, o + 2) as int) as u32
    }
}

/// The 64-bit integer stored at `o` in the given byte order.
pub open spec fn spec_u64(le: bool, d: Seq<u8>, o: int) -> u64 {
    if le {
        (spec_u32(true, d, o + 4) as int * 0x1_0000_0000 + spec_u32(true, d, o) as int) as u64
    } else {
        (spec_u32(false, d, o) as int * 0x1_0000_0000 + spec_u32(false, d, o + 4) as int) as u64
    }
}

/// Reads a 16-bit integer; the caller has checked the bounds.
pub fn load_u16(le: bool, d: &[u8], o: usize) -> (r: u16)
    requires
        o + 2 <= d@.len(),
    ensures
        r == spec_u16(le, d@, o as int),
{
    let b0 = d[o] as u16;
    let b1 = d[o + 1] as u16;
    if le {
        b1 * 0x100 + b0
    } else {
        b0 * 0x100 + b1
    }
}

/// Reads a 32-bit integer; the caller has checked the bounds.
pub fn load_u32(le: bool, d: &[u8], o: usize) -> (r: u32)
    requires
        o + 4 <= d@.len(),
    ensures
        r == spec_u32(le, d@, o as int),
{
    let _n = d.len();
    let lo = load_u16(le, d, o) as u32;
    let hi = load_u16(le, d, o + 2) as u32;
    if le {
        hi * 0x10000 + lo
    } else {
        lo * 0x10000 + hi
    }
}

/// Reads a 64-bit integer; the caller has checked the bounds.
pub fn load_u64(le: bool, d: &[u8], o: usize) -> (r: u64)
    requires
        o + 8 <= d@.len(),
    ensures
        r == spec_u64(le, d@, o as int),
{
    let _n = d.len();
    let lo = load_u32(le, d, o) as u64;
    let hi = load_u32(le, d, o + 4) as u64;
    if le {
        hi * 0x1_0000_0000 + lo
    } else {
        lo * 0x1_0000_0000 + hi
    }
}

} // verus!
