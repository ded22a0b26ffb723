//! Validated access to a guest's linear memory.
//!
//! Every read or write of guest memory goes through [`read_region`] or
//! [`write_region`], which check the address/size pair against the current
//! size of the memory before touching a single byte.
use vstd::prelude::*;

use crate::error::BridgeError;

verus! {

/// A region `[addr, addr + size)` may be accessed in a memory of `mem_len`
/// bytes: it must end strictly before the end of the memory.
pub open spec fn region_ok(addr: nat, size: nat, mem_len: nat) -> bool {
    addr + size < mem_len
}

/// Checks that `[addr, addr + size)` lies within a memory of `mem_len` bytes.
pub fn check_region(addr: u32, size: u32, mem_len: usize) -> (r: Result<(), BridgeError>)
    ensures
        r is Ok <==> region_ok(addr as nat, size as nat, mem_len as nat),
        r is Err ==> r == Err::<(), BridgeError>(BridgeError::BoundsViolation),
{
    let end: u64 = addr as u64 + size as u64;
    if end < mem_len as u64 {
        Ok(())
    } else {
        Err(BridgeError::BoundsViolation)
    }
}

/// Copies `size` bytes at `addr` out of `mem`, after checking the bounds.
pub fn read_region(mem: &[u8], addr: u32, size: u32) -> (r: Result<Vec<u8>, BridgeError>)
    ensures
        region_ok(addr as nat, size as nat, mem@.len()) ==> r == Ok::<Vec<u8>, BridgeError>(
            r->Ok_0,
        ) && r->Ok_0@ == mem@.subrange(addr as int, addr + size),
        !region_ok(addr as nat, size as nat, mem@.len()) ==> r == Err::<Vec<u8>, BridgeError>(
            BridgeError::BoundsViolation,
        ),
{
    check_region(addr, size, mem.len())?;
    let start = addr as usize;
    let n = size as usize;
    let len = mem.len();
    let mut out: Vec<u8> = Vec::with_capacity(n);
    let mut i: usize = 0;
    while i < n
        invariant
            start + n < mem@.len(),
            mem@.len() == len,
            i <= n,
            out@ == mem@.subrange(start as int, start + i),
        decreases n - i,
    {
        out.push(mem[start + i]);
        i += 1;
        assert(out@ =~= mem@.subrange(start as int, start + i));
    }
    Ok(out)
}

/// Copies `data` into `mem` at `addr`, after checking the bounds. On error
/// the memory is left untouched.
pub fn write_region(mem: &mut [u8], addr: u32, data: &[u8]) -> (r: Result<(), BridgeError>)
    requires
        data@.len() <= u32::MAX,
    ensures
        r is Ok <==> region_ok(addr as nat, data@.len(), old(mem)@.len()),
        r is Err ==> r == Err::<(), BridgeError>(BridgeError::BoundsViolation) && final(mem)@
            == old(mem)@,
        r is Ok ==> final(mem)@ == old(mem)@.subrange(0, addr as int) + data@ + old(mem)@.subrange(
            addr + data@.len(),
            old(mem)@.len() as int,
        ),
{
    let size = data.len() as u32;
    check_region(addr, size, mem.len())?;
    let start = addr as usize;
    let n = data.len();
    let len = mem.len();
    let ghost m0 = mem@;
    let mut i: usize = 0;
    while i < n
        invariant
            start + n < m0.len(),
            n == data@.len(),
            i <= n,
            mem@.len() == m0.len(),
            m0.len() == len,
            forall|j: int| 0 <= j < start ==> mem@[j] == m0[j],
            forall|j: int| start <= j < start + i ==> mem@[j] == data@[j - start],
            forall|j: int| start + i <= j < m0.len() ==> mem@[j] == m0[j],
        decreases n - i,
    {
        mem[start + i] = data[i];
        i += 1;
    }
    assert(mem@ =~= m0.subrange(0, start as int) + data@ + m0.subrange(start + n, m0.len() as int));
    Ok(())
}

/// Packs a result buffer's address and size into one word: the size in the
/// high 32 bits, the address in the low 32 bits.
pub open spec fn packed(addr: u32, size: u32) -> int {
    size * 0x1_0000_0000 + addr
}

/// Every word is the packing of its low half (the address) and its high
/// half (the size).
proof fn lemma_word_halves(w: u64)
    ensures
        w as int == packed((w & 0xFFFF_FFFFu64) as u32, (w >> 32u64) as u32),
{
    assert(w >> 32u64 == w / 0x1_0000_0000u64 && w & 0xFFFF_FFFFu64 == w % 0x1_0000_0000u64)
        by (bit_vector);
    vstd::arithmetic::div_mod::lemma_fundamental_div_mod(w as int, 0x1_0000_0000);
}

/// A word is the packing of exactly one `(addr, size)` pair.
pub proof fn lemma_packed_unique(a1: u32, s1: u32, a2: u32, s2: u32)
    requires
        packed(a1, s1) == packed(a2, s2),
    ensures
        a1 == a2,
        s1 == s2,
{
    assert(s1 == s2) by (nonlinear_arith)
        requires
            s1 * 0x1_0000_0000 + a1 == s2 * 0x1_0000_0000 + a2,
            a1 < 0x1_0000_0000,
            a2 < 0x1_0000_0000,
            s1 >= 0,
            s2 >= 0,
    ;
}

pub fn pack_word(addr: u32, size: u32) -> (r: u64)
    ensures
        r as int == packed(addr, size),
{
    let a = addr as u64;
    let s = size as u64;
    let r = (s << 32u64) | a;
    assert(r >> 32u64 == s && r & 0xFFFF_FFFFu64 == a) by (bit_vector)
        requires
            s <= 0xFFFF_FFFFu64,
            a <= 0xFFFF_FFFFu64,
            r == (s << 32u64) | a,
    ;
    proof {
        lemma_word_halves(r);
    }
    r
}

/// Splits a packed word into its `(addr, size)` pair.
pub fn unpack_word(w: u64) -> (r: (u32, u32))
    ensures
        packed(r.0, r.1) == w as int,
{
    proof {
        lemma_word_halves(w);
    }
    ((w & 0xFFFF_FFFFu64) as u32, (w >> 32u64) as u32)
}

} // verus!
