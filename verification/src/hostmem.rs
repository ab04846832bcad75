//! Anonymous host memory behind guest segments.
//!
//! Everything in this file is trusted: the contracts say what the `memmap2`
//! crate does and are not proved.
use vstd::prelude::*;
use memmap2::{MmapMut, MmapOptions};

verus! {

/// `memmap2::MmapMut`, a mapping that can be written. Nothing inside it
/// is seen here; `mmap_bytes` names what it holds.
#[verifier::external_type_specification]
#[verifier::external_body]
pub struct ExMmapMut(memmap2::MmapMut);

/// `std::io::Error`, the error of a mapping that the host refused. It is
/// only carried to where it becomes an error of the library.
#[verifier::external_type_specification]
#[verifier::external_body]
pub struct ExIoError(std::io::Error);

/// The bytes of a mapping, in address order.
pub uninterp spec fn mmap_bytes(m: MmapMut) -> Seq<u8>;

/// Calls `MmapOptions::new().len(len).map_anon()`. When the call succeeds,
/// the mapping is `len` bytes long. Nothing is claimed of what the bytes
/// hold, nor of when the call succeeds.
#[verifier::external_body]
pub(crate) fn mmap_anon(len: usize) -> (r: Result<MmapMut, std::io::Error>)
    ensures
        r matches Ok(m) ==> mmap_bytes(m).len() == len,
{
    MmapOptions::new().len(len).map_anon()
}

/// Calls `len` on the mapping's slice: the number of bytes mapped.
#[verifier::external_body]
pub(crate) fn mmap_len(m: &MmapMut) -> (n: usize)
    ensures
        n == mmap_bytes(*m).len(),
{
    m.len()
}

/// Reads byte `i` of the mapping through `MmapMut`'s `Deref` to a slice.
#[verifier::external_body]
pub(crate) fn mmap_get(m: &MmapMut, i: usize) -> (b: u8)
    requires
        i < mmap_bytes(*m).len(),
    ensures
        b == mmap_bytes(*m)[i as int],
{
    m[i]
}

/// Writes byte `i` of the mapping through `MmapMut`'s `DerefMut` to a
/// slice. Every other byte stays as it was.
#[verifier::external_body]
pub(crate) fn mmap_set(m: &mut MmapMut, i: usize, b: u8)
    requires
        i < mmap_bytes(*old(m)).len(),
    ensures
        mmap_bytes(*final(m)) == mmap_bytes(*old(m)).update(i as int, b),
{
    m[i] = b;
}

/// Calls `fill` on the mapping's slice: every byte becomes `b`.
#[verifier::external_body]
pub(crate) fn mmap_fill(m: &mut MmapMut, b: u8)
    ensures
        mmap_bytes(*final(m)) == Seq::new(mmap_bytes(*old(m)).len(), |i: int| b),
{
    m.fill(b);
}

} // verus!
