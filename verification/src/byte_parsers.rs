use vstd::prelude::*;
use vstd::bytes::{spec_u16_from_le_bytes, spec_u32_from_le_bytes, spec_u64_from_le_bytes};
use crate::track_slice::PosSlice;
use crate::ParseErr;

verus! {

/// The `u32` stored little-endian at byte offset `k` of `b`.
pub open spec fn spec_le32_at(b: Seq<u8>, k: int) -> u32 {
    spec_u32_from_le_bytes(b.subrange(k, k + 4))
}

/// The `u16` stored little-endian at byte offset `k` of `b`.
pub open spec fn spec_le16_at(b: Seq<u8>, k: int) -> u16 {
    spec_u16_from_le_bytes(b.subrange(k, k + 2))
}

/// The `u64` stored little-endian at byte offset `k` of `b`.
pub open spec fn spec_le64_at(b: Seq<u8>, k: int) -> u64 {
    spec_u64_from_le_bytes(b.subrange(k, k + 8))
}

/// Reads the little-endian `u32` at byte offset `k` of the view.
pub fn u32_at(i: PosSlice, k: usize) -> (r: u32)
    requires
        i.wf(),
        k + 4 <= i.data@.len(),
    ensures
        r == spec_le32_at(i.data@, k as int),
{
    let head = vstd::slice::slice_subrange(i.data, k, k + 4);
    vstd::bytes::u32_from_le_bytes(head)
}

/// Reads the little-endian `u16` at byte offset `k` of the view.
pub fn u16_at(i: PosSlice, k: usize) -> (r: u16)
    requires
        i.wf(),
        k + 2 <= i.data@.len(),
    ensures
        r == spec_le16_at(i.data@, k as int),
{
    let head = vstd::slice::slice_subrange(i.data, k, k + 2);
    vstd::bytes::u16_from_le_bytes(head)
}

/// Reads the little-endian `u64` at byte offset `k` of the view.
pub fn u64_at(i: PosSlice, k: usize) -> (r: u64)
    requires
        i.wf(),
        k + 8 <= i.data@.len(),
    ensures
        r == spec_le64_at(i.data@, k as int),
{
    let head = vstd::slice::slice_subrange(i.data, k, k + 8);
    vstd::bytes::u64_from_le_bytes(head)
}

/// Reads a little-endian `u32` from the front of the view, returning the
/// remaining view and the value; fails with `Eof` when fewer than four
/// bytes remain. Fields may start at any byte offset: no alignment is
/// assumed.
pub fn le_u32(i: PosSlice) -> (r: Result<(PosSlice, u32), ParseErr>)
    requires
        i.wf(),
    ensures
        i.data@.len() >= 4 ==> (r matches Ok(t) && t.0.pos == i.pos + 4 && t.0.data@
            == i.data@.subrange(4, i.data@.len() as int) && t.0.wf() && t.1 == spec_le32_at(i.data@, 0)),
        i.data@.len() < 4 ==> (r matches Err(e) && e == ParseErr::Eof),
{
    if i.len() < 4 {
        return Err(ParseErr::Eof);
    }
    let head = vstd::slice::slice_subrange(i.data, 0, 4);
    let v = vstd::bytes::u32_from_le_bytes(head);
    Ok((i.offset(4), v))
}

/// Reads a little-endian `u16` from the front of the view; fails with
/// `Eof` when fewer than two bytes remain.
pub fn le_u16(i: PosSlice) -> (r: Result<(PosSlice, u16), ParseErr>)
    requires
        i.wf(),
    ensures
        i.data@.len() >= 2 ==> (r matches Ok(t) && t.0.pos == i.pos + 2 && t.0.data@
            == i.data@.subrange(2, i.data@.len() as int) && t.0.wf() && t.1 == spec_le16_at(i.data@, 0)),
        i.data@.len() < 2 ==> (r matches Err(e) && e == ParseErr::Eof),
{
    if i.len() < 2 {
        return Err(ParseErr::Eof);
    }
    let head = vstd::slice::slice_subrange(i.data, 0, 2);
    let v = vstd::bytes::u16_from_le_bytes(head);
    Ok((i.offset(2), v))
}

/// Reads one byte from the front of the view; fails with `Eof` on an empty
/// view.
pub fn le_u8(i: PosSlice) -> (r: Result<(PosSlice, u8), ParseErr>)
    requires
        i.wf(),
    ensures
        i.data@.len() >= 1 ==> (r matches Ok(t) && t.0.pos == i.pos + 1 && t.0.data@
            == i.data@.subrange(1, i.data@.len() as int) && t.0.wf() && t.1 == i.data@[0]),
        i.data@.len() < 1 ==> (r matches Err(e) && e == ParseErr::Eof),
{
    if i.len() < 1 {
        return Err(ParseErr::Eof);
    }
    let v = *vstd::slice::slice_index_get(i.data, 0);
    Ok((i.offset(1), v))
}

} // verus!
