use vstd::prelude::*;
use std::collections::HashMap;
use crate::track_slice::PosSlice;
use crate::byte_parsers::{spec_le16_at, u16_at};
use crate::ptr_table::{
    build_locations, is_rev_index, ptr_table_ok, ptrs, read_ptr_table, table_body, table_body_pos,
};
use crate::ParseErr;

verus! {

broadcast use vstd::std_specs::hash::group_hash_axioms;

pub type Point16 = (u16, u16);

pub type Rect16 = (Point16, Point16);

/// The texture-atlas-region table, plus the reverse index from stored
/// pointer to record position.
#[derive(Debug)]
pub struct Tpag {
    pub texture_pages: Vec<TpagEntry>,
    pub locations: HashMap<u32, usize>,
}

/// One atlas region: a rectangle plus the index of the atlas page it
/// lives on.
#[derive(Debug, Clone, Copy, PartialEq)]
pub struct TpagEntry {
    pub sprite_bounds: Rect16,
    pub unk2: Rect16,
    pub size: Point16,
    pub texture_index: u16,
}

/// The pair of `u16`s at byte offset `k` of `c`.
pub open spec fn point16_spec(c: Seq<u8>, k: int) -> Point16 {
    (spec_le16_at(c, k), spec_le16_at(c, k + 2))
}

/// The rectangle (two points) at byte offset `k` of `c`.
pub open spec fn rect16_spec(c: Seq<u8>, k: int) -> Rect16 {
    (point16_spec(c, k), point16_spec(c, k + 4))
}

/// The region record whose 22 bytes start at the front of `c`.
pub open spec fn tpag_entry_spec(c: Seq<u8>) -> TpagEntry {
    TpagEntry {
        sprite_bounds: rect16_spec(c, 0),
        unk2: rect16_spec(c, 8),
        size: point16_spec(c, 16),
        texture_index: spec_le16_at(c, 20),
    }
}

/// Pointer `p` resolves against the view at `pos` and a full 22-byte
/// record fits.
pub open spec fn tpag_entry_ok(pos: int, b: Seq<u8>, p: u32) -> bool {
    pos <= p && p - pos + 22 <= b.len()
}

/// The record stored at absolute offset `p`.
pub open spec fn tpag_entry_at(pos: int, b: Seq<u8>, p: u32) -> TpagEntry {
    tpag_entry_spec(b.skip(p - pos))
}

/// `BadPointer` when the offset resolves before the view or past its end,
/// `Eof` when the record is truncated.
pub open spec fn tpag_entry_err(pos: int, b: Seq<u8>, p: u32) -> ParseErr {
    if p < pos || p - pos > b.len() {
        ParseErr::BadPointer
    } else {
        ParseErr::Eof
    }
}

/// Reads a pair of `u16`s from the front of the view.
pub fn take_point16<'a>(input: PosSlice<'a>) -> (r: Result<(PosSlice<'a>, Point16), ParseErr>)
    requires
        input.wf(),
    ensures
        input.data@.len() >= 4 ==> (r matches Ok(t) && t.1 == point16_spec(input.data@, 0)
            && t.0.pos == input.pos + 4 && t.0.data@ == input.data@.skip(4) && t.0.wf()),
        input.data@.len() < 4 ==> (r matches Err(e) && e == ParseErr::Eof),
{
    if input.len() < 4 {
        return Err(ParseErr::Eof);
    }
    let p = (u16_at(input, 0), u16_at(input, 2));
    Ok((input.offset(4), p))
}

/// Reads a rectangle (two points) from the front of the view.
pub fn take_rect16<'a>(input: PosSlice<'a>) -> (r: Result<(PosSlice<'a>, Rect16), ParseErr>)
    requires
        input.wf(),
    ensures
        input.data@.len() >= 8 ==> (r matches Ok(t) && t.1 == rect16_spec(input.data@, 0)
            && t.0.pos == input.pos + 8 && t.0.data@ == input.data@.skip(8) && t.0.wf()),
        input.data@.len() < 8 ==> (r matches Err(e) && e == ParseErr::Eof),
{
    if input.len() < 8 {
        return Err(ParseErr::Eof);
    }
    let r = ((u16_at(input, 0), u16_at(input, 2)), (u16_at(input, 4), u16_at(input, 6)));
    Ok((input.offset(8), r))
}

impl TpagEntry {
    /// Reads one 22-byte region record from the front of the view.
    pub fn take<'a>(input: PosSlice<'a>) -> (r: Result<(PosSlice<'a>, TpagEntry), ParseErr>)
        requires
            input.wf(),
        ensures
            input.data@.len() >= 22 ==> (r matches Ok(t) && t.1 == tpag_entry_spec(input.data@)
                && t.0.pos == input.pos + 22 && t.0.data@ == input.data@.skip(22) && t.0.wf()),
            input.data@.len() < 22 ==> (r matches Err(e) && e == ParseErr::Eof),
    {
        if input.len() < 22 {
            return Err(ParseErr::Eof);
        }
        let e = TpagEntry {
            sprite_bounds: ((u16_at(input, 0), u16_at(input, 2)), (u16_at(input, 4), u16_at(input, 6))),
            unk2: ((u16_at(input, 8), u16_at(input, 10)), (u16_at(input, 12), u16_at(input, 14))),
            size: (u16_at(input, 16), u16_at(input, 18)),
            texture_index: u16_at(input, 20),
        };
        Ok((input.offset(22), e))
    }
}

impl Tpag {
    /// Every reverse-index entry points inside `texture_pages`.
    pub open spec fn wf(self) -> bool {
        forall|k: u32|
            self.locations@.contains_key(k) ==> (#[trigger] self.locations@[k])
                < self.texture_pages@.len()
    }

    /// Decodes a TPAG section payload: entry count, pointer list, one
    /// region record at each absolute offset, and the reverse index.
    /// Succeeds exactly when the pointer list fits and every record
    /// resolves and fits; the first failing record decides the error.
    pub fn take<'a>(input: PosSlice<'a>) -> (r: Result<(PosSlice<'a>, Tpag), ParseErr>)
        requires
            input.wf32(),
        ensures
            ({
                let b = input.data@;
                let bp = table_body_pos(input.pos as int, b);
                let bb = table_body(b);
                let ps = ptrs(b);
                &&& (r matches Ok(t)) <==> (ptr_table_ok(b) && (forall|i: int|
                    0 <= i < ps.len() ==> tpag_entry_ok(bp, bb, #[trigger] ps[i])))
                &&& !ptr_table_ok(b) ==> (r matches Err(e) && e == ParseErr::Eof)
                &&& ptr_table_ok(b) && (forall|i: int|
                    0 <= i < ps.len() ==> tpag_entry_ok(bp, bb, #[trigger] ps[i])) ==> (r matches Ok(t)
                    && t.0.pos == bp && t.0.data@ == bb && t.1.texture_pages@.len() == ps.len() && (
                    forall|i: int|
                        0 <= i < ps.len() ==> #[trigger] t.1.texture_pages@[i] == tpag_entry_at(
                            bp,
                            bb,
                            ps[i],
                        )) && is_rev_index(ps, 0, t.1.locations@) && t.1.wf())
                &&& forall|i: int|
                    ptr_table_ok(b) && 0 <= i < ps.len() && !tpag_entry_ok(bp, bb, #[trigger] ps[i])
                        && (forall|k: int| 0 <= k < i ==> tpag_entry_ok(bp, bb, #[trigger] ps[k]))
                        ==> (r matches Err(e) && e == tpag_entry_err(bp, bb, ps[i]))
            }),
    {
        let ghost b = input.data@;
        let ghost bp = table_body_pos(input.pos as int, b);
        let ghost bb = table_body(b);
        let ghost ps = ptrs(b);
        let (after, offsets) = read_ptr_table(input)?;
        let mut texture_pages: Vec<TpagEntry> = Vec::new();
        let n = offsets.len();
        let mut i: usize = 0;
        while i < n
            invariant
                b == input.data@,
                bp == table_body_pos(input.pos as int, b),
                bb == table_body(b),
                ps == ptrs(b),
                ptr_table_ok(b),
                n == ps.len(),
                offsets@ == ps,
                after.pos == bp,
                after.data@ == bb,
                after.wf(),
                0 <= i <= n,
                texture_pages@.len() == i,
                forall|j: int| 0 <= j < i ==> tpag_entry_ok(bp, bb, #[trigger] ps[j]),
                forall|j: int|
                    0 <= j < i ==> #[trigger] texture_pages@[j] == tpag_entry_at(bp, bb, ps[j]),
            decreases n - i,
        {
            let p = offsets[i];
            if (p as usize) < after.pos() {
                assert(!tpag_entry_ok(bp, bb, ps[i as int]));
                return Err(ParseErr::BadPointer);
            }
            let off = p as usize - after.pos();
            if off > after.len() {
                assert(!tpag_entry_ok(bp, bb, ps[i as int]));
                return Err(ParseErr::BadPointer);
            }
            let rec = after.offset(off);
            match TpagEntry::take(rec) {
                Ok((_, e)) => {
                    proof {
                        if rec.data@.len() < 22 {
                            assert(false);
                        }
                        assert(tpag_entry_ok(bp, bb, p));
                        assert(rec.data@ =~= bb.skip(p - bp));
                    }
                    texture_pages.push(e);
                },
                Err(e) => {
                    assert(!tpag_entry_ok(bp, bb, ps[i as int]));
                    assert(e == tpag_entry_err(bp, bb, ps[i as int]));
                    return Err(e);
                },
            }
            i = i + 1;
        }
        let locations = build_locations(&offsets, 0);
        let tpag = Tpag { texture_pages, locations };
        proof {
            assert forall|k: u32| tpag.locations@.contains_key(k) implies (
            #[trigger] tpag.locations@[k]) < tpag.texture_pages@.len() by {
                let j = choose|j: int|
                    0 <= j < ps.len() && k == crate::ptr_table::loc_key(ps, 0, j);
                crate::ptr_table::lemma_first_occ_props(ps, ps[j]);
            }
        }
        Ok((after, tpag))
    }

    /// Looks up a region by the raw pointer value another section stored:
    /// `Some` exactly when the offset is a key of the reverse index.
    pub fn get(&self, loc: u32) -> (r: Option<&TpagEntry>)
        requires
            self.wf(),
        ensures
            r is Some <==> self.locations@.contains_key(loc),
            r matches Some(v) ==> *v == self.texture_pages@[self.locations@[loc] as int],
    {
        match self.locations.get(&loc) {
            Some(idx) => Some(&self.texture_pages[*idx]),
            None => None,
        }
    }
}

} // verus!
