use vstd::prelude::*;
use std::collections::HashMap;
use crate::track_slice::PosSlice;
use crate::byte_parsers::{spec_le32_at, u32_at};
use crate::ptr_table::{
    build_locations, is_rev_index, ptr_table_ok, ptrs, read_ptr_table, table_body, table_body_pos,
};
use crate::ParseErr;

verus! {

broadcast use vstd::std_specs::hash::group_hash_axioms;

pub type Point32 = (u32, u32);

pub type Rect32 = (Point32, Point32);

/// The sprite table, plus the reverse index from stored pointer to record
/// position.
#[derive(Debug)]
pub struct Sprt {
    pub sprites: Vec<SprtEntry>,
    pub locations: HashMap<u32, usize>,
}

/// One sprite record. `opacity_bits` and `unk_float_bits` carry the raw
/// bits of the stored 32-bit floats, preserved for byte fidelity.
/// `tpag_offsets` are the raw pointer values of the sprite's frames in
/// the atlas-region table.
#[derive(Debug)]
pub struct SprtEntry {
    pub name_offset: u32,
    pub size: Point32,
    pub bounds: Rect32,
    pub origin: Point32,
    pub unk3: i32,
    pub opacity_bits: u32,
    pub unk5: u32,
    pub tpag_offsets: Vec<u32>,
    pub unk_float_bits: Vec<u32>,
}

/// The record's self-declared count of trailing floats.
pub open spec fn sprt_float_count(c: Seq<u8>) -> int {
    spec_le32_at(c, 64) as int
}

/// The record's self-declared frame count.
pub open spec fn sprt_frame_count(c: Seq<u8>) -> int {
    spec_le32_at(c, 76 + 4 * sprt_float_count(c)) as int
}

/// The fixed head, both self-declared tails and the closing fields all
/// fit in `c`.
pub open spec fn sprt_rec_ok(c: Seq<u8>) -> bool {
    &&& c.len() >= 68
    &&& 80 + 4 * sprt_float_count(c) <= c.len()
    &&& 80 + 4 * sprt_float_count(c) + 4 * sprt_frame_count(c) <= c.len()
}

/// `e` holds exactly the fields stored at the front of `c`.
pub open spec fn sprt_rec_matches(e: SprtEntry, c: Seq<u8>) -> bool {
    let fc = sprt_float_count(c);
    let nf = sprt_frame_count(c);
    &&& e.name_offset == spec_le32_at(c, 0)
    &&& e.size == (spec_le32_at(c, 4), spec_le32_at(c, 8))
    &&& e.bounds == (
        (spec_le32_at(c, 12), spec_le32_at(c, 16)),
        (spec_le32_at(c, 20), spec_le32_at(c, 24)),
    )
    &&& e.origin == (spec_le32_at(c, 48), spec_le32_at(c, 52))
    &&& e.unk3 == spec_le32_at(c, 56) as i32
    &&& e.unk_float_bits@ == Seq::new(fc as nat, |k: int| spec_le32_at(c, 68 + 4 * k))
    &&& e.opacity_bits == spec_le32_at(c, 68 + 4 * fc)
    &&& e.unk5 == spec_le32_at(c, 72 + 4 * fc)
    &&& e.tpag_offsets@ == Seq::new(nf as nat, |k: int| spec_le32_at(c, 80 + 4 * fc + 4 * k))
}

/// Pointer `p` resolves against the view at `pos` and the whole record,
/// tails included, fits.
pub open spec fn sprt_entry_ok(pos: int, b: Seq<u8>, p: u32) -> bool {
    pos <= p && p - pos <= b.len() && sprt_rec_ok(b.skip(p - pos))
}

/// `BadPointer` when the offset resolves before the view or past its
/// end, `Eof` when the record is truncated.
pub open spec fn sprt_entry_err(pos: int, b: Seq<u8>, p: u32) -> ParseErr {
    if p < pos || p - pos > b.len() {
        ParseErr::BadPointer
    } else {
        ParseErr::Eof
    }
}

impl SprtEntry {
    /// Reads one sprite record from the front of the view: the 68-byte
    /// head, the float tail, the three closing fields and the frame
    /// pointer list.
    pub fn take<'a>(input: PosSlice<'a>) -> (r: Result<(PosSlice<'a>, SprtEntry), ParseErr>)
        requires
            input.wf(),
        ensures
            sprt_rec_ok(input.data@) ==> (r matches Ok(t) && sprt_rec_matches(t.1, input.data@)
                && t.0.pos == input.pos + 80 + 4 * sprt_float_count(input.data@) + 4
                * sprt_frame_count(input.data@) && t.0.data@ == input.data@.skip(
                80 + 4 * sprt_float_count(input.data@) + 4 * sprt_frame_count(input.data@),
            ) && t.0.wf()),
            !sprt_rec_ok(input.data@) ==> (r matches Err(e) && e == ParseErr::Eof),
    {
        let ghost c = input.data@;
        if input.len() < 68 {
            return Err(ParseErr::Eof);
        }
        let fc = u32_at(input, 64) as usize;
        if input.len() < 80 || (input.len() - 80) / 4 < fc {
            assert(!sprt_rec_ok(c));
            return Err(ParseErr::Eof);
        }
        assert(80 + 4 * (fc as int) <= c.len());
        let mut unk_float_bits: Vec<u32> = Vec::new();
        let mut k: usize = 0;
        while k < fc
            invariant
                c == input.data@,
                input.wf(),
                fc == sprt_float_count(c),
                80 + 4 * (fc as int) <= c.len(),
                0 <= k <= fc,
                unk_float_bits@.len() == k,
                forall|j: int|
                    0 <= j < k ==> #[trigger] unk_float_bits@[j] == spec_le32_at(c, 68 + 4 * j),
            decreases fc - k,
        {
            unk_float_bits.push(u32_at(input, 68 + 4 * k));
            k = k + 1;
        }
        let opacity_bits = u32_at(input, 68 + 4 * fc);
        let unk5 = u32_at(input, 72 + 4 * fc);
        let nf = u32_at(input, 76 + 4 * fc) as usize;
        let tail = 80 + 4 * fc;
        if (input.len() - tail) / 4 < nf {
            assert(!sprt_rec_ok(c));
            return Err(ParseErr::Eof);
        }
        assert(80 + 4 * (fc as int) + 4 * (nf as int) <= c.len());
        let mut tpag_offsets: Vec<u32> = Vec::new();
        let mut k: usize = 0;
        while k < nf
            invariant
                c == input.data@,
                input.wf(),
                fc == sprt_float_count(c),
                nf == sprt_frame_count(c),
                tail == 80 + 4 * (fc as int),
                tail + 4 * (nf as int) <= c.len(),
                0 <= k <= nf,
                tpag_offsets@.len() == k,
                forall|j: int|
                    0 <= j < k ==> #[trigger] tpag_offsets@[j] == spec_le32_at(
                        c,
                        80 + 4 * sprt_float_count(c) + 4 * j,
                    ),
            decreases nf - k,
        {
            tpag_offsets.push(u32_at(input, tail + 4 * k));
            k = k + 1;
        }
        let e = SprtEntry {
            name_offset: u32_at(input, 0),
            size: (u32_at(input, 4), u32_at(input, 8)),
            bounds: ((u32_at(input, 12), u32_at(input, 16)), (u32_at(input, 20), u32_at(input, 24))),
            origin: (u32_at(input, 48), u32_at(input, 52)),
            unk3: u32_at(input, 56) as i32,
            opacity_bits,
            unk5,
            tpag_offsets,
            unk_float_bits,
        };
        proof {
            assert(unk_float_bits@ =~= Seq::new(
                sprt_float_count(c) as nat,
                |k: int| spec_le32_at(c, 68 + 4 * k),
            ));
        }
        let rest = input.offset(tail + 4 * nf);
        proof {
            assert(e.tpag_offsets@ =~= Seq::new(
                sprt_frame_count(c) as nat,
                |k: int| spec_le32_at(c, 80 + 4 * sprt_float_count(c) + 4 * k),
            ));
        }
        Ok((rest, e))
    }
}

/// Reads a pair of `u32`s from the front of the view.
pub fn take_point32<'a>(input: PosSlice<'a>) -> (r: Result<(PosSlice<'a>, Point32), ParseErr>)
    requires
        input.wf(),
    ensures
        input.data@.len() >= 8 ==> (r matches Ok(t) && t.1 == (
            spec_le32_at(input.data@, 0),
            spec_le32_at(input.data@, 4),
        ) && t.0.pos == input.pos + 8 && t.0.data@ == input.data@.skip(8) && t.0.wf()),
        input.data@.len() < 8 ==> (r matches Err(e) && e == ParseErr::Eof),
{
    if input.len() < 8 {
        return Err(ParseErr::Eof);
    }
    let p = (u32_at(input, 0), u32_at(input, 4));
    Ok((input.offset(8), p))
}

/// Reads a rectangle (two points) from the front of the view.
pub fn take_rect32<'a>(input: PosSlice<'a>) -> (r: Result<(PosSlice<'a>, Rect32), ParseErr>)
    requires
        input.wf(),
    ensures
        input.data@.len() >= 16 ==> (r matches Ok(t) && t.1 == (
            (spec_le32_at(input.data@, 0), spec_le32_at(input.data@, 4)),
            (spec_le32_at(input.data@, 8), spec_le32_at(input.data@, 12)),
        ) && t.0.pos == input.pos + 16 && t.0.data@ == input.data@.skip(16) && t.0.wf()),
        input.data@.len() < 16 ==> (r matches Err(e) && e == ParseErr::Eof),
{
    if input.len() < 16 {
        return Err(ParseErr::Eof);
    }
    let r = ((u32_at(input, 0), u32_at(input, 4)), (u32_at(input, 8), u32_at(input, 12)));
    Ok((input.offset(16), r))
}

impl Sprt {
    /// Every reverse-index entry points inside `sprites`.
    pub open spec fn wf(self) -> bool {
        forall|k: u32|
            self.locations@.contains_key(k) ==> (#[trigger] self.locations@[k])
                < self.sprites@.len()
    }

    /// Decodes a SPRT section payload: entry count, pointer list, one
    /// sprite record at each absolute offset, and the reverse index.
    /// Succeeds exactly when the pointer list fits and every record
    /// resolves and fits; the first failing record decides the error.
    pub fn take<'a>(input: PosSlice<'a>) -> (r: Result<(PosSlice<'a>, Sprt), ParseErr>)
        requires
            input.wf32(),
        ensures
            ({
                let b = input.data@;
                let bp = table_body_pos(input.pos as int, b);
                let bb = table_body(b);
                let ps = ptrs(b);
                &&& (r matches Ok(t)) <==> (ptr_table_ok(b) && (forall|i: int|
                    0 <= i < ps.len() ==> sprt_entry_ok(bp, bb, #[trigger] ps[i])))
                &&& !ptr_table_ok(b) ==> (r matches Err(e) && e == ParseErr::Eof)
                &&& ptr_table_ok(b) && (forall|i: int|
                    0 <= i < ps.len() ==> sprt_entry_ok(bp, bb, #[trigger] ps[i])) ==> (r matches Ok(t)
                    && t.0.pos == bp && t.0.data@ == bb && t.1.sprites@.len() == ps.len() && (forall|
                    i: int,
                |
                    0 <= i < ps.len() ==> sprt_rec_matches(
                        #[trigger] t.1.sprites@[i],
                        bb.skip(ps[i] - bp),
                    )) && is_rev_index(ps, 0, t.1.locations@) && t.1.wf())
                &&& forall|i: int|
                    ptr_table_ok(b) && 0 <= i < ps.len() && !sprt_entry_ok(bp, bb, #[trigger] ps[i])
                        && (forall|k: int| 0 <= k < i ==> sprt_entry_ok(bp, bb, #[trigger] ps[k]))
                        ==> (r matches Err(e) && e == sprt_entry_err(bp, bb, ps[i]))
            }),
    {
        let ghost b = input.data@;
        let ghost bp = table_body_pos(input.pos as int, b);
        let ghost bb = table_body(b);
        let ghost ps = ptrs(b);
        let (after, offsets) = read_ptr_table(input)?;
        let mut sprites: Vec<SprtEntry> = Vec::new();
        let n = offsets.len();
        let mut i: usize = 0;
        while i < n
            invariant
                b == input.data@,
                bp == table_body_pos(input.pos as int, b),
                bb == table_body(b),
                ps == ptrs(b),
                ptr_table_ok(b),
                n == ps.len(),
                offsets@ == ps,
                after.pos == bp,
                after.data@ == bb,
                after.wf(),
                0 <= i <= n,
                sprites@.len() == i,
                forall|j: int| 0 <= j < i ==> sprt_entry_ok(bp, bb, #[trigger] ps[j]),
                forall|j: int|
                    0 <= j < i ==> sprt_rec_matches(#[trigger] sprites@[j], bb.skip(ps[j] - bp)),
            decreases n - i,
        {
            let p = offsets[i];
            if (p as usize) < after.pos() {
                assert(!sprt_entry_ok(bp, bb, ps[i as int]));
                return Err(ParseErr::BadPointer);
            }
            let off = p as usize - after.pos();
            if off > after.len() {
                assert(!sprt_entry_ok(bp, bb, ps[i as int]));
                return Err(ParseErr::BadPointer);
            }
            let rec = after.offset(off);
            match SprtEntry::take(rec) {
                Ok((_, e)) => {
                    proof {
                        if !sprt_rec_ok(rec.data@) {
                            assert(false);
                        }
                        assert(sprt_entry_ok(bp, bb, p));
                    }
                    sprites.push(e);
                },
                Err(e) => {
                    assert(!sprt_entry_ok(bp, bb, ps[i as int]));
                    assert(e == sprt_entry_err(bp, bb, ps[i as int]));
                    return Err(e);
                },
            }
            i = i + 1;
        }
        let locations = build_locations(&offsets, 0);
        let sprt = Sprt { sprites, locations };
        proof {
            assert forall|k: u32| sprt.locations@.contains_key(k) implies (
            #[trigger] sprt.locations@[k]) < sprt.sprites@.len() by {
                let j = choose|j: int|
                    0 <= j < ps.len() && k == crate::ptr_table::loc_key(ps, 0, j);
                crate::ptr_table::lemma_first_occ_props(ps, ps[j]);
            }
        }
        Ok((after, sprt))
    }

    /// Looks up a sprite by the raw pointer value another section stored:
    /// `Some` exactly when the offset is a key of the reverse index.
    pub fn get(&self, loc: u32) -> (r: Option<&SprtEntry>)
        requires
            self.wf(),
        ensures
            r is Some <==> self.locations@.contains_key(loc),
            r matches Some(v) ==> *v == self.sprites@[self.locations@[loc] as int],
    {
        match self.locations.get(&loc) {
            Some(idx) => Some(&self.sprites[*idx]),
            None => None,
        }
    }
}

} // verus!
