use vstd::prelude::*;
use std::collections::HashMap;
use crate::track_slice::PosSlice;
use crate::byte_parsers::{spec_le32_at, u32_at};
use crate::ptr_table::{
    build_locations, is_rev_index, ptr_table_ok, ptrs, read_ptr_table, table_body, table_body_pos,
};
use crate::ParseErr;

verus! {

broadcast use vstd::std_specs::hash::group_hash_axioms;

/// The sound-descriptor table, plus the reverse index from stored pointer
/// to record position.
#[derive(Debug)]
pub struct Sond {
    pub sounds: Vec<SondEntry>,
    pub locations: HashMap<u32, usize>,
}

/// One fixed-shape sound descriptor. `play_speed_bits` carries the raw
/// bits of the stored 32-bit float, preserved for byte fidelity.
#[derive(Debug, Clone, Copy, PartialEq, Eq, Structural)]
pub struct SondEntry {
    pub name_offset: u32,
    pub unk1: u32,
    pub unk2: u32,
    pub name_offset2: u32,
    pub unk3: u32,
    pub play_speed_bits: u32,
    pub unk4: u32,
    pub audiogroup_index: u32,
    pub index_in_audiogroup: u32,
}

/// The descriptor whose 36 bytes start at the front of `c`.
pub open spec fn sond_entry_spec(c: Seq<u8>) -> SondEntry {
    SondEntry {
        name_offset: spec_le32_at(c, 0),
        unk1: spec_le32_at(c, 4),
        unk2: spec_le32_at(c, 8),
        name_offset2: spec_le32_at(c, 12),
        unk3: spec_le32_at(c, 16),
        play_speed_bits: spec_le32_at(c, 20),
        unk4: spec_le32_at(c, 24),
        audiogroup_index: spec_le32_at(c, 28),
        index_in_audiogroup: spec_le32_at(c, 32),
    }
}

/// Pointer `p` resolves against the view at `pos` and a full 36-byte
/// record fits.
pub open spec fn sond_entry_ok(pos: int, b: Seq<u8>, p: u32) -> bool {
    pos <= p && p - pos + 36 <= b.len()
}

/// The record stored at absolute offset `p`.
pub open spec fn sond_entry_at(pos: int, b: Seq<u8>, p: u32) -> SondEntry {
    sond_entry_spec(b.skip(p - pos))
}

/// `BadPointer` when the offset resolves before the view or past its end,
/// `Eof` when the record is truncated.
pub open spec fn sond_entry_err(pos: int, b: Seq<u8>, p: u32) -> ParseErr {
    if p < pos || p - pos > b.len() {
        ParseErr::BadPointer
    } else {
        ParseErr::Eof
    }
}

impl SondEntry {
    /// Reads one 36-byte descriptor from the front of the view.
    pub fn take<'a>(input: PosSlice<'a>) -> (r: Result<(PosSlice<'a>, SondEntry), ParseErr>)
        requires
            input.wf(),
        ensures
            input.data@.len() >= 36 ==> (r matches Ok(t) && t.1 == sond_entry_spec(input.data@)
                && t.0.pos == input.pos + 36 && t.0.data@ == input.data@.skip(36) && t.0.wf()),
            input.data@.len() < 36 ==> (r matches Err(e) && e == ParseErr::Eof),
    {
        if input.len() < 36 {
            return Err(ParseErr::Eof);
        }
        let e = SondEntry {
            name_offset: u32_at(input, 0),
            unk1: u32_at(input, 4),
            unk2: u32_at(input, 8),
            name_offset2: u32_at(input, 12),
            unk3: u32_at(input, 16),
            play_speed_bits: u32_at(input, 20),
            unk4: u32_at(input, 24),
            audiogroup_index: u32_at(input, 28),
            index_in_audiogroup: u32_at(input, 32),
        };
        Ok((input.offset(36), e))
    }
}

impl Sond {
    /// Every reverse-index entry points inside `sounds`.
    pub open spec fn wf(self) -> bool {
        forall|k: u32|
            self.locations@.contains_key(k) ==> (#[trigger] self.locations@[k])
                < self.sounds@.len()
    }

    /// Decodes a SOND section payload: entry count, pointer list, one
    /// descriptor at each absolute offset, and the reverse index.
    /// Succeeds exactly when the pointer list fits and every record
    /// resolves and fits; the first failing record decides the error.
    pub fn take<'a>(input: PosSlice<'a>) -> (r: Result<(PosSlice<'a>, Sond), ParseErr>)
        requires
            input.wf32(),
        ensures
            ({
                let b = input.data@;
                let bp = table_body_pos(input.pos as int, b);
                let bb = table_body(b);
                let ps = ptrs(b);
                &&& (r matches Ok(t)) <==> (ptr_table_ok(b) && (forall|i: int|
                    0 <= i < ps.len() ==> sond_entry_ok(bp, bb, #[trigger] ps[i])))
                &&& !ptr_table_ok(b) ==> (r matches Err(e) && e == ParseErr::Eof)
                &&& ptr_table_ok(b) && (forall|i: int|
                    0 <= i < ps.len() ==> sond_entry_ok(bp, bb, #[trigger] ps[i])) ==> (r matches Ok(t)
                    && t.0.pos == bp && t.0.data@ == bb && t.1.sounds@.len() == ps.len() && (forall|
                    i: int,
                |
                    0 <= i < ps.len() ==> #[trigger] t.1.sounds@[i] == sond_entry_at(bp, bb, ps[i]))
                    && is_rev_index(ps, 0, t.1.locations@) && t.1.wf())
                &&& forall|i: int|
                    ptr_table_ok(b) && 0 <= i < ps.len() && !sond_entry_ok(bp, bb, #[trigger] ps[i])
                        && (forall|k: int| 0 <= k < i ==> sond_entry_ok(bp, bb, #[trigger] ps[k]))
                        ==> (r matches Err(e) && e == sond_entry_err(bp, bb, ps[i]))
            }),
    {
        let ghost b = input.data@;
        let ghost bp = table_body_pos(input.pos as int, b);
        let ghost bb = table_body(b);
        let ghost ps = ptrs(b);
        let (after, offsets) = read_ptr_table(input)?;
        let mut sounds: Vec<SondEntry> = Vec::new();
        let n = offsets.len();
        let mut i: usize = 0;
        while i < n
            invariant
                b == input.data@,
                bp == table_body_pos(input.pos as int, b),
                bb == table_body(b),
                ps == ptrs(b),
                ptr_table_ok(b),
                n == ps.len(),
                offsets@ == ps,
                after.pos == bp,
                after.data@ == bb,
                after.wf(),
                0 <= i <= n,
                sounds@.len() == i,
                forall|j: int| 0 <= j < i ==> sond_entry_ok(bp, bb, #[trigger] ps[j]),
                forall|j: int| 0 <= j < i ==> #[trigger] sounds@[j] == sond_entry_at(bp, bb, ps[j]),
            decreases n - i,
        {
            let p = offsets[i];
            if (p as usize) < after.pos() {
                assert(!sond_entry_ok(bp, bb, ps[i as int]));
                return Err(ParseErr::BadPointer);
            }
            let off = p as usize - after.pos();
            if off > after.len() {
                assert(!sond_entry_ok(bp, bb, ps[i as int]));
                return Err(ParseErr::BadPointer);
            }
            let rec = after.offset(off);
            match SondEntry::take(rec) {
                Ok((_, e)) => {
                    proof {
                        if rec.data@.len() < 36 {
                            assert(false);
                        }
                        assert(sond_entry_ok(bp, bb, p));
                        assert(rec.data@ =~= bb.skip(p - bp));
                    }
                    sounds.push(e);
                },
                Err(e) => {
                    assert(!sond_entry_ok(bp, bb, ps[i as int]));
                    assert(e == sond_entry_err(bp, bb, ps[i as int]));
                    return Err(e);
                },
            }
            i = i + 1;
        }
        let locations = build_locations(&offsets, 0);
        let sond = Sond { sounds, locations };
        proof {
            assert forall|k: u32| sond.locations@.contains_key(k) implies (
            #[trigger] sond.locations@[k]) < sond.sounds@.len() by {
                let j = choose|j: int|
                    0 <= j < ps.len() && k == crate::ptr_table::loc_key(ps, 0, j);
                crate::ptr_table::lemma_first_occ_props(ps, ps[j]);
            }
        }
        Ok((after, sond))
    }

    /// Looks up a descriptor by the raw pointer value another section
    /// stored: `Some` exactly when the offset is a key of the reverse
    /// index.
    pub fn get(&self, loc: u32) -> (r: Option<&SondEntry>)
        requires
            self.wf(),
        ensures
            r is Some <==> self.locations@.contains_key(loc),
            r matches Some(v) ==> *v == self.sounds@[self.locations@[loc] as int],
    {
        match self.locations.get(&loc) {
            Some(idx) => Some(&self.sounds[*idx]),
            None => None,
        }
    }
}

} // verus!
