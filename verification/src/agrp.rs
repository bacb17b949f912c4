use vstd::prelude::*;
use std::collections::HashMap;
use crate::track_slice::PosSlice;
use crate::byte_parsers::{le_u32, spec_le32_at};
use crate::ptr_table::{
    build_locations, is_rev_index, ptr_table_ok, ptrs, read_ptr_table, table_body, table_body_pos,
};
use crate::ParseErr;

verus! {

/// The audio-group index table: one `u32` per group, plus the reverse
/// index from stored pointer to record position.
#[derive(Debug)]
pub struct Agrp {
    pub audio_groups: Vec<u32>,
    pub locations: HashMap<u32, usize>,
}

/// Pointer `p` resolves against the view at `pos` and a full record fits.
pub open spec fn agrp_entry_ok(pos: int, b: Seq<u8>, p: u32) -> bool {
    pos <= p && p - pos + 4 <= b.len()
}

/// The record stored at absolute offset `p`.
pub open spec fn agrp_entry_at(pos: int, b: Seq<u8>, p: u32) -> u32 {
    spec_le32_at(b, p - pos)
}

/// `BadPointer` when the offset resolves before the view or past its end,
/// `Eof` when the record itself is truncated.
pub open spec fn agrp_entry_err(pos: int, b: Seq<u8>, p: u32) -> ParseErr {
    if p < pos || p - pos > b.len() {
        ParseErr::BadPointer
    } else {
        ParseErr::Eof
    }
}

impl Agrp {
    /// Decodes an AGRP section payload: entry count, pointer list, one
    /// `u32` record at each absolute offset, and the reverse index.
    /// Succeeds exactly when the pointer list fits and every record
    /// resolves and fits; the first failing record decides the error.
    pub fn take<'a>(input: PosSlice<'a>) -> (r: Result<(PosSlice<'a>, Agrp), ParseErr>)
        requires
            input.wf32(),
        ensures
            ({
                let b = input.data@;
                let bp = table_body_pos(input.pos as int, b);
                let bb = table_body(b);
                let ps = ptrs(b);
                &&& (r matches Ok(t)) <==> (ptr_table_ok(b) && (forall|i: int|
                    0 <= i < ps.len() ==> agrp_entry_ok(bp, bb, #[trigger] ps[i])))
                &&& !ptr_table_ok(b) ==> (r matches Err(e) && e == ParseErr::Eof)
                &&& ptr_table_ok(b) && (forall|i: int|
                    0 <= i < ps.len() ==> agrp_entry_ok(bp, bb, #[trigger] ps[i])) ==> (r matches Ok(t)
                    && t.0.pos == bp && t.0.data@ == bb && t.1.audio_groups@.len() == ps.len() && (
                    forall|i: int|
                        0 <= i < ps.len() ==> #[trigger] t.1.audio_groups@[i] == agrp_entry_at(
                            bp,
                            bb,
                            ps[i],
                        )) && is_rev_index(ps, 0, t.1.locations@))
                &&& forall|i: int|
                    ptr_table_ok(b) && 0 <= i < ps.len() && !agrp_entry_ok(bp, bb, #[trigger] ps[i])
                        && (forall|k: int| 0 <= k < i ==> agrp_entry_ok(bp, bb, #[trigger] ps[k]))
                        ==> (r matches Err(e) && e == agrp_entry_err(bp, bb, ps[i]))
            }),
    {
        let ghost b = input.data@;
        let ghost bp = table_body_pos(input.pos as int, b);
        let ghost bb = table_body(b);
        let ghost ps = ptrs(b);
        let (after, offsets) = read_ptr_table(input)?;
        let mut audio_groups: Vec<u32> = Vec::new();
        let n = offsets.len();
        let mut i: usize = 0;
        while i < n
            invariant
                b == input.data@,
                bp == table_body_pos(input.pos as int, b),
                bb == table_body(b),
                ps == ptrs(b),
                ptr_table_ok(b),
                n == ps.len(),
                offsets@ == ps,
                after.pos == bp,
                after.data@ == bb,
                after.wf(),
                0 <= i <= n,
                audio_groups@.len() == i,
                forall|j: int| 0 <= j < i ==> agrp_entry_ok(bp, bb, #[trigger] ps[j]),
                forall|j: int|
                    0 <= j < i ==> #[trigger] audio_groups@[j] == agrp_entry_at(bp, bb, ps[j]),
            decreases n - i,
        {
            let p = offsets[i];
            if (p as usize) < after.pos() {
                assert(!agrp_entry_ok(bp, bb, ps[i as int]));
                return Err(ParseErr::BadPointer);
            }
            let off = p as usize - after.pos();
            if off > after.len() {
                assert(!agrp_entry_ok(bp, bb, ps[i as int]));
                return Err(ParseErr::BadPointer);
            }
            let rec = after.offset(off);
            match le_u32(rec) {
                Ok((_, v)) => {
                    proof {
                        if rec.data@.len() < 4 {
                            assert(false);
                        }
                        assert(agrp_entry_ok(bp, bb, p));
                        assert(rec.data@.subrange(0, 4) =~= bb.subrange(p - bp, p - bp + 4));
                        assert(v == agrp_entry_at(bp, bb, p));
                    }
                    audio_groups.push(v);
                },
                Err(e) => {
                    assert(!agrp_entry_ok(bp, bb, ps[i as int]));
                    assert(e == agrp_entry_err(bp, bb, ps[i as int]));
                    return Err(e);
                },
            }
            i = i + 1;
        }
        let locations = build_locations(&offsets, 0);
        Ok((after, Agrp { audio_groups, locations }))
    }
}

} // verus!
