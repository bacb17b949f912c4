use vstd::prelude::*;
use std::collections::HashMap;
use crate::track_slice::PosSlice;
use crate::byte_parsers::{le_u32, spec_le32_at};
use crate::ptr_table::{
    build_locations, is_rev_index, ptr_table_ok, ptrs, read_ptr_table, table_body, table_body_pos,
};
use crate::ParseErr;

verus! {

broadcast use vstd::std_specs::hash::group_hash_axioms;

/// An audio-blob store: one raw payload buffer per record, the absolute
/// file offset at which the section's chunk began (rewriting can shift
/// it), and the reverse index from stored pointer to record position.
#[derive(Debug)]
pub struct Audo {
    pub offset: u32,
    pub files: Vec<Vec<u8>>,
    pub locations: HashMap<u32, usize>,
}

/// Pointer `p` resolves against the view at `pos`, the length prefix
/// fits, and the self-declared payload fits.
pub open spec fn audo_entry_ok(pos: int, b: Seq<u8>, p: u32) -> bool {
    &&& pos <= p
    &&& p - pos + 4 <= b.len()
    &&& p - pos + 4 + spec_le32_at(b, p - pos) <= b.len()
}

/// The payload bytes of the record at absolute offset `p`: the bytes
/// after its 4-byte length prefix.
pub open spec fn audo_entry_at(pos: int, b: Seq<u8>, p: u32) -> Seq<u8> {
    b.subrange(p - pos + 4, p - pos + 4 + spec_le32_at(b, p - pos))
}

/// `BadPointer` when the offset resolves before the view or past its end,
/// `Eof` when the prefix or payload is truncated.
pub open spec fn audo_entry_err(pos: int, b: Seq<u8>, p: u32) -> ParseErr {
    if p < pos || p - pos > b.len() {
        ParseErr::BadPointer
    } else {
        ParseErr::Eof
    }
}

/// Reads one audio record from the front of the view: a `u32` length
/// prefix, then that many payload bytes.
pub fn take_audo_entry<'a>(input: PosSlice<'a>) -> (r: Result<(PosSlice<'a>, Vec<u8>), ParseErr>)
    requires
        input.wf(),
    ensures
        ({
            let b = input.data@;
            &&& b.len() >= 4 && 4 + spec_le32_at(b, 0) <= b.len() ==> (r matches Ok(t) && t.1@
                == b.subrange(4, 4 + spec_le32_at(b, 0)) && t.0.pos == input.pos + 4 + spec_le32_at(
                b,
                0,
            ) && t.0.data@ == b.skip(4 + spec_le32_at(b, 0)) && t.0.wf())
            &&& !(b.len() >= 4 && 4 + spec_le32_at(b, 0) <= b.len()) ==> (r matches Err(e) && e
                == ParseErr::Eof)
        }),
{
    let (after, size) = le_u32(input)?;
    let size = size as usize;
    if after.len() < size {
        return Err(ParseErr::Eof);
    }
    let payload = vstd::slice::slice_to_vec(vstd::slice::slice_subrange(after.data, 0, size));
    let rest = after.offset(size);
    proof {
        let b = input.data@;
        assert(payload@ =~= b.subrange(4, 4 + spec_le32_at(b, 0)));
        assert(rest.data@ =~= b.skip(4 + spec_le32_at(b, 0)));
    }
    Ok((rest, payload))
}

impl Audo {
    /// Every reverse-index entry points inside `files`.
    pub open spec fn wf(self) -> bool {
        forall|k: u32|
            self.locations@.contains_key(k) ==> (#[trigger] self.locations@[k]) < self.files@.len()
    }

    /// Decodes an AUDO section payload: entry count, pointer list, one
    /// length-prefixed blob at each absolute offset, and the reverse
    /// index. `input` must sit just past the section's 8-byte chunk
    /// header, which is where the stored `offset` field points.
    /// Succeeds exactly when the pointer list fits and every record
    /// resolves and fits; the first failing record decides the error.
    pub fn take<'a>(input: PosSlice<'a>) -> (r: Result<(PosSlice<'a>, Audo), ParseErr>)
        requires
            input.wf32(),
            input.pos >= 8,
        ensures
            ({
                let b = input.data@;
                let bp = table_body_pos(input.pos as int, b);
                let bb = table_body(b);
                let ps = ptrs(b);
                &&& (r matches Ok(t)) <==> (ptr_table_ok(b) && (forall|i: int|
                    0 <= i < ps.len() ==> audo_entry_ok(bp, bb, #[trigger] ps[i])))
                &&& !ptr_table_ok(b) ==> (r matches Err(e) && e == ParseErr::Eof)
                &&& ptr_table_ok(b) && (forall|i: int|
                    0 <= i < ps.len() ==> audo_entry_ok(bp, bb, #[trigger] ps[i])) ==> (r matches Ok(t)
                    && t.0.pos == bp && t.0.data@ == bb && t.1.offset == input.pos - 8
                    && t.1.files@.len() == ps.len() && (forall|i: int|
                    0 <= i < ps.len() ==> (#[trigger] t.1.files@[i])@ == audo_entry_at(bp, bb, ps[i]))
                    && is_rev_index(ps, 0, t.1.locations@) && t.1.wf())
                &&& forall|i: int|
                    ptr_table_ok(b) && 0 <= i < ps.len() && !audo_entry_ok(bp, bb, #[trigger] ps[i])
                        && (forall|k: int| 0 <= k < i ==> audo_entry_ok(bp, bb, #[trigger] ps[k]))
                        ==> (r matches Err(e) && e == audo_entry_err(bp, bb, ps[i]))
            }),
    {
        let ghost b = input.data@;
        let ghost bp = table_body_pos(input.pos as int, b);
        let ghost bb = table_body(b);
        let ghost ps = ptrs(b);
        let offset = input.pos() as u32 - 8;
        let (after, offsets) = read_ptr_table(input)?;
        let mut files: Vec<Vec<u8>> = Vec::new();
        let n = offsets.len();
        let mut i: usize = 0;
        while i < n
            invariant
                b == input.data@,
                bp == table_body_pos(input.pos as int, b),
                bb == table_body(b),
                ps == ptrs(b),
                ptr_table_ok(b),
                n == ps.len(),
                offsets@ == ps,
                after.pos == bp,
                after.data@ == bb,
                after.wf(),
                0 <= i <= n,
                files@.len() == i,
                forall|j: int| 0 <= j < i ==> audo_entry_ok(bp, bb, #[trigger] ps[j]),
                forall|j: int|
                    0 <= j < i ==> (#[trigger] files@[j])@ == audo_entry_at(bp, bb, ps[j]),
            decreases n - i,
        {
            let p = offsets[i];
            if (p as usize) < after.pos() {
                assert(!audo_entry_ok(bp, bb, ps[i as int]));
                return Err(ParseErr::BadPointer);
            }
            let off = p as usize - after.pos();
            if off > after.len() {
                assert(!audo_entry_ok(bp, bb, ps[i as int]));
                return Err(ParseErr::BadPointer);
            }
            let rec = after.offset(off);
            match take_audo_entry(rec) {
                Ok((_, payload)) => {
                    proof {
                        let c = rec.data@;
                        if !(c.len() >= 4 && 4 + spec_le32_at(c, 0) <= c.len()) {
                            assert(false);
                        }
                        assert(c.subrange(0, 4) =~= bb.subrange(p - bp, p - bp + 4));
                        assert(spec_le32_at(c, 0) == spec_le32_at(bb, p - bp));
                        assert(audo_entry_ok(bp, bb, p));
                        assert(c.subrange(4, 4 + spec_le32_at(c, 0)) =~= audo_entry_at(bp, bb, p));
                    }
                    files.push(payload);
                },
                Err(e) => {
                    proof {
                        let c = rec.data@;
                        if c.len() >= 4 {
                            assert(c.subrange(0, 4) =~= bb.subrange(p - bp, p - bp + 4));
                            assert(spec_le32_at(c, 0) == spec_le32_at(bb, p - bp));
                        }
                        assert(!audo_entry_ok(bp, bb, ps[i as int]));
                        assert(e == audo_entry_err(bp, bb, ps[i as int]));
                    }
                    return Err(e);
                },
            }
            i = i + 1;
        }
        let locations = build_locations(&offsets, 0);
        let audo = Audo { offset, files, locations };
        proof {
            assert forall|k: u32| audo.locations@.contains_key(k) implies (
            #[trigger] audo.locations@[k]) < audo.files@.len() by {
                let j = choose|j: int|
                    0 <= j < ps.len() && k == crate::ptr_table::loc_key(ps, 0, j);
                crate::ptr_table::lemma_first_occ_props(ps, ps[j]);
            }
        }
        Ok((after, audo))
    }

    /// Looks up a blob by the raw pointer value another section stored:
    /// `Some` exactly when the offset is a key of the reverse index.
    pub fn get(&self, loc: u32) -> (r: Option<&Vec<u8>>)
        requires
            self.wf(),
        ensures
            r is Some <==> self.locations@.contains_key(loc),
            r matches Some(v) ==> v@ == self.files@[self.locations@[loc] as int]@,
    {
        match self.locations.get(&loc) {
            Some(idx) => Some(&self.files[*idx]),
            None => None,
        }
    }
}

} // verus!
