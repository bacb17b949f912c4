use vstd::prelude::*;
use std::collections::HashMap;
use crate::track_slice::PosSlice;
use crate::byte_parsers::{spec_le32_at, u32_at};
use crate::ptr_table::{
    build_locations, is_rev_index, ptr_table_ok, ptrs, read_ptr_table, table_body, table_body_pos,
};
use crate::ParseErr;

verus! {

broadcast use vstd::std_specs::hash::group_hash_axioms;

/// The texture-atlas-page table: per-page metadata plus the PNG-encoded
/// page bytes, the absolute file offset at which the section's chunk
/// began (rewriting can shift it), and the reverse index.
#[derive(Debug)]
pub struct Txtr {
    pub offset: u32,
    pub files: Vec<TxtrEntry>,
    pub locations: HashMap<u32, usize>,
}

/// One atlas page: two metadata words and the page's PNG bytes. The
/// stored record holds a third word, the absolute offset of those bytes;
/// a page's bytes run to the next page's offset, the last page's to the
/// end of the section.
#[derive(Debug)]
pub struct TxtrEntry {
    pub unk1: u32,
    pub unk2: u32,
    pub png: Vec<u8>,
}

/// Pointer `p` resolves against the view at `pos` and a full 12-byte
/// metadata record fits.
pub open spec fn txtr_meta_ok(pos: int, b: Seq<u8>, p: u32) -> bool {
    pos <= p && p - pos + 12 <= b.len()
}

/// `BadPointer` when the offset resolves before the view or past its
/// end, `Eof` when the metadata record is truncated.
pub open spec fn txtr_meta_err(pos: int, b: Seq<u8>, p: u32) -> ParseErr {
    if p < pos || p - pos > b.len() {
        ParseErr::BadPointer
    } else {
        ParseErr::Eof
    }
}

/// The absolute offset of the page bytes, the record's third word.
pub open spec fn txtr_png_ptr(pos: int, b: Seq<u8>, p: u32) -> u32 {
    spec_le32_at(b, p - pos + 8)
}

/// Where page `i`'s bytes start within the view.
pub open spec fn txtr_png_start(pos: int, b: Seq<u8>, ps: Seq<u32>, i: int) -> int {
    txtr_png_ptr(pos, b, ps[i]) - pos
}

/// Where page `i`'s bytes end: the next page's start, or the end of the
/// section for the last page.
pub open spec fn txtr_png_end(pos: int, b: Seq<u8>, ps: Seq<u32>, i: int) -> int {
    if i + 1 < ps.len() {
        txtr_png_start(pos, b, ps, i + 1)
    } else {
        b.len() as int
    }
}

/// The page offsets all resolve, run in file order, and stay inside the
/// section.
pub open spec fn txtr_pngs_ok(pos: int, b: Seq<u8>, ps: Seq<u32>) -> bool {
    &&& forall|i: int| 0 <= i < ps.len() ==> pos <= txtr_png_ptr(pos, b, #[trigger] ps[i])
    &&& forall|i: int|
        0 <= i < ps.len() - 1 ==> #[trigger] txtr_png_start(pos, b, ps, i) <= txtr_png_start(
            pos,
            b,
            ps,
            i + 1,
        )
    &&& ps.len() > 0 ==> txtr_png_start(pos, b, ps, ps.len() - 1) <= b.len()
}

/// Page `i`'s PNG bytes.
pub open spec fn txtr_png_at(pos: int, b: Seq<u8>, ps: Seq<u32>, i: int) -> Seq<u8> {
    b.subrange(txtr_png_start(pos, b, ps, i), txtr_png_end(pos, b, ps, i))
}

proof fn lemma_mono_chain(pos: int, b: Seq<u8>, ps: Seq<u32>, i: int, j: int)
    requires
        txtr_pngs_ok(pos, b, ps),
        0 <= i <= j < ps.len(),
    ensures
        txtr_png_start(pos, b, ps, i) <= txtr_png_start(pos, b, ps, j),
    decreases j - i,
{
    if i < j {
        lemma_mono_chain(pos, b, ps, i + 1, j);
    }
}

impl Txtr {
    /// Every reverse-index entry points inside `files`.
    pub open spec fn wf(self) -> bool {
        forall|k: u32|
            self.locations@.contains_key(k) ==> (#[trigger] self.locations@[k]) < self.files@.len()
    }

    /// Decodes a TXTR section payload: entry count, pointer list, one
    /// 12-byte metadata record at each absolute offset, the PNG bytes
    /// each record's third word points at, and the reverse index.
    /// `input` must sit just past the section's 8-byte chunk header,
    /// which is where the stored `offset` field points. Succeeds exactly
    /// when the pointer list fits, every metadata record resolves and
    /// fits, and the page offsets resolve in file order within the
    /// section.
    #[verifier::rlimit(100)]
    #[verifier::spinoff_prover]
    pub fn take<'a>(input: PosSlice<'a>) -> (r: Result<(PosSlice<'a>, Txtr), ParseErr>)
        requires
            input.wf32(),
            input.pos >= 8,
        ensures
            ({
                let b = input.data@;
                let bp = table_body_pos(input.pos as int, b);
                let bb = table_body(b);
                let ps = ptrs(b);
                &&& (r matches Ok(t)) <==> (ptr_table_ok(b) && (forall|i: int|
                    0 <= i < ps.len() ==> txtr_meta_ok(bp, bb, #[trigger] ps[i])) && txtr_pngs_ok(bp, bb, ps))
                &&& !ptr_table_ok(b) ==> (r matches Err(e) && e == ParseErr::Eof)
                &&& ptr_table_ok(b) && (forall|i: int|
                    0 <= i < ps.len() ==> txtr_meta_ok(bp, bb, #[trigger] ps[i])) && txtr_pngs_ok(
                    bp,
                    bb,
                    ps,
                ) ==> (r matches Ok(t) && t.0.pos == bp && t.0.data@ == bb && t.1.offset == input.pos
                    - 8 && t.1.files@.len() == ps.len() && (forall|i: int|
                    0 <= i < ps.len() ==> (#[trigger] t.1.files@[i]).unk1 == spec_le32_at(
                        bb,
                        ps[i] - bp,
                    ) && t.1.files@[i].unk2 == spec_le32_at(bb, ps[i] - bp + 4)
                        && t.1.files@[i].png@ == txtr_png_at(bp, bb, ps, i)) && is_rev_index(
                    ps,
                    0,
                    t.1.locations@,
                ) && t.1.wf())
                &&& forall|i: int|
                    ptr_table_ok(b) && 0 <= i < ps.len() && !txtr_meta_ok(bp, bb, #[trigger] ps[i])
                        && (forall|k: int| 0 <= k < i ==> txtr_meta_ok(bp, bb, #[trigger] ps[k]))
                        ==> (r matches Err(e) && e == txtr_meta_err(bp, bb, ps[i]))
                &&& ptr_table_ok(b) && (forall|i: int|
                    0 <= i < ps.len() ==> txtr_meta_ok(bp, bb, #[trigger] ps[i])) && !txtr_pngs_ok(
                    bp,
                    bb,
                    ps,
                ) ==> (r matches Err(e) && e == ParseErr::BadPointer)
            }),
    {
        let ghost b = input.data@;
        let ghost bp = table_body_pos(input.pos as int, b);
        let ghost bb = table_body(b);
        let ghost ps = ptrs(b);
        let offset = input.pos() as u32 - 8;
        let (after, offsets) = read_ptr_table(input)?;
        let n = offsets.len();
        let mut unk1s: Vec<u32> = Vec::new();
        let mut unk2s: Vec<u32> = Vec::new();
        let mut pptrs: Vec<u32> = Vec::new();
        let mut i: usize = 0;
        while i < n
            invariant
                b == input.data@,
                bp == table_body_pos(input.pos as int, b),
                bb == table_body(b),
                ps == ptrs(b),
                ptr_table_ok(b),
                n == ps.len(),
                offsets@ == ps,
                after.pos == bp,
                after.data@ == bb,
                after.wf(),
                0 <= i <= n,
                unk1s@.len() == i,
                unk2s@.len() == i,
                pptrs@.len() == i,
                forall|j: int| 0 <= j < i ==> txtr_meta_ok(bp, bb, #[trigger] ps[j]),
                forall|j: int|
                    0 <= j < i ==> #[trigger] unk1s@[j] == spec_le32_at(bb, ps[j] - bp),
                forall|j: int|
                    0 <= j < i ==> #[trigger] unk2s@[j] == spec_le32_at(bb, ps[j] - bp + 4),
                forall|j: int| 0 <= j < i ==> #[trigger] pptrs@[j] == txtr_png_ptr(bp, bb, ps[j]),
            decreases n - i,
        {
            let p = offsets[i];
            if (p as usize) < after.pos() {
                assert(!txtr_meta_ok(bp, bb, ps[i as int]));
                return Err(ParseErr::BadPointer);
            }
            let off = p as usize - after.pos();
            if off > after.len() {
                assert(!txtr_meta_ok(bp, bb, ps[i as int]));
                return Err(ParseErr::BadPointer);
            }
            if after.len() - off < 12 {
                assert(!txtr_meta_ok(bp, bb, ps[i as int]));
                assert(txtr_meta_err(bp, bb, ps[i as int]) == ParseErr::Eof);
                return Err(ParseErr::Eof);
            }
            let rec = after.offset(off);
            let u1 = u32_at(rec, 0);
            let u2 = u32_at(rec, 4);
            let pp = u32_at(rec, 8);
            proof {
                assert(txtr_meta_ok(bp, bb, p));
                assert(rec.data@.subrange(0, 4) =~= bb.subrange(p - bp, p - bp + 4));
                assert(rec.data@.subrange(4, 8) =~= bb.subrange(p - bp + 4, p - bp + 8));
                assert(rec.data@.subrange(8, 12) =~= bb.subrange(p - bp + 8, p - bp + 12));
            }
            unk1s.push(u1);
            unk2s.push(u2);
            pptrs.push(pp);
            i = i + 1;
        }
        // Validate the page offsets: in range and in file order.
        let mut i: usize = 0;
        while i < n
            invariant
                b == input.data@,
                bp == table_body_pos(input.pos as int, b),
                bb == table_body(b),
                ps == ptrs(b),
                ptr_table_ok(b),
                n == ps.len(),
                after.pos == bp,
                after.data@ == bb,
                after.wf(),
                pptrs@.len() == n,
                0 <= i <= n,
                forall|j: int| 0 <= j < n ==> txtr_meta_ok(bp, bb, #[trigger] ps[j]),
                forall|j: int| 0 <= j < n ==> #[trigger] pptrs@[j] == txtr_png_ptr(bp, bb, ps[j]),
                forall|j: int| 0 <= j < i ==> bp <= txtr_png_ptr(bp, bb, #[trigger] ps[j]),
                forall|j: int|
                    0 <= j < i - 1 ==> #[trigger] txtr_png_start(bp, bb, ps, j) <= txtr_png_start(
                        bp,
                        bb,
                        ps,
                        j + 1,
                    ),
            decreases n - i,
        {
            let pp = pptrs[i];
            if (pp as usize) < after.pos() {
                assert(!txtr_pngs_ok(bp, bb, ps));
                return Err(ParseErr::BadPointer);
            }
            if i > 0 && pptrs[i - 1] > pp {
                assert(txtr_png_start(bp, bb, ps, i - 1) > txtr_png_start(bp, bb, ps, i as int));
                assert(!txtr_pngs_ok(bp, bb, ps));
                return Err(ParseErr::BadPointer);
            }
            i = i + 1;
        }
        if n > 0 {
            let last = pptrs[n - 1];
            if last as usize - after.pos() > after.len() {
                assert(!txtr_pngs_ok(bp, bb, ps));
                return Err(ParseErr::BadPointer);
            }
        }
        assert(txtr_pngs_ok(bp, bb, ps));
        // Cut each page's bytes out of the section.
        let mut files: Vec<TxtrEntry> = Vec::new();
        let mut i: usize = 0;
        while i < n
            invariant
                b == input.data@,
                bp == table_body_pos(input.pos as int, b),
                bb == table_body(b),
                ps == ptrs(b),
                ptr_table_ok(b),
                txtr_pngs_ok(bp, bb, ps),
                n == ps.len(),
                after.pos == bp,
                after.data@ == bb,
                after.wf(),
                unk1s@.len() == n,
                unk2s@.len() == n,
                pptrs@.len() == n,
                0 <= i <= n,
                files@.len() == i,
                forall|j: int| 0 <= j < n ==> txtr_meta_ok(bp, bb, #[trigger] ps[j]),
                forall|j: int|
                    0 <= j < n ==> #[trigger] unk1s@[j] == spec_le32_at(bb, ps[j] - bp),
                forall|j: int|
                    0 <= j < n ==> #[trigger] unk2s@[j] == spec_le32_at(bb, ps[j] - bp + 4),
                forall|j: int| 0 <= j < n ==> #[trigger] pptrs@[j] == txtr_png_ptr(bp, bb, ps[j]),
                forall|j: int|
                    0 <= j < i ==> (#[trigger] files@[j]).unk1 == spec_le32_at(bb, ps[j] - bp)
                        && files@[j].unk2 == spec_le32_at(bb, ps[j] - bp + 4) && files@[j].png@
                        == txtr_png_at(bp, bb, ps, j),
            decreases n - i,
        {
            let start = pptrs[i] as usize - after.pos();
            let end = if i + 1 < n {
                pptrs[i + 1] as usize - after.pos()
            } else {
                after.len()
            };
            proof {
                lemma_mono_chain(bp, bb, ps, i as int, n - 1 as int);
                if i + 1 < n {
                    lemma_mono_chain(bp, bb, ps, i + 1 as int, n - 1 as int);
                }
                assert(start as int == txtr_png_start(bp, bb, ps, i as int));
                assert(end as int == txtr_png_end(bp, bb, ps, i as int));
            }
            let png = vstd::slice::slice_to_vec(
                vstd::slice::slice_subrange(after.data, start, end),
            );
            files.push(TxtrEntry { unk1: unk1s[i], unk2: unk2s[i], png });
            i = i + 1;
        }
        let locations = build_locations(&offsets, 0);
        let txtr = Txtr { offset, files, locations };
        proof {
            assert forall|k: u32| txtr.locations@.contains_key(k) implies (
            #[trigger] txtr.locations@[k]) < txtr.files@.len() by {
                let j = choose|j: int|
                    0 <= j < ps.len() && k == crate::ptr_table::loc_key(ps, 0, j);
                crate::ptr_table::lemma_first_occ_props(ps, ps[j]);
            }
        }
        Ok((after, txtr))
    }

    /// Looks up a page's PNG bytes by the raw pointer value another
    /// section stored: `Some` exactly when the offset is a key of the
    /// reverse index.
    pub fn get(&self, loc: u32) -> (r: Option<&Vec<u8>>)
        requires
            self.wf(),
        ensures
            r is Some <==> self.locations@.contains_key(loc),
            r matches Some(v) ==> v@ == self.files@[self.locations@[loc] as int].png@,
    {
        match self.locations.get(&loc) {
            Some(idx) => Some(&self.files[*idx].png),
            None => None,
        }
    }
}

} // verus!
