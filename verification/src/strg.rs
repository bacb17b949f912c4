use vstd::prelude::*;
use std::collections::HashMap;
use vstd::utf8::{decode_utf8, valid_utf8};
use crate::track_slice::PosSlice;
use crate::byte_parsers::spec_le32_at;
use crate::ptr_table::{
    build_locations, is_rev_index, loc_key, ptr_table_ok, ptrs, read_ptr_table, table_body,
    table_body_pos,
};
use crate::text::bytes_to_string;
use crate::audo::take_audo_entry;
use crate::ParseErr;

verus! {

broadcast use vstd::std_specs::hash::group_hash_axioms;

/// The string table, plus the reverse index. A string's pointer addresses
/// its length prefix; other sections refer to the byte right after it, so
/// the reverse index is keyed four bytes past each stored pointer.
#[derive(Debug)]
pub struct Strg {
    pub strings: Vec<String>,
    pub offsets: Vec<u32>,
    pub locations: HashMap<u32, usize>,
}

/// The record's raw character bytes: a `u32` length prefix at absolute
/// offset `p`, then that many bytes.
pub open spec fn strg_entry_bytes(pos: int, b: Seq<u8>, p: u32) -> Seq<u8> {
    b.subrange(p - pos + 4, p - pos + 4 + spec_le32_at(b, p - pos))
}

/// Pointer `p` resolves, the length prefix and payload fit, and the
/// payload is valid UTF-8.
pub open spec fn strg_entry_ok(pos: int, b: Seq<u8>, p: u32) -> bool {
    &&& pos <= p
    &&& p - pos + 4 <= b.len()
    &&& p - pos + 4 + spec_le32_at(b, p - pos) <= b.len()
    &&& valid_utf8(strg_entry_bytes(pos, b, p))
}

/// The decoded string at absolute offset `p`.
pub open spec fn strg_entry_str(pos: int, b: Seq<u8>, p: u32) -> Seq<char> {
    decode_utf8(strg_entry_bytes(pos, b, p))
}

/// `BadPointer` for an unresolvable offset, `Eof` for a truncated prefix
/// or payload, `BadEncoding` for text that is not UTF-8.
pub open spec fn strg_entry_err(pos: int, b: Seq<u8>, p: u32) -> ParseErr {
    if p < pos || p - pos > b.len() {
        ParseErr::BadPointer
    } else if p - pos + 4 > b.len() || p - pos + 4 + spec_le32_at(b, p - pos) > b.len() {
        ParseErr::Eof
    } else {
        ParseErr::BadEncoding
    }
}

impl Strg {
    /// Every reverse-index entry points inside `strings`, the stored
    /// pointer list matches the strings one for one, and looking a
    /// pointer up through the reverse index lands on an equal string.
    pub open spec fn wf(self) -> bool {
        &&& forall|k: u32|
            self.locations@.contains_key(k) ==> (#[trigger] self.locations@[k])
                < self.strings@.len()
        &&& self.offsets@.len() == self.strings@.len()
        &&& forall|j: int| 0 <= j < self.offsets@.len() ==> (#[trigger] self.offsets@[j]) + 4 <= u32::MAX
        &&& forall|j: int|
            0 <= j < self.offsets@.len() ==> self.locations@.contains_key(
                #[trigger] loc_key(self.offsets@, 4, j),
            )
        &&& forall|j: int|
            0 <= j < self.offsets@.len() ==> self.strings@[self.locations@[#[trigger] loc_key(
                self.offsets@,
                4,
                j,
            )] as int]@ == self.strings@[j]@
    }

    /// Decodes a STRG section payload: entry count, pointer list, one
    /// length-prefixed string at each absolute offset, and the reverse
    /// index keyed by pointer + 4. Succeeds exactly when the pointer list
    /// fits and every record resolves, fits and is valid UTF-8; the first
    /// failing record decides the error.
    pub fn take<'a>(input: PosSlice<'a>) -> (r: Result<(PosSlice<'a>, Strg), ParseErr>)
        requires
            input.wf32(),
        ensures
            ({
                let b = input.data@;
                let bp = table_body_pos(input.pos as int, b);
                let bb = table_body(b);
                let ps = ptrs(b);
                &&& (r matches Ok(t)) <==> (ptr_table_ok(b) && (forall|i: int|
                    0 <= i < ps.len() ==> strg_entry_ok(bp, bb, #[trigger] ps[i])))
                &&& !ptr_table_ok(b) ==> (r matches Err(e) && e == ParseErr::Eof)
                &&& ptr_table_ok(b) && (forall|i: int|
                    0 <= i < ps.len() ==> strg_entry_ok(bp, bb, #[trigger] ps[i])) ==> (r matches Ok(t)
                    && t.0.pos == bp && t.0.data@ == bb && t.1.strings@.len() == ps.len() && (forall|
                    i: int,
                |
                    0 <= i < ps.len() ==> (#[trigger] t.1.strings@[i])@ == strg_entry_str(
                        bp,
                        bb,
                        ps[i],
                    )) && is_rev_index(ps, 4, t.1.locations@) && t.1.offsets@ == ps && t.1.wf())
                &&& forall|i: int|
                    ptr_table_ok(b) && 0 <= i < ps.len() && !strg_entry_ok(bp, bb, #[trigger] ps[i])
                        && (forall|k: int| 0 <= k < i ==> strg_entry_ok(bp, bb, #[trigger] ps[k]))
                        ==> (r matches Err(e) && e == strg_entry_err(bp, bb, ps[i]))
            }),
    {
        let ghost b = input.data@;
        let ghost bp = table_body_pos(input.pos as int, b);
        let ghost bb = table_body(b);
        let ghost ps = ptrs(b);
        let (after, offsets) = read_ptr_table(input)?;
        let mut strings: Vec<String> = Vec::new();
        let n = offsets.len();
        let mut i: usize = 0;
        while i < n
            invariant
                b == input.data@,
                input.wf32(),
                bp == table_body_pos(input.pos as int, b),
                bb == table_body(b),
                ps == ptrs(b),
                ptr_table_ok(b),
                n == ps.len(),
                offsets@ == ps,
                after.pos == bp,
                after.data@ == bb,
                after.wf(),
                0 <= i <= n,
                strings@.len() == i,
                forall|j: int| 0 <= j < i ==> strg_entry_ok(bp, bb, #[trigger] ps[j]),
                forall|j: int|
                    0 <= j < i ==> (#[trigger] strings@[j])@ == strg_entry_str(bp, bb, ps[j]),
            decreases n - i,
        {
            let p = offsets[i];
            if (p as usize) < after.pos() {
                assert(!strg_entry_ok(bp, bb, ps[i as int]));
                return Err(ParseErr::BadPointer);
            }
            let off = p as usize - after.pos();
            if off > after.len() {
                assert(!strg_entry_ok(bp, bb, ps[i as int]));
                return Err(ParseErr::BadPointer);
            }
            let rec = after.offset(off);
            let raw = match take_audo_entry(rec) {
                Ok((_, raw)) => raw,
                Err(e) => {
                    proof {
                        let c = rec.data@;
                        if c.len() >= 4 {
                            assert(c.subrange(0, 4) =~= bb.subrange(p - bp, p - bp + 4));
                            assert(spec_le32_at(c, 0) == spec_le32_at(bb, p - bp));
                        }
                        assert(!strg_entry_ok(bp, bb, ps[i as int]));
                        assert(e == strg_entry_err(bp, bb, ps[i as int]));
                    }
                    return Err(e);
                },
            };
            proof {
                let c = rec.data@;
                if !(c.len() >= 4 && 4 + spec_le32_at(c, 0) <= c.len()) {
                    assert(false);
                }
                assert(c.subrange(0, 4) =~= bb.subrange(p - bp, p - bp + 4));
                assert(spec_le32_at(c, 0) == spec_le32_at(bb, p - bp));
                assert(c.subrange(4, 4 + spec_le32_at(c, 0)) =~= strg_entry_bytes(bp, bb, p));
            }
            match bytes_to_string(raw) {
                Some(s) => {
                    strings.push(s);
                },
                None => {
                    assert(!strg_entry_ok(bp, bb, ps[i as int]));
                    assert(strg_entry_err(bp, bb, ps[i as int]) == ParseErr::BadEncoding);
                    return Err(ParseErr::BadEncoding);
                },
            }
            i = i + 1;
        }
        proof {
            assert forall|j: int| 0 <= j < ps.len() implies ps[j] + 4 <= u32::MAX by {
                assert(strg_entry_ok(bp, bb, ps[j]));
            }
        }
        let locations = build_locations(&offsets, 4);
        let strg = Strg { strings, offsets, locations };
        proof {
            assert forall|k: u32| strg.locations@.contains_key(k) implies (
            #[trigger] strg.locations@[k]) < strg.strings@.len() by {
                let j = choose|j: int| 0 <= j < ps.len() && k == loc_key(ps, 4, j);
                crate::ptr_table::lemma_first_occ_props(ps, ps[j]);
            }
            assert forall|j: int| 0 <= j < strg.offsets@.len() implies strg.strings@[strg.locations@[
                #[trigger] loc_key(strg.offsets@, 4, j)
            ] as int]@ == strg.strings@[j]@ by {
                crate::ptr_table::lemma_first_occ_props(ps, ps[j]);
                let f = crate::ptr_table::first_occ(ps, ps[j]);
                assert(strg.strings@[f]@ == strg_entry_str(bp, bb, ps[f]));
                assert(ps[f] == ps[j]);
            }
        }
        Ok((after, strg))
    }

    /// Looks up a string by the raw pointer value another section stored
    /// (the address just past the length prefix): `Some` exactly when the
    /// offset is a key of the reverse index.
    pub fn get(&self, loc: u32) -> (r: Option<&String>)
        requires
            self.wf(),
        ensures
            r is Some <==> self.locations@.contains_key(loc),
            r matches Some(v) ==> v@ == self.strings@[self.locations@[loc] as int]@,
    {
        match self.locations.get(&loc) {
            Some(idx) => Some(&self.strings[*idx]),
            None => None,
        }
    }
}

} // verus!
