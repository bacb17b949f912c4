use vstd::prelude::*;
use std::collections::HashMap;
use crate::track_slice::PosSlice;
use crate::byte_parsers::{spec_le16_at, spec_le32_at, u16_at, u32_at};
use crate::ptr_table::{
    build_locations, is_rev_index, ptr_table_ok, ptrs, read_ptr_table, table_body, table_body_pos,
};
use crate::tpag::{point16_spec, rect16_spec, Point16, Rect16};
use crate::text::char_from_u16;
use crate::ParseErr;

verus! {

broadcast use vstd::std_specs::hash::group_hash_axioms, vstd::seq::group_seq_axioms;

/// The font table, plus the reverse index from stored pointer to record
/// position.
#[derive(Debug)]
pub struct Font {
    pub fonts: Vec<FontEntry>,
    pub locations: HashMap<u32, usize>,
}

/// One glyph: its character, its rectangle on the font's atlas region,
/// and its drawing origin.
#[derive(Debug, Clone, Copy)]
pub struct FontChar {
    pub character: char,
    pub bounds: Rect16,
    pub origin: Point16,
}

/// One font record. `size_bits` and `unk2_bits` carry the raw bits of
/// the stored 32-bit floats, preserved for byte fidelity. The glyphs sit
/// in a nested indirected table after the 44-byte head.
#[derive(Debug)]
pub struct FontEntry {
    pub name: u32,
    pub font_name: u32,
    pub size_bits: u32,
    pub unk: (u32, u32, u32, u32),
    pub entire_font_tpag: u32,
    pub unk2_bits: (u32, u32),
    pub unk3: u32,
    pub chars: Vec<FontChar>,
}

/// Glyph pointer `q` resolves against the view at `pos2`, a 14-byte
/// record fits, and its code unit is not a lone surrogate.
pub open spec fn font_char_ok(pos2: int, b2: Seq<u8>, q: u32) -> bool {
    &&& pos2 <= q
    &&& q - pos2 + 14 <= b2.len()
    &&& !(0xD800 <= spec_le16_at(b2, q - pos2) < 0xE000)
}

/// `BadPointer` for an unresolvable glyph offset, `Eof` for a truncated
/// glyph record, `BadEncoding` for a surrogate code unit.
pub open spec fn font_char_err(pos2: int, b2: Seq<u8>, q: u32) -> ParseErr {
    if q < pos2 || q - pos2 > b2.len() {
        ParseErr::BadPointer
    } else if q - pos2 + 14 > b2.len() {
        ParseErr::Eof
    } else {
        ParseErr::BadEncoding
    }
}

/// `ch` holds exactly the glyph stored at the front of `c2`.
pub open spec fn font_char_matches(ch: FontChar, c2: Seq<u8>) -> bool {
    &&& ch.character as u32 == spec_le16_at(c2, 0) as u32
    &&& ch.bounds == rect16_spec(c2, 2)
    &&& ch.origin == point16_spec(c2, 10)
}

/// The nested glyph table: everything in the record after the 44-byte
/// head, starting with the glyph count.
pub open spec fn font_inner(c: Seq<u8>) -> Seq<u8> {
    c.skip(44)
}

/// The glyph pointer list of the record.
pub open spec fn font_char_ptrs(c: Seq<u8>) -> Seq<u32> {
    ptrs(font_inner(c))
}

/// Absolute position of the first byte after the glyph pointer list of a
/// record that starts at absolute position `cp`.
pub open spec fn font_chars_pos(cp: int, c: Seq<u8>) -> int {
    table_body_pos(cp + 44, font_inner(c))
}

/// The bytes after the glyph pointer list.
pub open spec fn font_chars_body(c: Seq<u8>) -> Seq<u8> {
    table_body(font_inner(c))
}

/// The record's head fits, its glyph table fits, and every glyph
/// resolves, fits and is a character.
pub open spec fn font_rec_ok(cp: int, c: Seq<u8>) -> bool {
    &&& c.len() >= 48
    &&& ptr_table_ok(font_inner(c))
    &&& forall|i: int|
        0 <= i < font_char_ptrs(c).len() ==> font_char_ok(
            font_chars_pos(cp, c),
            font_chars_body(c),
            #[trigger] font_char_ptrs(c)[i],
        )
}

/// The error of the first failing glyph.
pub open spec fn font_chars_err(pos2: int, b2: Seq<u8>, qs: Seq<u32>, i: int) -> ParseErr
    decreases qs.len() - i,
{
    if i < 0 || i >= qs.len() {
        ParseErr::Eof
    } else if !font_char_ok(pos2, b2, qs[i]) {
        font_char_err(pos2, b2, qs[i])
    } else {
        font_chars_err(pos2, b2, qs, i + 1)
    }
}

/// Why decoding the record that starts at absolute position `cp` fails:
/// `Eof` for a truncated head or glyph table, otherwise the first
/// failing glyph's error.
pub open spec fn font_rec_err(cp: int, c: Seq<u8>) -> ParseErr {
    if c.len() < 48 || !ptr_table_ok(font_inner(c)) {
        ParseErr::Eof
    } else {
        font_chars_err(font_chars_pos(cp, c), font_chars_body(c), font_char_ptrs(c), 0)
    }
}

/// `e` holds exactly the record stored at absolute position `cp`, its
/// glyphs in pointer-list order.
pub open spec fn font_rec_matches(e: FontEntry, cp: int, c: Seq<u8>) -> bool {
    &&& e.name == spec_le32_at(c, 0)
    &&& e.font_name == spec_le32_at(c, 4)
    &&& e.size_bits == spec_le32_at(c, 8)
    &&& e.unk == (
        spec_le32_at(c, 12),
        spec_le32_at(c, 16),
        spec_le32_at(c, 20),
        spec_le32_at(c, 24),
    )
    &&& e.entire_font_tpag == spec_le32_at(c, 28)
    &&& e.unk2_bits == (spec_le32_at(c, 32), spec_le32_at(c, 36))
    &&& e.unk3 == spec_le32_at(c, 40)
    &&& e.chars@.len() == font_char_ptrs(c).len()
    &&& forall|i: int|
        0 <= i < font_char_ptrs(c).len() ==> font_char_matches(
            #[trigger] e.chars@[i],
            font_chars_body(c).skip(font_char_ptrs(c)[i] - font_chars_pos(cp, c)),
        )
}

/// Pointer `p` resolves against the view at `pos` and the record there,
/// glyph table included, decodes.
pub open spec fn font_entry_ok(pos: int, b: Seq<u8>, p: u32) -> bool {
    pos <= p && p - pos <= b.len() && font_rec_ok(p as int, b.skip(p - pos))
}

/// `BadPointer` for an unresolvable record offset, otherwise whatever
/// made the record itself fail.
pub open spec fn font_entry_err(pos: int, b: Seq<u8>, p: u32) -> ParseErr {
    if p < pos || p - pos > b.len() {
        ParseErr::BadPointer
    } else {
        font_rec_err(p as int, b.skip(p - pos))
    }
}

proof fn lemma_font_chars_err_at(pos2: int, b2: Seq<u8>, qs: Seq<u32>, j: int, i: int)
    requires
        0 <= j <= i < qs.len(),
        forall|k: int| j <= k < i ==> font_char_ok(pos2, b2, #[trigger] qs[k]),
        !font_char_ok(pos2, b2, qs[i]),
    ensures
        font_chars_err(pos2, b2, qs, j) == font_char_err(pos2, b2, qs[i]),
    decreases i - j,
{
    if j < i {
        lemma_font_chars_err_at(pos2, b2, qs, j + 1, i);
    }
}

/// Appends one glyph; spelling the whole effect out here keeps the
/// decoding loop's invariants direct.
fn push_char(v: &mut Vec<FontChar>, c: FontChar)
    ensures
        final(v)@ == old(v)@.push(c),
        final(v)@.len() == old(v)@.len() + 1,
        final(v)@[old(v)@.len() as int] == c,
        forall|j: int| 0 <= j < old(v)@.len() ==> #[trigger] final(v)@[j] == old(v)@[j],
{
    v.push(c);
}

impl FontEntry {
    /// Reads one font record: the 44-byte head, then the nested glyph
    /// table — count, pointer list, glyphs — whose pointers are absolute
    /// file offsets. The record starts at the view's own absolute
    /// position.
    pub fn take<'a>(input: PosSlice<'a>) -> (r: Result<(PosSlice<'a>, FontEntry), ParseErr>)
        requires
            input.wf(),
        ensures
            font_rec_ok(input.pos as int, input.data@) ==> (r matches Ok(t) && font_rec_matches(
                t.1,
                input.pos as int,
                input.data@,
            )),
            !font_rec_ok(input.pos as int, input.data@) ==> (r matches Err(e) && e == font_rec_err(
                input.pos as int,
                input.data@,
            )),
    {
        let ghost c = input.data@;
        let ghost cp = input.pos as int;
        if input.len() < 48 {
            return Err(ParseErr::Eof);
        }
        let inner = input.offset(44);
        let ghost pos2 = font_chars_pos(cp, c);
        let ghost b2 = font_chars_body(c);
        let ghost qs = font_char_ptrs(c);
        let (after2, offsets2) = read_ptr_table(inner)?;
        let mut chars: Vec<FontChar> = Vec::new();
        let m = offsets2.len();
        let mut k: usize = 0;
        while k < m
            invariant
                c == input.data@,
                cp == input.pos as int,
                c.len() >= 48,
                pos2 == font_chars_pos(cp, c),
                b2 == font_chars_body(c),
                qs == font_char_ptrs(c),
                ptr_table_ok(font_inner(c)),
                m == qs.len(),
                offsets2@ == qs,
                after2.pos == pos2,
                after2.data@ == b2,
                after2.wf(),
                0 <= k <= m,
                chars@.len() == k,
                forall|j: int| 0 <= j < k ==> font_char_ok(pos2, b2, #[trigger] qs[j]),
                forall|j: int|
                    0 <= j < k ==> font_char_matches(
                        #[trigger] chars@[j],
                        b2.skip(qs[j] - pos2),
                    ),
            decreases m - k,
        {
            let q = offsets2[k];
            if (q as usize) < after2.pos() {
                proof {
                    assert(!font_char_ok(pos2, b2, qs[k as int]));
                    lemma_font_chars_err_at(pos2, b2, qs, 0, k as int);
                }
                return Err(ParseErr::BadPointer);
            }
            let off = q as usize - after2.pos();
            if off > after2.len() {
                proof {
                    assert(!font_char_ok(pos2, b2, qs[k as int]));
                    lemma_font_chars_err_at(pos2, b2, qs, 0, k as int);
                }
                return Err(ParseErr::BadPointer);
            }
            if after2.len() - off < 14 {
                proof {
                    assert(!font_char_ok(pos2, b2, qs[k as int]));
                    lemma_font_chars_err_at(pos2, b2, qs, 0, k as int);
                }
                return Err(ParseErr::Eof);
            }
            let rec = after2.offset(off);
            proof {
                assert(rec.data@.subrange(0, 2) =~= b2.subrange(q - pos2, q - pos2 + 2));
            }
            let code = u16_at(rec, 0);
            match char_from_u16(code) {
                Some(character) => {
                    let ch = FontChar {
                        character,
                        bounds: ((u16_at(rec, 2), u16_at(rec, 4)), (u16_at(rec, 6), u16_at(rec, 8))),
                        origin: (u16_at(rec, 10), u16_at(rec, 12)),
                    };
                    proof {
                        assert(font_char_ok(pos2, b2, q));
                        assert(font_char_matches(ch, b2.skip(q - pos2)));
                    }
                    push_char(&mut chars, ch);
                },
                None => {
                    proof {
                        assert(!font_char_ok(pos2, b2, qs[k as int]));
                        assert(font_char_err(pos2, b2, qs[k as int]) == ParseErr::BadEncoding);
                        lemma_font_chars_err_at(pos2, b2, qs, 0, k as int);
                    }
                    return Err(ParseErr::BadEncoding);
                },
            }
            k = k + 1;
        }
        let e = FontEntry {
            name: u32_at(input, 0),
            font_name: u32_at(input, 4),
            size_bits: u32_at(input, 8),
            unk: (u32_at(input, 12), u32_at(input, 16), u32_at(input, 20), u32_at(input, 24)),
            entire_font_tpag: u32_at(input, 28),
            unk2_bits: (u32_at(input, 32), u32_at(input, 36)),
            unk3: u32_at(input, 40),
            chars,
        };
        Ok((after2, e))
    }
}

impl Font {
    /// Every reverse-index entry points inside `fonts`.
    pub open spec fn wf(self) -> bool {
        forall|k: u32|
            self.locations@.contains_key(k) ==> (#[trigger] self.locations@[k]) < self.fonts@.len()
    }

    /// Decodes a FONT section payload: entry count, pointer list, one
    /// font record (with its nested glyph table) at each absolute
    /// offset, and the reverse index. Succeeds exactly when the pointer
    /// list fits and every record decodes; the first failing record
    /// decides the error.
    pub fn take<'a>(input: PosSlice<'a>) -> (r: Result<(PosSlice<'a>, Font), ParseErr>)
        requires
            input.wf32(),
        ensures
            ({
                let b = input.data@;
                let bp = table_body_pos(input.pos as int, b);
                let bb = table_body(b);
                let ps = ptrs(b);
                &&& (r matches Ok(t)) <==> (ptr_table_ok(b) && (forall|i: int|
                    0 <= i < ps.len() ==> font_entry_ok(bp, bb, #[trigger] ps[i])))
                &&& !ptr_table_ok(b) ==> (r matches Err(e) && e == ParseErr::Eof)
                &&& ptr_table_ok(b) && (forall|i: int|
                    0 <= i < ps.len() ==> font_entry_ok(bp, bb, #[trigger] ps[i])) ==> (r matches Ok(t)
                    && t.0.pos == bp && t.0.data@ == bb && t.1.fonts@.len() == ps.len() && (forall|
                    i: int,
                |
                    0 <= i < ps.len() ==> font_rec_matches(
                        #[trigger] t.1.fonts@[i],
                        ps[i] as int,
                        bb.skip(ps[i] - bp),
                    )) && is_rev_index(ps, 0, t.1.locations@) && t.1.wf())
                &&& forall|i: int|
                    ptr_table_ok(b) && 0 <= i < ps.len() && !font_entry_ok(bp, bb, #[trigger] ps[i])
                        && (forall|k: int| 0 <= k < i ==> font_entry_ok(bp, bb, #[trigger] ps[k]))
                        ==> (r matches Err(e) && e == font_entry_err(bp, bb, ps[i]))
            }),
    {
        let ghost b = input.data@;
        let ghost bp = table_body_pos(input.pos as int, b);
        let ghost bb = table_body(b);
        let ghost ps = ptrs(b);
        let (after, offsets) = read_ptr_table(input)?;
        let mut fonts: Vec<FontEntry> = Vec::new();
        let n = offsets.len();
        let mut i: usize = 0;
        while i < n
            invariant
                b == input.data@,
                bp == table_body_pos(input.pos as int, b),
                bb == table_body(b),
                ps == ptrs(b),
                ptr_table_ok(b),
                n == ps.len(),
                offsets@ == ps,
                after.pos == bp,
                after.data@ == bb,
                after.wf(),
                0 <= i <= n,
                fonts@.len() == i,
                forall|j: int| 0 <= j < i ==> font_entry_ok(bp, bb, #[trigger] ps[j]),
                forall|j: int|
                    0 <= j < i ==> font_rec_matches(
                        #[trigger] fonts@[j],
                        ps[j] as int,
                        bb.skip(ps[j] - bp),
                    ),
            decreases n - i,
        {
            let p = offsets[i];
            if (p as usize) < after.pos() {
                assert(!font_entry_ok(bp, bb, ps[i as int]));
                return Err(ParseErr::BadPointer);
            }
            let off = p as usize - after.pos();
            if off > after.len() {
                assert(!font_entry_ok(bp, bb, ps[i as int]));
                return Err(ParseErr::BadPointer);
            }
            let rec = after.offset(off);
            match FontEntry::take(rec) {
                Ok((_, e)) => {
                    proof {
                        if !font_rec_ok(p as int, rec.data@) {
                            assert(false);
                        }
                        assert(font_entry_ok(bp, bb, p));
                    }
                    fonts.push(e);
                },
                Err(e) => {
                    proof {
                        assert(!font_entry_ok(bp, bb, ps[i as int]));
                        assert(e == font_rec_err(p as int, bb.skip(p - bp)));
                        assert(e == font_entry_err(bp, bb, ps[i as int]));
                    }
                    return Err(e);
                },
            }
            i = i + 1;
        }
        let locations = build_locations(&offsets, 0);
        let font = Font { fonts, locations };
        proof {
            assert forall|k: u32| font.locations@.contains_key(k) implies (
            #[trigger] font.locations@[k]) < font.fonts@.len() by {
                let j = choose|j: int|
                    0 <= j < ps.len() && k == crate::ptr_table::loc_key(ps, 0, j);
                crate::ptr_table::lemma_first_occ_props(ps, ps[j]);
            }
        }
        Ok((after, font))
    }

    /// Looks up a font by the raw pointer value another section stored:
    /// `Some` exactly when the offset is a key of the reverse index.
    pub fn get(&self, loc: u32) -> (r: Option<&FontEntry>)
        requires
            self.wf(),
        ensures
            r is Some <==> self.locations@.contains_key(loc),
            r matches Some(v) ==> *v == self.fonts@[self.locations@[loc] as int],
    {
        match self.locations.get(&loc) {
            Some(idx) => Some(&self.fonts[*idx]),
            None => None,
        }
    }
}

} // verus!
