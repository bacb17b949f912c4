use vstd::prelude::*;
use crate::track_slice::PosSlice;
use crate::byte_parsers::u32_at;
use crate::section_header::{chunk_inner, chunk_ok, chunk_rest, chunk_size};
use crate::ptr_table::{is_rev_index, ptr_table_ok, ptrs, table_body, table_body_pos};
use crate::agrp::{agrp_entry_at, agrp_entry_ok, Agrp};
use crate::audo::{audo_entry_at, audo_entry_ok, Audo};
use crate::font::{font_entry_ok, font_rec_matches, Font};
use crate::gen8::{gen8_matches, gen8_ok, Gen8};
use crate::sond::{sond_entry_at, sond_entry_ok, Sond};
use crate::sprt::{sprt_entry_ok, sprt_rec_matches, Sprt};
use crate::strg::{strg_entry_ok, strg_entry_str, Strg};
use crate::tpag::{tpag_entry_at, tpag_entry_ok, Tpag};
use crate::txtr::{txtr_meta_ok, txtr_png_at, txtr_pngs_ok, Txtr};
use crate::byte_parsers::spec_le32_at;
use crate::ParseErr;

verus! {

/// The section magic tags, read as little-endian words.
pub const MAGIC_FORM: u32 = 0x4D524F46;

pub const MAGIC_GEN8: u32 = 0x384E4547;

pub const MAGIC_STRG: u32 = 0x47525453;

pub const MAGIC_SOND: u32 = 0x444E4F53;

pub const MAGIC_AUDO: u32 = 0x4F445541;

pub const MAGIC_TXTR: u32 = 0x52545854;

pub const MAGIC_TPAG: u32 = 0x47415054;

pub const MAGIC_SPRT: u32 = 0x54525053;

pub const MAGIC_FONT: u32 = 0x544E4F46;

pub const MAGIC_AGRP: u32 = 0x50524741;

/// One decoded section: a typed value for each registered magic, or the
/// unknown-section fallback holding the tag and the raw payload, which
/// round-trips byte-for-byte.
#[derive(Debug)]
pub enum Section {
    Gen8(Gen8),
    Strg(Strg),
    Sond(Sond),
    Audo(Audo),
    Txtr(Txtr),
    Tpag(Tpag),
    Sprt(Sprt),
    Font(Font),
    Agrp(Agrp),
    Unk { name: Vec<u8>, data: Vec<u8> },
}

/// The chunk's magic tag as a little-endian word.
pub open spec fn magic_word(b: Seq<u8>) -> u32 {
    spec_le32_at(b, 0)
}

/// The whole STRG payload decodes.
pub open spec fn strg_section_ok(pos: int, b: Seq<u8>) -> bool {
    ptr_table_ok(b) && forall|i: int|
        0 <= i < ptrs(b).len() ==> strg_entry_ok(
            table_body_pos(pos, b),
            table_body(b),
            #[trigger] ptrs(b)[i],
        )
}

/// `s` is the decoded STRG payload at `(pos, b)`.
pub open spec fn strg_section_matches(s: Strg, pos: int, b: Seq<u8>) -> bool {
    &&& s.strings@.len() == ptrs(b).len()
    &&& forall|i: int|
        0 <= i < ptrs(b).len() ==> (#[trigger] s.strings@[i])@ == strg_entry_str(
            table_body_pos(pos, b),
            table_body(b),
            ptrs(b)[i],
        )
    &&& is_rev_index(ptrs(b), 4, s.locations@)
    &&& s.wf()
}

/// The whole SOND payload decodes.
pub open spec fn sond_section_ok(pos: int, b: Seq<u8>) -> bool {
    ptr_table_ok(b) && forall|i: int|
        0 <= i < ptrs(b).len() ==> sond_entry_ok(
            table_body_pos(pos, b),
            table_body(b),
            #[trigger] ptrs(b)[i],
        )
}

/// `s` is the decoded SOND payload at `(pos, b)`.
pub open spec fn sond_section_matches(s: Sond, pos: int, b: Seq<u8>) -> bool {
    &&& s.sounds@.len() == ptrs(b).len()
    &&& forall|i: int|
        0 <= i < ptrs(b).len() ==> #[trigger] s.sounds@[i] == sond_entry_at(
            table_body_pos(pos, b),
            table_body(b),
            ptrs(b)[i],
        )
    &&& is_rev_index(ptrs(b), 0, s.locations@)
    &&& s.wf()
}

/// The whole AUDO payload decodes.
pub open spec fn audo_section_ok(pos: int, b: Seq<u8>) -> bool {
    ptr_table_ok(b) && forall|i: int|
        0 <= i < ptrs(b).len() ==> audo_entry_ok(
            table_body_pos(pos, b),
            table_body(b),
            #[trigger] ptrs(b)[i],
        )
}

/// `s` is the decoded AUDO payload at `(pos, b)`.
pub open spec fn audo_section_matches(s: Audo, pos: int, b: Seq<u8>) -> bool {
    &&& s.offset == pos - 8
    &&& s.files@.len() == ptrs(b).len()
    &&& forall|i: int|
        0 <= i < ptrs(b).len() ==> (#[trigger] s.files@[i])@ == audo_entry_at(
            table_body_pos(pos, b),
            table_body(b),
            ptrs(b)[i],
        )
    &&& is_rev_index(ptrs(b), 0, s.locations@)
    &&& s.wf()
}

/// The whole TXTR payload decodes.
pub open spec fn txtr_section_ok(pos: int, b: Seq<u8>) -> bool {
    &&& ptr_table_ok(b)
    &&& forall|i: int|
        0 <= i < ptrs(b).len() ==> txtr_meta_ok(
            table_body_pos(pos, b),
            table_body(b),
            #[trigger] ptrs(b)[i],
        )
    &&& txtr_pngs_ok(table_body_pos(pos, b), table_body(b), ptrs(b))
}

/// `s` is the decoded TXTR payload at `(pos, b)`.
pub open spec fn txtr_section_matches(s: Txtr, pos: int, b: Seq<u8>) -> bool {
    &&& s.offset == pos - 8
    &&& s.files@.len() == ptrs(b).len()
    &&& forall|i: int|
        0 <= i < ptrs(b).len() ==> (#[trigger] s.files@[i]).png@ == txtr_png_at(
            table_body_pos(pos, b),
            table_body(b),
            ptrs(b),
            i,
        )
    &&& is_rev_index(ptrs(b), 0, s.locations@)
    &&& s.wf()
}

/// The whole TPAG payload decodes.
pub open spec fn tpag_section_ok(pos: int, b: Seq<u8>) -> bool {
    ptr_table_ok(b) && forall|i: int|
        0 <= i < ptrs(b).len() ==> tpag_entry_ok(
            table_body_pos(pos, b),
            table_body(b),
            #[trigger] ptrs(b)[i],
        )
}

/// `s` is the decoded TPAG payload at `(pos, b)`.
pub open spec fn tpag_section_matches(s: Tpag, pos: int, b: Seq<u8>) -> bool {
    &&& s.texture_pages@.len() == ptrs(b).len()
    &&& forall|i: int|
        0 <= i < ptrs(b).len() ==> #[trigger] s.texture_pages@[i] == tpag_entry_at(
            table_body_pos(pos, b),
            table_body(b),
            ptrs(b)[i],
        )
    &&& is_rev_index(ptrs(b), 0, s.locations@)
    &&& s.wf()
}

/// The whole SPRT payload decodes.
pub open spec fn sprt_section_ok(pos: int, b: Seq<u8>) -> bool {
    ptr_table_ok(b) && forall|i: int|
        0 <= i < ptrs(b).len() ==> sprt_entry_ok(
            table_body_pos(pos, b),
            table_body(b),
            #[trigger] ptrs(b)[i],
        )
}

/// `s` is the decoded SPRT payload at `(pos, b)`.
pub open spec fn sprt_section_matches(s: Sprt, pos: int, b: Seq<u8>) -> bool {
    &&& s.sprites@.len() == ptrs(b).len()
    &&& forall|i: int|
        0 <= i < ptrs(b).len() ==> sprt_rec_matches(
            #[trigger] s.sprites@[i],
            table_body(b).skip(ptrs(b)[i] - table_body_pos(pos, b)),
        )
    &&& is_rev_index(ptrs(b), 0, s.locations@)
    &&& s.wf()
}

/// The whole FONT payload decodes.
pub open spec fn font_section_ok(pos: int, b: Seq<u8>) -> bool {
    ptr_table_ok(b) && forall|i: int|
        0 <= i < ptrs(b).len() ==> font_entry_ok(
            table_body_pos(pos, b),
            table_body(b),
            #[trigger] ptrs(b)[i],
        )
}

/// `s` is the decoded FONT payload at `(pos, b)`.
pub open spec fn font_section_matches(s: Font, pos: int, b: Seq<u8>) -> bool {
    &&& s.fonts@.len() == ptrs(b).len()
    &&& forall|i: int|
        0 <= i < ptrs(b).len() ==> font_rec_matches(
            #[trigger] s.fonts@[i],
            ptrs(b)[i] as int,
            table_body(b).skip(ptrs(b)[i] - table_body_pos(pos, b)),
        )
    &&& is_rev_index(ptrs(b), 0, s.locations@)
    &&& s.wf()
}

/// The whole AGRP payload decodes.
pub open spec fn agrp_section_ok(pos: int, b: Seq<u8>) -> bool {
    ptr_table_ok(b) && forall|i: int|
        0 <= i < ptrs(b).len() ==> agrp_entry_ok(
            table_body_pos(pos, b),
            table_body(b),
            #[trigger] ptrs(b)[i],
        )
}

/// `s` is the decoded AGRP payload at `(pos, b)`.
pub open spec fn agrp_section_matches(s: Agrp, pos: int, b: Seq<u8>) -> bool {
    &&& s.audio_groups@.len() == ptrs(b).len()
    &&& forall|i: int|
        0 <= i < ptrs(b).len() ==> #[trigger] s.audio_groups@[i] == agrp_entry_at(
            table_body_pos(pos, b),
            table_body(b),
            ptrs(b)[i],
        )
    &&& is_rev_index(ptrs(b), 0, s.locations@)
}

/// The chunk at `(pos, b)` frames correctly and, when its tag is
/// registered, its payload decodes. An unregistered tag is always
/// acceptable: its payload is kept opaque.
pub open spec fn section_ok(pos: int, b: Seq<u8>) -> bool {
    &&& chunk_ok(b)
    &&& ({
        let w = magic_word(b);
        let ip = pos + 8;
        let ib = chunk_inner(b);
        if w == MAGIC_GEN8 {
            gen8_ok(ib)
        } else if w == MAGIC_STRG {
            strg_section_ok(ip, ib)
        } else if w == MAGIC_SOND {
            sond_section_ok(ip, ib)
        } else if w == MAGIC_AUDO {
            audo_section_ok(ip, ib)
        } else if w == MAGIC_TXTR {
            txtr_section_ok(ip, ib)
        } else if w == MAGIC_TPAG {
            tpag_section_ok(ip, ib)
        } else if w == MAGIC_SPRT {
            sprt_section_ok(ip, ib)
        } else if w == MAGIC_FONT {
            font_section_ok(ip, ib)
        } else if w == MAGIC_AGRP {
            agrp_section_ok(ip, ib)
        } else {
            true
        }
    })
}

/// `s` is the decoded form of the chunk at `(pos, b)`: the typed value
/// for a registered tag, the verbatim fallback otherwise.
pub open spec fn section_matches(s: Section, pos: int, b: Seq<u8>) -> bool {
    let w = magic_word(b);
    let ip = pos + 8;
    let ib = chunk_inner(b);
    if w == MAGIC_GEN8 {
        s matches Section::Gen8(g) && gen8_matches(g, ib)
    } else if w == MAGIC_STRG {
        s matches Section::Strg(v) && strg_section_matches(v, ip, ib)
    } else if w == MAGIC_SOND {
        s matches Section::Sond(v) && sond_section_matches(v, ip, ib)
    } else if w == MAGIC_AUDO {
        s matches Section::Audo(v) && audo_section_matches(v, ip, ib)
    } else if w == MAGIC_TXTR {
        s matches Section::Txtr(v) && txtr_section_matches(v, ip, ib)
    } else if w == MAGIC_TPAG {
        s matches Section::Tpag(v) && tpag_section_matches(v, ip, ib)
    } else if w == MAGIC_SPRT {
        s matches Section::Sprt(v) && sprt_section_matches(v, ip, ib)
    } else if w == MAGIC_FONT {
        s matches Section::Font(v) && font_section_matches(v, ip, ib)
    } else if w == MAGIC_AGRP {
        s matches Section::Agrp(v) && agrp_section_matches(v, ip, ib)
    } else {
        s matches Section::Unk { name, data } && name@ == b.subrange(0, 4) && data@ == ib
    }
}

#[verifier::rlimit(100)]
fn take_strg_section<'a>(inner: PosSlice<'a>) -> (r: Result<Strg, ParseErr>)
    requires
        inner.wf32(),
    ensures
        (r matches Ok(v)) <==> strg_section_ok(inner.pos as int, inner.data@),
        r matches Ok(v) ==> strg_section_matches(v, inner.pos as int, inner.data@),
{
    let (_, v) = Strg::take(inner)?;
    Ok(v)
}

#[verifier::rlimit(100)]
fn take_sond_section<'a>(inner: PosSlice<'a>) -> (r: Result<Sond, ParseErr>)
    requires
        inner.wf32(),
    ensures
        (r matches Ok(v)) <==> sond_section_ok(inner.pos as int, inner.data@),
        r matches Ok(v) ==> sond_section_matches(v, inner.pos as int, inner.data@),
{
    let (_, v) = Sond::take(inner)?;
    Ok(v)
}

#[verifier::rlimit(100)]
fn take_audo_section<'a>(inner: PosSlice<'a>) -> (r: Result<Audo, ParseErr>)
    requires
        inner.wf32(),
        inner.pos >= 8,
    ensures
        (r matches Ok(v)) <==> audo_section_ok(inner.pos as int, inner.data@),
        r matches Ok(v) ==> audo_section_matches(v, inner.pos as int, inner.data@),
{
    let (_, v) = Audo::take(inner)?;
    Ok(v)
}

#[verifier::rlimit(100)]
fn take_txtr_section<'a>(inner: PosSlice<'a>) -> (r: Result<Txtr, ParseErr>)
    requires
        inner.wf32(),
        inner.pos >= 8,
    ensures
        (r matches Ok(v)) <==> txtr_section_ok(inner.pos as int, inner.data@),
        r matches Ok(v) ==> txtr_section_matches(v, inner.pos as int, inner.data@),
{
    let (_, v) = Txtr::take(inner)?;
    Ok(v)
}

#[verifier::rlimit(100)]
fn take_tpag_section<'a>(inner: PosSlice<'a>) -> (r: Result<Tpag, ParseErr>)
    requires
        inner.wf32(),
    ensures
        (r matches Ok(v)) <==> tpag_section_ok(inner.pos as int, inner.data@),
        r matches Ok(v) ==> tpag_section_matches(v, inner.pos as int, inner.data@),
{
    let (_, v) = Tpag::take(inner)?;
    Ok(v)
}

#[verifier::rlimit(100)]
fn take_sprt_section<'a>(inner: PosSlice<'a>) -> (r: Result<Sprt, ParseErr>)
    requires
        inner.wf32(),
    ensures
        (r matches Ok(v)) <==> sprt_section_ok(inner.pos as int, inner.data@),
        r matches Ok(v) ==> sprt_section_matches(v, inner.pos as int, inner.data@),
{
    let (_, v) = Sprt::take(inner)?;
    Ok(v)
}

#[verifier::rlimit(100)]
fn take_font_section<'a>(inner: PosSlice<'a>) -> (r: Result<Font, ParseErr>)
    requires
        inner.wf32(),
    ensures
        (r matches Ok(v)) <==> font_section_ok(inner.pos as int, inner.data@),
        r matches Ok(v) ==> font_section_matches(v, inner.pos as int, inner.data@),
{
    let (_, v) = Font::take(inner)?;
    Ok(v)
}

#[verifier::rlimit(100)]
fn take_agrp_section<'a>(inner: PosSlice<'a>) -> (r: Result<Agrp, ParseErr>)
    requires
        inner.wf32(),
    ensures
        (r matches Ok(v)) <==> agrp_section_ok(inner.pos as int, inner.data@),
        r matches Ok(v) ==> agrp_section_matches(v, inner.pos as int, inner.data@),
{
    let (_, v) = Agrp::take(inner)?;
    Ok(v)
}

#[verifier::rlimit(100)]
fn take_gen8_section<'a>(inner: PosSlice<'a>) -> (r: Result<Gen8, ParseErr>)
    requires
        inner.wf(),
    ensures
        (r matches Ok(v)) <==> gen8_ok(inner.data@),
        r matches Ok(v) ==> gen8_matches(v, inner.data@),
{
    let (_, v) = Gen8::take(inner)?;
    Ok(v)
}

impl Section {
    /// Decodes one section chunk: frames the tag and length, dispatches
    /// on the registered magic tags, and falls back to an opaque unknown
    /// section for any other tag. Succeeds exactly when the chunk frames
    /// and a registered payload decodes; a malformed registered payload
    /// propagates its own error rather than falling back.
    #[verifier::rlimit(100)]
    pub fn take<'a>(input: PosSlice<'a>) -> (r: Result<(PosSlice<'a>, Section), ParseErr>)
        requires
            input.wf32(),
            input.pos >= 8,
        ensures
            ({
                let b = input.data@;
                let pos = input.pos as int;
                &&& (r matches Ok(t)) <==> section_ok(pos, b)
                &&& (r matches Ok(t) ==> t.0.pos == pos + 8 + chunk_size(b) && t.0.data@
                    == chunk_rest(b) && t.0.wf() && t.0.pos >= 8 && section_matches(t.1, pos, b))
                &&& b.len() < 8 ==> (r matches Err(e) && e == ParseErr::Eof)
                &&& b.len() >= 8 && !chunk_ok(b) ==> (r matches Err(e) && e == ParseErr::Eof)
            }),
    {
        let ghost b = input.data@;
        let ghost pos = input.pos as int;
        if input.len() < 8 {
            return Err(ParseErr::Eof);
        }
        let mw = u32_at(input, 0);
        let size = u32_at(input, 4) as usize;
        if input.len() - 8 < size {
            assert(!chunk_ok(b));
            return Err(ParseErr::Eof);
        }
        let inner = input.slice(8, 8 + size);
        let rest = input.slice(8 + size, input.len());
        proof {
            assert(chunk_ok(b));
            assert(inner.data@ == chunk_inner(b));
            assert(rest.data@ == chunk_rest(b));
            assert(inner.wf32());
            assert(inner.pos >= 8);
        }
        if mw == MAGIC_GEN8 {
            let g = take_gen8_section(inner)?;
            Ok((rest, Section::Gen8(g)))
        } else if mw == MAGIC_STRG {
            let v = take_strg_section(inner)?;
            Ok((rest, Section::Strg(v)))
        } else if mw == MAGIC_SOND {
            let v = take_sond_section(inner)?;
            Ok((rest, Section::Sond(v)))
        } else if mw == MAGIC_AUDO {
            let v = take_audo_section(inner)?;
            Ok((rest, Section::Audo(v)))
        } else if mw == MAGIC_TXTR {
            let v = take_txtr_section(inner)?;
            Ok((rest, Section::Txtr(v)))
        } else if mw == MAGIC_TPAG {
            let v = take_tpag_section(inner)?;
            Ok((rest, Section::Tpag(v)))
        } else if mw == MAGIC_SPRT {
            let v = take_sprt_section(inner)?;
            Ok((rest, Section::Sprt(v)))
        } else if mw == MAGIC_FONT {
            let v = take_font_section(inner)?;
            Ok((rest, Section::Font(v)))
        } else if mw == MAGIC_AGRP {
            let v = take_agrp_section(inner)?;
            Ok((rest, Section::Agrp(v)))
        } else {
            let name = vstd::slice::slice_to_vec(vstd::slice::slice_subrange(input.data, 0, 4));
            let data = vstd::slice::slice_to_vec(inner.data);
            Ok((rest, Section::Unk { name, data }))
        }
    }
}

/// The well-formedness that decoding guarantees of each stored section:
/// its reverse index points inside its record list.
pub open spec fn sec_wf(s: Section) -> bool {
    match s {
        Section::Strg(v) => v.wf(),
        Section::Sond(v) => v.wf(),
        Section::Audo(v) => v.wf(),
        Section::Txtr(v) => v.wf(),
        Section::Tpag(v) => v.wf(),
        Section::Sprt(v) => v.wf(),
        Section::Font(v) => v.wf(),
        _ => true,
    }
}

/// Every section of a decoded stream is well-formed.
pub proof fn lemma_sections_match_wf(secs: Seq<Section>, pos: int, b: Seq<u8>)
    requires
        sections_match(secs, pos, b),
    ensures
        forall|i: int| 0 <= i < secs.len() ==> sec_wf(#[trigger] secs[i]),
    decreases b.len(),
{
    if b.len() > 0 {
        lemma_sections_match_wf(secs.skip(1), pos + 8 + chunk_size(b), chunk_rest(b));
        assert(sec_wf(secs[0]));
        assert forall|i: int| 0 <= i < secs.len() implies sec_wf(#[trigger] secs[i]) by {
            if i > 0 {
                assert(secs.skip(1)[i - 1] == secs[i]);
            }
        }
    }
}

/// Every chunk of the stream at `(pos, b)` decodes, and the stream ends
/// exactly at the view's end.
pub open spec fn sections_ok(pos: int, b: Seq<u8>) -> bool
    decreases b.len(),
{
    if b.len() == 0 {
        true
    } else if !section_ok(pos, b) {
        false
    } else {
        sections_ok(pos + 8 + chunk_size(b), chunk_rest(b))
    }
}

/// `secs` is, chunk for chunk and in file order, the decoded form of the
/// stream at `(pos, b)`.
pub open spec fn sections_match(secs: Seq<Section>, pos: int, b: Seq<u8>) -> bool
    decreases b.len(),
{
    if b.len() == 0 {
        secs.len() == 0
    } else if !section_ok(pos, b) {
        false
    } else {
        &&& secs.len() > 0
        &&& section_matches(secs[0], pos, b)
        &&& sections_match(secs.skip(1), pos + 8 + chunk_size(b), chunk_rest(b))
    }
}

/// Decodes a chunk stream until the view is exhausted. No partial
/// decode: the first malformed chunk aborts the whole stream.
pub fn take_sections<'a>(input: PosSlice<'a>) -> (r: Result<Vec<Section>, ParseErr>)
    requires
        input.wf32(),
        input.pos >= 8,
    ensures
        (r matches Ok(secs)) <==> sections_ok(input.pos as int, input.data@),
        r matches Ok(secs) ==> sections_match(secs@, input.pos as int, input.data@),
    decreases input.data@.len(),
{
    let ghost pos = input.pos as int;
    let ghost b = input.data@;
    if input.len() == 0 {
        let secs: Vec<Section> = Vec::new();
        proof {
            assert(sections_match(secs@, pos, b));
        }
        return Ok(secs);
    }
    let (rest, sec) = Section::take(input)?;
    let mut tail = match take_sections(rest) {
        Ok(tail) => tail,
        Err(e) => {
            return Err(e);
        },
    };
    let ghost tails = tail@;
    let mut secs: Vec<Section> = Vec::new();
    secs.push(sec);
    secs.append(&mut tail);
    proof {
        assert(section_ok(pos, b));
        assert(secs@[0] == sec);
        assert(secs@.skip(1) =~= tails);
        assert(sections_match(tails, pos + 8 + chunk_size(b), chunk_rest(b)));
        assert(sections_match(secs@, pos, b));
    }
    Ok(secs)
}

/// Decodes a whole archive: the `FORM` envelope, then its payload as a
/// chunk stream, in file order. Succeeds exactly when the envelope
/// frames with the right tag and every section decodes.
pub fn take_data_win_file(input: &[u8]) -> (r: Result<Vec<Section>, ParseErr>)
    requires
        input@.len() <= u32::MAX,
    ensures
        input@.len() < 8 ==> (r matches Err(e) && e == ParseErr::Eof),
        input@.len() >= 8 && magic_word(input@) != MAGIC_FORM ==> (r matches Err(e) && e
            == ParseErr::BadMagic),
        input@.len() >= 8 && magic_word(input@) == MAGIC_FORM && !chunk_ok(input@) ==> (r matches
            Err(e) && e == ParseErr::Eof),
        input@.len() >= 8 && magic_word(input@) == MAGIC_FORM && chunk_ok(input@) ==> ((r matches
            Ok(secs)) <==> sections_ok(8, chunk_inner(input@))),
        r matches Ok(secs) ==> sections_match(secs@, 8, chunk_inner(input@)),
{
    let root = PosSlice::from_slice(input);
    if root.len() < 8 {
        return Err(ParseErr::Eof);
    }
    let mw = u32_at(root, 0);
    if mw != MAGIC_FORM {
        return Err(ParseErr::BadMagic);
    }
    let size = u32_at(root, 4) as usize;
    if root.len() - 8 < size {
        assert(!chunk_ok(input@));
        return Err(ParseErr::Eof);
    }
    let envelope = root.slice(8, 8 + size);
    proof {
        assert(envelope.data@ == chunk_inner(input@));
    }
    take_sections(envelope)
}

} // verus!
