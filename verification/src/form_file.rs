use vstd::prelude::*;
use crate::agrp::Agrp;
use crate::audo::Audo;
use crate::font::Font;
use crate::image_codec::{
    crop_image, grid_h, grid_ok, grid_w, image_dims, image_px, png_image, TexSlot,
};
use crate::sections::{sec_wf, Section};
use crate::sond::Sond;
use crate::sprt::Sprt;
use crate::strg::Strg;
use crate::text::str_eq;
use crate::tpag::{Rect16, Tpag, TpagEntry};
use crate::txtr::Txtr;

verus! {

/// The last string table in the stream, if any: the last writer wins
/// when a section kind is duplicated.
pub open spec fn last_strg(secs: Seq<Section>) -> Option<Strg>
    decreases secs.len(),
{
    if secs.len() == 0 {
        None
    } else {
        match secs.last() {
            Section::Strg(v) => Some(v),
            _ => last_strg(secs.drop_last()),
        }
    }
}

/// As `last_strg`, for each other singleton slot.
pub open spec fn last_sond(secs: Seq<Section>) -> Option<Sond>
    decreases secs.len(),
{
    if secs.len() == 0 {
        None
    } else {
        match secs.last() {
            Section::Sond(v) => Some(v),
            _ => last_sond(secs.drop_last()),
        }
    }
}

pub open spec fn last_txtr(secs: Seq<Section>) -> Option<Txtr>
    decreases secs.len(),
{
    if secs.len() == 0 {
        None
    } else {
        match secs.last() {
            Section::Txtr(v) => Some(v),
            _ => last_txtr(secs.drop_last()),
        }
    }
}

pub open spec fn last_tpag(secs: Seq<Section>) -> Option<Tpag>
    decreases secs.len(),
{
    if secs.len() == 0 {
        None
    } else {
        match secs.last() {
            Section::Tpag(v) => Some(v),
            _ => last_tpag(secs.drop_last()),
        }
    }
}

pub open spec fn last_sprt(secs: Seq<Section>) -> Option<Sprt>
    decreases secs.len(),
{
    if secs.len() == 0 {
        None
    } else {
        match secs.last() {
            Section::Sprt(v) => Some(v),
            _ => last_sprt(secs.drop_last()),
        }
    }
}

pub open spec fn last_font(secs: Seq<Section>) -> Option<Font>
    decreases secs.len(),
{
    if secs.len() == 0 {
        None
    } else {
        match secs.last() {
            Section::Font(v) => Some(v),
            _ => last_font(secs.drop_last()),
        }
    }
}

pub open spec fn last_agrp(secs: Seq<Section>) -> Option<Agrp>
    decreases secs.len(),
{
    if secs.len() == 0 {
        None
    } else {
        match secs.last() {
            Section::Agrp(v) => Some(v),
            _ => last_agrp(secs.drop_last()),
        }
    }
}

/// Every audio-blob section of the stream, in file order: slot 0 is the
/// archive's own embedded store, the rest come from companion files.
pub open spec fn audos_of(secs: Seq<Section>) -> Seq<Audo>
    decreases secs.len(),
{
    if secs.len() == 0 {
        Seq::empty()
    } else {
        match secs.last() {
            Section::Audo(a) => audos_of(secs.drop_last()).push(a),
            _ => audos_of(secs.drop_last()),
        }
    }
}

/// The asset graph: the decoded sections folded into a queryable whole,
/// with one cache slot per atlas page, left empty until first use.
pub struct FormFile {
    pub audos: Vec<Audo>,
    pub strg: Option<Strg>,
    pub sond: Option<Sond>,
    pub txtr: Option<Txtr>,
    pub tpag: Option<Tpag>,
    pub sprt: Option<Sprt>,
    pub font: Option<Font>,
    pub agrp: Option<Agrp>,
    pub textures: Vec<TexSlot>,
}

impl FormFile {
    /// Every held section is well-formed, and the cache has one slot per
    /// atlas page, holding that page's bytes.
    pub open spec fn wf(self) -> bool {
        &&& (self.strg matches Some(s) ==> s.wf())
        &&& (self.sond matches Some(s) ==> s.wf())
        &&& (self.txtr matches Some(s) ==> s.wf())
        &&& (self.tpag matches Some(s) ==> s.wf())
        &&& (self.sprt matches Some(s) ==> s.wf())
        &&& (self.font matches Some(s) ==> s.wf())
        &&& (forall|i: int| 0 <= i < self.audos@.len() ==> (#[trigger] self.audos@[i]).wf())
        &&& (self.txtr matches Some(t) ==> self.textures@.len() == t.files@.len() && (forall|i: int|
            0 <= i < t.files@.len() ==> (#[trigger] self.textures@[i]).png_bytes()
                == t.files@[i].png@))
        &&& (self.txtr is None ==> self.textures@.len() == 0)
    }

    /// Folds an ordered section sequence into the aggregate: each known
    /// singleton slot takes the last section of its kind, audio stores
    /// are appended in file order, and a cache slot is allocated per
    /// atlas page. Unknown and general-info sections are not part of the
    /// asset graph.
    pub fn from_sections(sections: Vec<Section>) -> (r: FormFile)
        requires
            forall|i: int| 0 <= i < sections@.len() ==> sec_wf(#[trigger] sections@[i]),
        ensures
            r.strg == last_strg(sections@),
            r.sond == last_sond(sections@),
            r.txtr == last_txtr(sections@),
            r.tpag == last_tpag(sections@),
            r.sprt == last_sprt(sections@),
            r.font == last_font(sections@),
            r.agrp == last_agrp(sections@),
            r.audos@ == audos_of(sections@),
            r.wf(),
    {
        let ghost orig = sections@;
        let mut sections = sections;
        let mut file = FormFile {
            audos: Vec::new(),
            strg: None,
            sond: None,
            txtr: None,
            tpag: None,
            sprt: None,
            font: None,
            agrp: None,
            textures: Vec::new(),
        };
        while sections.len() > 0
            invariant
                forall|i: int| 0 <= i < orig.len() ==> sec_wf(#[trigger] orig[i]),
                sections@ == orig.skip(orig.len() - sections@.len()),
                sections@.len() <= orig.len(),
                file.strg == last_strg(orig.take(orig.len() - sections@.len())),
                file.sond == last_sond(orig.take(orig.len() - sections@.len())),
                file.txtr == last_txtr(orig.take(orig.len() - sections@.len())),
                file.tpag == last_tpag(orig.take(orig.len() - sections@.len())),
                file.sprt == last_sprt(orig.take(orig.len() - sections@.len())),
                file.font == last_font(orig.take(orig.len() - sections@.len())),
                file.agrp == last_agrp(orig.take(orig.len() - sections@.len())),
                file.audos@ == audos_of(orig.take(orig.len() - sections@.len())),
                file.wf(),
            decreases sections@.len(),
        {
            let ghost p = orig.len() - sections@.len();
            let sec = sections.remove(0);
            proof {
                assert(sec == orig[p]);
                assert(sections@ == orig.skip(p + 1));
                assert(orig.take(p + 1).drop_last() =~= orig.take(p));
                assert(orig.take(p + 1).last() == orig[p]);
            }
            match sec {
                Section::Audo(a) => {
                    file.audos.push(a);
                },
                Section::Strg(v) => {
                    file.strg = Some(v);
                },
                Section::Sond(v) => {
                    file.sond = Some(v);
                },
                Section::Txtr(t) => {
                    let mut slots: Vec<TexSlot> = Vec::new();
                    let n = t.files.len();
                    let mut i: usize = 0;
                    while i < n
                        invariant
                            n == t.files@.len(),
                            0 <= i <= n,
                            slots@.len() == i,
                            forall|j: int|
                                0 <= j < i ==> (#[trigger] slots@[j]).png_bytes()
                                    == t.files@[j].png@,
                        decreases n - i,
                    {
                        let png = vstd::slice::slice_to_vec(t.files[i].png.as_slice());
                        slots.push(TexSlot::new(png));
                        i = i + 1;
                    }
                    file.textures = slots;
                    file.txtr = Some(t);
                },
                Section::Tpag(v) => {
                    file.tpag = Some(v);
                },
                Section::Sprt(v) => {
                    file.sprt = Some(v);
                },
                Section::Font(v) => {
                    file.font = Some(v);
                },
                Section::Agrp(v) => {
                    file.agrp = Some(v);
                },
                Section::Gen8(_) => {
                },
                Section::Unk { .. } => {
                },
            }
        }
        proof {
            assert(orig.take(orig.len() as int) =~= orig);
        }
        file
    }

    /// `off` is the pointer the name lookup owes for `name`: whenever
    /// `i0` is the first matching string position, `off` is that
    /// string's stored pointer plus four.
    pub open spec fn name_offset_witness(s: Strg, name: Seq<char>, off: u32) -> bool {
        forall|i0: int|
            (0 <= i0 < s.strings@.len() && (#[trigger] s.strings@[i0])@ == name && (forall|k: int|
                0 <= k < i0 ==> s.strings@[k]@ != name)) ==> off == s.offsets@[i0] + 4
    }

    /// `i0` is the first string matching `name`, and `j` the first
    /// sprite storing that string's pointer as its name.
    pub open spec fn first_pair(self, name: Seq<char>, i0: int, j: int) -> bool {
        &&& self.strg matches Some(s)
        &&& self.sprt matches Some(sp)
        &&& self.tpag is Some
        &&& 0 <= i0 < s.strings@.len()
        &&& s.strings@[i0]@ == name
        &&& (forall|k: int| 0 <= k < i0 ==> (#[trigger] s.strings@[k])@ != name)
        &&& 0 <= j < sp.sprites@.len()
        &&& sp.sprites@[j].name_offset == s.offsets@[i0] + 4
        &&& (forall|k: int|
            0 <= k < j ==> (#[trigger] sp.sprites@[k]).name_offset != s.offsets@[i0] + 4)
    }

    /// `i0` is the first string matching `name`, and no sprite stores
    /// that string's pointer as its name.
    pub open spec fn name_unclaimed(self, name: Seq<char>, i0: int) -> bool {
        &&& self.strg matches Some(s)
        &&& self.sprt matches Some(sp)
        &&& 0 <= i0 < s.strings@.len()
        &&& s.strings@[i0]@ == name
        &&& (forall|k: int| 0 <= k < i0 ==> (#[trigger] s.strings@[k])@ != name)
        &&& (forall|j: int|
            0 <= j < sp.sprites@.len() ==> (#[trigger] sp.sprites@[j]).name_offset
                != s.offsets@[i0] + 4)
    }

    /// The atlas region stored under pointer value `loc`, if the table
    /// is present and knows that offset.
    pub open spec fn tpag_entry_for(self, loc: u32) -> Option<TpagEntry> {
        match self.tpag {
            Some(t) => if t.locations@.contains_key(loc) {
                Some(t.texture_pages@[t.locations@[loc] as int])
            } else {
                None
            },
            None => None,
        }
    }

    /// What atlas page `idx` decodes to, if the page exists and its
    /// bytes are a PNG image.
    pub open spec fn page_grid(self, idx: int) -> Option<Seq<Seq<u32>>> {
        if 0 <= idx < self.textures@.len() {
            png_image(self.textures@[idx].png_bytes())
        } else {
            None
        }
    }

    /// Returns the cached decode of atlas page `index`, decoding the
    /// page's PNG bytes on first use. Every caller observes the same
    /// decoded image: the slot is a write-once memoized cell and the
    /// decode is a function of the page bytes alone.
    pub fn get_texture(&self, index: usize) -> (r: Option<&image::DynamicImage>)
        ensures
            r is Some <==> self.page_grid(index as int) is Some,
            r matches Some(img) ==> self.page_grid(index as int) matches Some(g) && image_px(*img)
                == g && grid_ok(g),
    {
        if index >= self.textures.len() {
            return None;
        }
        self.textures[index].get()
    }

    /// Resolves an atlas-region pointer to the region's bounds and its
    /// page index: `Some` exactly when the region table is present and
    /// knows the offset.
    pub fn get_tpag_info(&self, loc: u32) -> (r: Option<(Rect16, usize)>)
        requires
            self.wf(),
        ensures
            r is Some <==> self.tpag_entry_for(loc) is Some,
            r matches Some(v) ==> self.tpag_entry_for(loc) matches Some(e) && v.0
                == e.sprite_bounds && v.1 == e.texture_index as usize,
    {
        match &self.tpag {
            Some(t) => match t.get(loc) {
                Some(e) => Some((e.sprite_bounds, e.texture_index as usize)),
                None => None,
            },
            None => None,
        }
    }

    /// Crops one sprite frame out of its atlas page: resolves the
    /// region, decodes (or fetches) the page, and cuts the region's
    /// rectangle out. `Some` exactly when the region resolves, the page
    /// decodes, and the rectangle lies inside the page.
    pub fn get_tpag_subimage(&self, loc: u32) -> (r: Option<image::DynamicImage>)
        requires
            self.wf(),
        ensures
            ({
                let e = self.tpag_entry_for(loc);
                &&& (r is Some <==> (e matches Some(en) && (self.page_grid(
                    en.texture_index as int,
                ) matches Some(g) && en.sprite_bounds.0.1 + en.sprite_bounds.1.1 <= grid_h(g) && (
                en.sprite_bounds.0.0 + en.sprite_bounds.1.0 <= grid_w(g)
                    || en.sprite_bounds.1.1 == 0))))
                &&& (r matches Some(im) ==> e matches Some(en) && self.page_grid(
                    en.texture_index as int,
                ) matches Some(g) && grid_h(image_px(im)) == en.sprite_bounds.1.1 && (forall|i: int|
                    0 <= i < en.sprite_bounds.1.1 ==> (#[trigger] image_px(im)[i]).len()
                        == en.sprite_bounds.1.0) && (forall|i: int, j: int|
                    0 <= i < en.sprite_bounds.1.1 && 0 <= j < en.sprite_bounds.1.0
                        ==> #[trigger] image_px(im)[i][j] == g[en.sprite_bounds.0.1 + i][
                    en.sprite_bounds.0.0 + j]))
            }),
    {
        let info = match self.get_tpag_info(loc) {
            Some(info) => info,
            None => {
                return None;
            },
        };
        let ((x, y), (w, h)) = info.0;
        let img = match self.get_texture(info.1) {
            Some(img) => img,
            None => {
                return None;
            },
        };
        let dims = image_dims(img);
        if (y as u32) + (h as u32) > dims.1 {
            return None;
        }
        if h > 0 && (x as u32) + (w as u32) > dims.0 {
            return None;
        }
        Some(crop_image(img, x as u32, y as u32, w as u32, h as u32))
    }

    /// Finds the stored pointer under which the string table holds
    /// `name`: the scan is in table order and the first matching string
    /// decides. `None` exactly when the table is absent or no string
    /// matches.
    pub fn name_to_offset(&self, name: &str) -> (r: Option<u32>)
        requires
            self.wf(),
        ensures
            r is None <==> (self.strg is None || (self.strg matches Some(s) && (forall|i: int|
                0 <= i < s.strings@.len() ==> (#[trigger] s.strings@[i])@ != name@))),
            r matches Some(off) ==> (self.strg matches Some(s) && s.locations@.contains_key(off)
                && s.strings@[s.locations@[off] as int]@ == name@),
            self.strg matches Some(s) ==> (forall|i: int|
                (0 <= i < s.strings@.len() && (#[trigger] s.strings@[i])@ == name@ && (forall|k: int|
                    0 <= k < i ==> s.strings@[k]@ != name@)) ==> r == Some(
                    (s.offsets@[i] + 4) as u32,
                )),
    {
        let s = match &self.strg {
            Some(s) => s,
            None => {
                return None;
            },
        };
        let n = s.strings.len();
        let mut i: usize = 0;
        while i < n
            invariant
                self.wf(),
                (self.strg matches Some(ss) && ss == s),
                n == s.strings@.len(),
                0 <= i <= n,
                forall|k: int| 0 <= k < i ==> (#[trigger] s.strings@[k])@ != name@,
            decreases n - i,
        {
            if str_eq(s.strings[i].as_str(), name) {
                let off = s.offsets[i] + 4;
                proof {
                    assert(crate::ptr_table::loc_key(s.offsets@, 4, i as int) == off);
                }
                return Some(off);
            }
            i = i + 1;
        }
        None
    }

    /// Resolves a sprite by name and frame number to its atlas region:
    /// the name is looked up in the string table, the first sprite
    /// storing that name pointer is taken, and its frame's region
    /// pointer is resolved through the region table. With the first
    /// matching string at position `i0` and the first sprite storing
    /// its pointer at position `j`, the result is exactly that sprite's
    /// frame resolved through the region table, `None` when the frame
    /// number or the region pointer does not resolve.
    pub fn get_tpag_from_name_and_frame(&self, sprite_name: &str, frame: usize) -> (r: Option<
        (Rect16, usize),
    >)
        requires
            self.wf(),
        ensures
            r matches Some(v) ==> (self.sprt matches Some(sp) && exists|i: int|
                0 <= i < sp.sprites@.len() && frame < (#[trigger] sp.sprites@[i]).tpag_offsets@.len()
                    && (self.tpag_entry_for(sp.sprites@[i].tpag_offsets@[frame as int]) matches Some(
                    e,
                ) && v.0 == e.sprite_bounds && v.1 == e.texture_index as usize)),
            self.strg is None || self.sprt is None || self.tpag is None ==> r is None,
            forall|i0: int, j: int|
                #[trigger] self.first_pair(sprite_name@, i0, j) ==> r == (if frame
                    < self.sprt->0.sprites@[j].tpag_offsets@.len() {
                    match self.tpag_entry_for(
                        self.sprt->0.sprites@[j].tpag_offsets@[frame as int],
                    ) {
                        Some(e) => Some((e.sprite_bounds, e.texture_index as usize)),
                        None => None,
                    }
                } else {
                    None
                }),
            forall|i0: int| #[trigger] self.name_unclaimed(sprite_name@, i0) ==> r is None,
    {
        let off = match self.name_to_offset(sprite_name) {
            Some(off) => off,
            None => {
                return None;
            },
        };
        proof {
            let s_g = self.strg->0;
            assert forall|i0: int|
                (0 <= i0 < s_g.strings@.len() && (#[trigger] s_g.strings@[i0])@ == sprite_name@ && (
                forall|k: int| 0 <= k < i0 ==> s_g.strings@[k]@ != sprite_name@)) implies off
                == s_g.offsets@[i0] + 4 by {
                assert(Some(off) == Some((s_g.offsets@[i0] + 4) as u32));
            }
            assert(FormFile::name_offset_witness(s_g, sprite_name@, off));
        }
        let sp = match &self.sprt {
            Some(sp) => sp,
            None => {
                return None;
            },
        };
        if self.tpag.is_none() {
            return None;
        }
        let n = sp.sprites.len();
        let mut i: usize = 0;
        while i < n
            invariant
                self.wf(),
                (self.sprt matches Some(ss) && ss == sp),
                self.strg is Some,
                self.tpag is Some,
                (self.strg matches Some(s) && FormFile::name_offset_witness(s, sprite_name@, off)),
                n == sp.sprites@.len(),
                0 <= i <= n,
                forall|k: int| 0 <= k < i ==> (#[trigger] sp.sprites@[k]).name_offset != off,
            decreases n - i,
        {
            if sp.sprites[i].name_offset == off {
                proof {
                    assert forall|i0: int, j: int| #[trigger] self.first_pair(sprite_name@, i0, j) implies j
                        == i as int by {
                        let s_g = self.strg->0;
                        assert(off == s_g.offsets@[i0] + 4);
                        if j < i as int {
                            assert(sp.sprites@[j].name_offset != off);
                        }
                        if j > i as int {
                            assert(sp.sprites@[i as int].name_offset != s_g.offsets@[i0] + 4);
                        }
                    }
                }
                if frame >= sp.sprites[i].tpag_offsets.len() {
                    return None;
                }
                let ptr = sp.sprites[i].tpag_offsets[frame];
                let r = self.get_tpag_info(ptr);
                proof {
                    match r {
                        Some(v) => {
                            assert(ptr == sp.sprites@[i as int].tpag_offsets@[frame as int]);
                            assert(frame < sp.sprites@[i as int].tpag_offsets@.len() && (
                            self.tpag_entry_for(
                                sp.sprites@[i as int].tpag_offsets@[frame as int],
                            ) matches Some(e) && v.0 == e.sprite_bounds && v.1
                                == e.texture_index as usize));
                        },
                        None => {
                        },
                    }
                }
                return r;
            }
            i = i + 1;
        }
        None
    }
}

} // verus!
