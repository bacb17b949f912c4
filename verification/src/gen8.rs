use vstd::prelude::*;
use crate::track_slice::PosSlice;
use crate::byte_parsers::{spec_le32_at, spec_le64_at, u32_at, u64_at};
use crate::ParseErr;

verus! {

/// Where the game saves its data, one bit of the options word.
#[derive(Debug, Clone, Copy, PartialEq, Eq, Structural)]
pub enum SaveLocation {
    LocalAppData,
    AppData,
}

/// The game-options bit field, decoded from one `u32`. The raw word is
/// kept in `bits` for byte fidelity.
#[derive(Debug, Clone, Copy, PartialEq, Eq, Structural)]
pub struct GameOptions {
    pub bits: u32,
    pub start_fullscreen: bool,
    pub use_vsync: bool,
    pub interpolate_colors: bool,
    pub keep_aspect_ratio: bool,
    pub display_cursor: bool,
    pub allow_window_resize: bool,
    pub allow_fullscreen_switching: bool,
    pub save_location: SaveLocation,
    pub borderless_window: bool,
}

/// A stored flag is set exactly when its word is nonzero.
pub fn gm_bool(var: u32) -> (r: bool)
    ensures
        r == (var != 0),
{
    var != 0
}

/// The options carried by the word `w`, bit by bit.
pub open spec fn game_options_spec(w: u32) -> GameOptions {
    GameOptions {
        bits: w,
        start_fullscreen: w & 0x1 != 0,
        use_vsync: w & 0x2 != 0,
        interpolate_colors: w & 0x8 != 0,
        keep_aspect_ratio: w & 0x10 != 0,
        display_cursor: w & 0x20 != 0,
        allow_window_resize: w & 0x40 != 0,
        allow_fullscreen_switching: w & 0x80 != 0,
        save_location: if w & 0x2000 != 0 {
            SaveLocation::AppData
        } else {
            SaveLocation::LocalAppData
        },
        borderless_window: w & 0x4000 != 0,
    }
}

impl GameOptions {
    /// Decodes the options word.
    pub fn from_bits(w: u32) -> (r: GameOptions)
        ensures
            r == game_options_spec(w),
    {
        GameOptions {
            bits: w,
            start_fullscreen: gm_bool(w & 0x1),
            use_vsync: gm_bool(w & 0x2),
            interpolate_colors: gm_bool(w & 0x8),
            keep_aspect_ratio: gm_bool(w & 0x10),
            display_cursor: gm_bool(w & 0x20),
            allow_window_resize: gm_bool(w & 0x40),
            allow_fullscreen_switching: gm_bool(w & 0x80),
            save_location: if gm_bool(w & 0x2000) {
                SaveLocation::AppData
            } else {
                SaveLocation::LocalAppData
            },
            borderless_window: gm_bool(w & 0x4000),
        }
    }
}

/// The general-info section: fixed metadata words, the options bit
/// field, the build timestamp as seconds since the epoch, a
/// self-declared list of words, and a reserved tail kept verbatim.
#[derive(Debug)]
pub struct Gen8 {
    pub unk: u32,
    pub internal_name_offset: u32,
    pub config_name_offset: u32,
    pub unk2: u32,
    pub unk3: u32,
    pub unk4: u32,
    pub unk5: Vec<u8>,
    pub internal_name_offset2: u32,
    pub unk6: u32,
    pub unk7: Vec<u32>,
    pub window_size: (u32, u32),
    pub game_options: GameOptions,
    pub unk8: u32,
    pub unk9: u32,
    pub unk10: Vec<u32>,
    pub build_time: u64,
    pub game_name_offset: u32,
    pub unk12: u32,
    pub unk13: u32,
    pub unk14: Vec<u32>,
    pub server_port: u32,
    pub numbers: Vec<u32>,
    pub nonsense: Vec<u8>,
}

/// The section's self-declared count of trailing words.
pub open spec fn gen8_number_count(c: Seq<u8>) -> int {
    spec_le32_at(c, 128) as int
}

/// The fixed head, the word list and the 64-byte reserved tail all fit.
pub open spec fn gen8_ok(c: Seq<u8>) -> bool {
    c.len() >= 196 && 196 + 4 * gen8_number_count(c) <= c.len()
}

/// `g` holds exactly the fields stored at the front of `c`.
pub open spec fn gen8_matches(g: Gen8, c: Seq<u8>) -> bool {
    let n = gen8_number_count(c);
    &&& g.unk == spec_le32_at(c, 0)
    &&& g.internal_name_offset == spec_le32_at(c, 4)
    &&& g.config_name_offset == spec_le32_at(c, 8)
    &&& g.unk2 == spec_le32_at(c, 12)
    &&& g.unk3 == spec_le32_at(c, 16)
    &&& g.unk4 == spec_le32_at(c, 20)
    &&& g.unk5@ == c.subrange(24, 40)
    &&& g.internal_name_offset2 == spec_le32_at(c, 40)
    &&& g.unk6 == spec_le32_at(c, 44)
    &&& g.unk7@ == Seq::new(3, |k: int| spec_le32_at(c, 48 + 4 * k))
    &&& g.window_size == (spec_le32_at(c, 60), spec_le32_at(c, 64))
    &&& g.game_options == game_options_spec(spec_le32_at(c, 68))
    &&& g.unk8 == spec_le32_at(c, 72)
    &&& g.unk9 == spec_le32_at(c, 76)
    &&& g.unk10@ == Seq::new(3, |k: int| spec_le32_at(c, 80 + 4 * k))
    &&& g.build_time == spec_le64_at(c, 92)
    &&& g.game_name_offset == spec_le32_at(c, 100)
    &&& g.unk12 == spec_le32_at(c, 104)
    &&& g.unk13 == spec_le32_at(c, 108)
    &&& g.unk14@ == Seq::new(3, |k: int| spec_le32_at(c, 112 + 4 * k))
    &&& g.server_port == spec_le32_at(c, 124)
    &&& g.numbers@ == Seq::new(n as nat, |k: int| spec_le32_at(c, 132 + 4 * k))
    &&& g.nonsense@ == c.subrange(132 + 4 * n, 196 + 4 * n)
}

impl Gen8 {
    /// Decodes a GEN8 section payload. The returned view is the input
    /// itself, as the section owns its whole payload.
    pub fn take<'a>(input: PosSlice<'a>) -> (r: Result<(PosSlice<'a>, Gen8), ParseErr>)
        requires
            input.wf(),
        ensures
            gen8_ok(input.data@) ==> (r matches Ok(t) && t.0 == input && gen8_matches(
                t.1,
                input.data@,
            )),
            !gen8_ok(input.data@) ==> (r matches Err(e) && e == ParseErr::Eof),
    {
        let ghost c = input.data@;
        if input.len() < 196 {
            return Err(ParseErr::Eof);
        }
        let n = u32_at(input, 128) as usize;
        if (input.len() - 196) / 4 < n {
            assert(!gen8_ok(c));
            return Err(ParseErr::Eof);
        }
        assert(196 + 4 * (n as int) <= c.len());
        let mut numbers: Vec<u32> = Vec::new();
        let mut k: usize = 0;
        while k < n
            invariant
                c == input.data@,
                input.wf(),
                n == gen8_number_count(c),
                196 + 4 * (n as int) <= c.len(),
                0 <= k <= n,
                numbers@.len() == k,
                forall|j: int| 0 <= j < k ==> #[trigger] numbers@[j] == spec_le32_at(c, 132 + 4 * j),
            decreases n - k,
        {
            numbers.push(u32_at(input, 132 + 4 * k));
            k = k + 1;
        }
        let mut unk7: Vec<u32> = Vec::new();
        unk7.push(u32_at(input, 48));
        unk7.push(u32_at(input, 52));
        unk7.push(u32_at(input, 56));
        let mut unk10: Vec<u32> = Vec::new();
        unk10.push(u32_at(input, 80));
        unk10.push(u32_at(input, 84));
        unk10.push(u32_at(input, 88));
        let mut unk14: Vec<u32> = Vec::new();
        unk14.push(u32_at(input, 112));
        unk14.push(u32_at(input, 116));
        unk14.push(u32_at(input, 120));
        let unk5 = vstd::slice::slice_to_vec(vstd::slice::slice_subrange(input.data, 24, 40));
        let nonsense = vstd::slice::slice_to_vec(
            vstd::slice::slice_subrange(input.data, 132 + 4 * n, 196 + 4 * n),
        );
        let g = Gen8 {
            unk: u32_at(input, 0),
            internal_name_offset: u32_at(input, 4),
            config_name_offset: u32_at(input, 8),
            unk2: u32_at(input, 12),
            unk3: u32_at(input, 16),
            unk4: u32_at(input, 20),
            unk5,
            internal_name_offset2: u32_at(input, 40),
            unk6: u32_at(input, 44),
            unk7,
            window_size: (u32_at(input, 60), u32_at(input, 64)),
            game_options: GameOptions::from_bits(u32_at(input, 68)),
            unk8: u32_at(input, 72),
            unk9: u32_at(input, 76),
            unk10,
            build_time: u64_at(input, 92),
            game_name_offset: u32_at(input, 100),
            unk12: u32_at(input, 104),
            unk13: u32_at(input, 108),
            unk14,
            server_port: u32_at(input, 124),
            numbers,
            nonsense,
        };
        proof {
            assert(g.unk7@ =~= Seq::new(3, |k: int| spec_le32_at(c, 48 + 4 * k)));
            assert(g.unk10@ =~= Seq::new(3, |k: int| spec_le32_at(c, 80 + 4 * k)));
            assert(g.unk14@ =~= Seq::new(3, |k: int| spec_le32_at(c, 112 + 4 * k)));
            assert(g.numbers@ =~= Seq::new(
                gen8_number_count(c) as nat,
                |k: int| spec_le32_at(c, 132 + 4 * k),
            ));
        }
        Ok((input, g))
    }
}

} // verus!
