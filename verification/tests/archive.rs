use gm_data_win::agrp::Agrp;
use gm_data_win::audo::Audo;
use gm_data_win::form_file::FormFile;
use gm_data_win::gen8::{GameOptions, SaveLocation};
use gm_data_win::patch::rewrite_archive_audio;
use gm_data_win::sections::{take_data_win_file, Section};
use gm_data_win::sond::SondEntry;
use gm_data_win::sprt::SprtEntry;
use gm_data_win::strg::Strg;
use gm_data_win::tpag::TpagEntry;
use gm_data_win::track_slice::PosSlice;
use gm_data_win::{extension_from_magic, remove_padding, ParseErr};

fn le(v: u32) -> [u8; 4] {
    v.to_le_bytes()
}

fn push_u32(out: &mut Vec<u8>, v: u32) {
    out.extend_from_slice(&le(v));
}

/// Wraps section chunks in a FORM envelope.
fn envelope(sections: &[u8]) -> Vec<u8> {
    let mut out = Vec::new();
    out.extend_from_slice(b"FORM");
    push_u32(&mut out, sections.len() as u32);
    out.extend_from_slice(sections);
    out
}

/// A STRG section holding the given strings back to back; returns the
/// chunk bytes and the absolute offset of each string's characters,
/// assuming the chunk starts at absolute offset `chunk_pos`.
fn strg_chunk(chunk_pos: u32, strings: &[&str]) -> (Vec<u8>, Vec<u32>) {
    let n = strings.len() as u32;
    let payload_pos = chunk_pos + 8;
    let recs_base = payload_pos + 4 + 4 * n;
    let mut ptrs = Vec::new();
    let mut recs = Vec::new();
    let mut char_offsets = Vec::new();
    for s in strings {
        let rec_pos = recs_base + recs.len() as u32;
        ptrs.push(rec_pos);
        char_offsets.push(rec_pos + 4);
        push_u32(&mut recs, s.len() as u32);
        recs.extend_from_slice(s.as_bytes());
    }
    let mut payload = Vec::new();
    push_u32(&mut payload, n);
    for p in &ptrs {
        push_u32(&mut payload, *p);
    }
    payload.extend_from_slice(&recs);
    let mut chunk = Vec::new();
    chunk.extend_from_slice(b"STRG");
    push_u32(&mut chunk, payload.len() as u32);
    chunk.extend_from_slice(&payload);
    (chunk, char_offsets)
}

/// An AUDO section holding the given blobs in canonical layout, written
/// as if its chunk starts at absolute offset `chunk_pos`.
fn audo_chunk(chunk_pos: u32, blobs: &[&[u8]]) -> Vec<u8> {
    let n = blobs.len() as u32;
    let mut recs = Vec::new();
    let mut ptrs = Vec::new();
    let recs_base = chunk_pos + 12 + 4 * n;
    for b in blobs {
        ptrs.push(recs_base + recs.len() as u32);
        push_u32(&mut recs, b.len() as u32);
        recs.extend_from_slice(b);
        while recs.len() % 4 != 0 {
            recs.push(0);
        }
    }
    let mut payload = Vec::new();
    push_u32(&mut payload, n);
    for p in &ptrs {
        push_u32(&mut payload, *p);
    }
    payload.extend_from_slice(&recs);
    let mut chunk = Vec::new();
    chunk.extend_from_slice(b"AUDO");
    push_u32(&mut chunk, payload.len() as u32);
    chunk.extend_from_slice(&payload);
    chunk
}

fn decode(archive: &[u8]) -> Vec<Section> {
    take_data_win_file(archive).expect("archive decodes")
}

#[test]
fn string_table_round_trips_name_pointer() {
    // A string table holding ["hero"], and a lookup through the raw
    // pointer a sprite would store as its name.
    let (chunk, char_offsets) = strg_chunk(8, &["hero"]);
    let archive = envelope(&chunk);
    let sections = decode(&archive);
    assert_eq!(sections.len(), 1);
    let file = FormFile::from_sections(sections);
    let strg = file.strg.as_ref().expect("string table present");
    assert_eq!(strg.strings.len(), 1);
    assert_eq!(strg.strings[0], "hero");
    let name_pointer = char_offsets[0];
    assert_eq!(strg.get(name_pointer).map(|s| s.as_str()), Some("hero"));
    assert_eq!(file.name_to_offset("hero"), Some(name_pointer));
    assert_eq!(file.name_to_offset("villain"), None);
}

#[test]
fn sprite_name_pointer_resolves_through_string_table() {
    // A sprite record stores the string's absolute offset as its name;
    // looking that raw pointer up yields the name.
    let (strg, char_offsets) = strg_chunk(8, &["hero"]);
    let name_pointer = char_offsets[0];

    // One sprite record: 68-byte head, no floats, one frame pointer.
    let sprt_pos = 8 + strg.len() as u32;
    let payload_pos = sprt_pos + 8;
    let rec_pos = payload_pos + 8;
    let mut rec = Vec::new();
    push_u32(&mut rec, name_pointer); // name offset
    for _ in 0..15 {
        push_u32(&mut rec, 0); // size, bounds, reserved words, origin, more reserved
    }
    push_u32(&mut rec, 0); // float count
    push_u32(&mut rec, 0); // opacity bits
    push_u32(&mut rec, 0);
    push_u32(&mut rec, 1); // frame count
    push_u32(&mut rec, 0xDEAD); // frame region pointer
    let mut payload = Vec::new();
    push_u32(&mut payload, 1);
    push_u32(&mut payload, rec_pos);
    payload.extend_from_slice(&rec);
    let mut sprt = Vec::new();
    sprt.extend_from_slice(b"SPRT");
    push_u32(&mut sprt, payload.len() as u32);
    sprt.extend_from_slice(&payload);

    let mut body = strg.clone();
    body.extend_from_slice(&sprt);
    let archive = envelope(&body);
    let file = FormFile::from_sections(decode(&archive));
    let sprite = &file.sprt.as_ref().unwrap().sprites[0];
    assert_eq!(sprite.name_offset, name_pointer);
    assert_eq!(sprite.tpag_offsets, vec![0xDEAD]);
    let name = file.strg.as_ref().unwrap().get(sprite.name_offset).unwrap();
    assert_eq!(name, "hero");
}

#[test]
fn reverse_index_maps_each_pointer_to_its_position() {
    // Distinct pointers: the reverse index sends stored pointer i back
    // to position i of the decoded sequence.
    let pos = 8u32;
    let base = pos + 8 + 4 + 3 * 4;
    let mut payload = Vec::new();
    push_u32(&mut payload, 3);
    push_u32(&mut payload, base);
    push_u32(&mut payload, base + 4);
    push_u32(&mut payload, base + 8);
    push_u32(&mut payload, 111);
    push_u32(&mut payload, 222);
    push_u32(&mut payload, 333);
    let mut chunk = Vec::new();
    chunk.extend_from_slice(b"AGRP");
    push_u32(&mut chunk, payload.len() as u32);
    chunk.extend_from_slice(&payload);
    let archive = envelope(&chunk);
    let sections = decode(&archive);
    let Section::Agrp(agrp) = &sections[0] else {
        panic!("expected an audio-group table");
    };
    assert_eq!(agrp.audio_groups, vec![111, 222, 333]);
    assert_eq!(agrp.locations.get(&base), Some(&0));
    assert_eq!(agrp.locations.get(&(base + 4)), Some(&1));
    assert_eq!(agrp.locations.get(&(base + 8)), Some(&2));
}

#[test]
fn duplicate_pointers_alias_the_first_record() {
    // Two identical pointers decode to two references to the same
    // record position, not two separate records.
    let pos = 8u32;
    let base = pos + 8 + 4 + 2 * 4;
    let mut payload = Vec::new();
    push_u32(&mut payload, 2);
    push_u32(&mut payload, base);
    push_u32(&mut payload, base);
    push_u32(&mut payload, 777);
    let mut chunk = Vec::new();
    chunk.extend_from_slice(b"AGRP");
    push_u32(&mut chunk, payload.len() as u32);
    chunk.extend_from_slice(&payload);
    let archive = envelope(&chunk);
    let sections = decode(&archive);
    let Section::Agrp(agrp) = &sections[0] else {
        panic!("expected an audio-group table");
    };
    assert_eq!(agrp.audio_groups, vec![777, 777]);
    assert_eq!(agrp.locations.len(), 1);
    assert_eq!(agrp.locations.get(&base), Some(&0));
}

#[test]
fn pointer_before_view_is_a_bad_pointer() {
    let mut payload = Vec::new();
    push_u32(&mut payload, 1);
    push_u32(&mut payload, 4); // resolves before the table body
    let mut chunk = Vec::new();
    chunk.extend_from_slice(b"AGRP");
    push_u32(&mut chunk, payload.len() as u32);
    chunk.extend_from_slice(&payload);
    let archive = envelope(&chunk);
    assert!(matches!(take_data_win_file(&archive), Err(ParseErr::BadPointer)));
}

#[test]
fn truncated_record_is_an_eof() {
    let pos = 8u32;
    let base = pos + 8 + 4 + 4;
    let mut payload = Vec::new();
    push_u32(&mut payload, 1);
    push_u32(&mut payload, base + 2); // only two bytes remain there
    payload.extend_from_slice(&[0, 0, 0, 0]);
    let mut chunk = Vec::new();
    chunk.extend_from_slice(b"AGRP");
    push_u32(&mut chunk, payload.len() as u32);
    chunk.extend_from_slice(&payload);
    let archive = envelope(&chunk);
    assert!(matches!(take_data_win_file(&archive), Err(ParseErr::Eof)));
}

#[test]
fn missing_envelope_magic_is_bad_magic() {
    let mut archive = Vec::new();
    archive.extend_from_slice(b"XXXX");
    push_u32(&mut archive, 0);
    assert!(matches!(take_data_win_file(&archive), Err(ParseErr::BadMagic)));
}

#[test]
fn short_input_is_an_eof() {
    assert!(matches!(take_data_win_file(b"FOR"), Err(ParseErr::Eof)));
}

#[test]
fn envelope_length_past_end_is_an_eof() {
    let mut archive = Vec::new();
    archive.extend_from_slice(b"FORM");
    push_u32(&mut archive, 100);
    assert!(matches!(take_data_win_file(&archive), Err(ParseErr::Eof)));
}

#[test]
fn invalid_text_is_a_bad_encoding() {
    let pos = 8u32;
    let rec_pos = pos + 8 + 4 + 4;
    let mut payload = Vec::new();
    push_u32(&mut payload, 1);
    push_u32(&mut payload, rec_pos);
    push_u32(&mut payload, 2);
    payload.extend_from_slice(&[0xFF, 0xFE]); // not UTF-8
    let mut chunk = Vec::new();
    chunk.extend_from_slice(b"STRG");
    push_u32(&mut chunk, payload.len() as u32);
    chunk.extend_from_slice(&payload);
    let archive = envelope(&chunk);
    assert!(matches!(take_data_win_file(&archive), Err(ParseErr::BadEncoding)));
}

#[test]
fn unknown_section_keeps_tag_and_payload() {
    let mut chunk = Vec::new();
    chunk.extend_from_slice(b"ZZAP");
    push_u32(&mut chunk, 3);
    chunk.extend_from_slice(&[9, 8, 7]);
    let archive = envelope(&chunk);
    let sections = decode(&archive);
    let Section::Unk { name, data } = &sections[0] else {
        panic!("expected the unknown-section fallback");
    };
    assert_eq!(name.as_slice(), b"ZZAP");
    assert_eq!(data.as_slice(), &[9, 8, 7]);
}

#[test]
fn malformed_known_section_does_not_fall_back() {
    // A registered tag with a malformed body aborts the decode instead
    // of degrading to an unknown section.
    let mut chunk = Vec::new();
    chunk.extend_from_slice(b"AGRP");
    push_u32(&mut chunk, 2);
    chunk.extend_from_slice(&[1, 0]); // truncated entry count
    let archive = envelope(&chunk);
    assert!(take_data_win_file(&archive).is_err());
}

#[test]
fn sond_record_fields_decode_exactly() {
    let pos = 8u32;
    let rec_pos = pos + 8 + 4 + 4;
    let mut payload = Vec::new();
    push_u32(&mut payload, 1);
    push_u32(&mut payload, rec_pos);
    for v in [10, 0, 0, 40, 0, 0x3F800000, 0, 2, 7u32] {
        push_u32(&mut payload, v);
    }
    let mut chunk = Vec::new();
    chunk.extend_from_slice(b"SOND");
    push_u32(&mut chunk, payload.len() as u32);
    chunk.extend_from_slice(&payload);
    let archive = envelope(&chunk);
    let file = FormFile::from_sections(decode(&archive));
    let sond = file.sond.as_ref().unwrap();
    let e: &SondEntry = sond.get(rec_pos).unwrap();
    assert_eq!(e.name_offset, 10);
    assert_eq!(e.play_speed_bits, 0x3F800000);
    assert_eq!(f32::from_bits(e.play_speed_bits), 1.0f32);
    assert_eq!(e.audiogroup_index, 2);
    assert_eq!(e.index_in_audiogroup, 7);
}

#[test]
fn tpag_record_fields_decode_exactly() {
    let pos = 8u32;
    let rec_pos = pos + 8 + 4 + 4;
    let mut payload = Vec::new();
    push_u32(&mut payload, 1);
    push_u32(&mut payload, rec_pos);
    for v in [1u16, 2, 8, 9, 0, 0, 0, 0, 8, 9, 3] {
        payload.extend_from_slice(&v.to_le_bytes());
    }
    let mut chunk = Vec::new();
    chunk.extend_from_slice(b"TPAG");
    push_u32(&mut chunk, payload.len() as u32);
    chunk.extend_from_slice(&payload);
    let archive = envelope(&chunk);
    let file = FormFile::from_sections(decode(&archive));
    let e: &TpagEntry = file.tpag.as_ref().unwrap().get(rec_pos).unwrap();
    assert_eq!(e.sprite_bounds, ((1, 2), (8, 9)));
    assert_eq!(e.size, (8, 9));
    assert_eq!(e.texture_index, 3);
    assert_eq!(file.get_tpag_info(rec_pos), Some((((1, 2), (8, 9)), 3)));
    assert_eq!(file.get_tpag_info(rec_pos + 1), None);
}

#[test]
fn sprite_record_tails_decode_exactly() {
    let pos = 8u32;
    let rec_pos = pos + 8 + 4 + 4;
    let mut rec = Vec::new();
    push_u32(&mut rec, 99); // name offset
    push_u32(&mut rec, 16); // width
    push_u32(&mut rec, 24); // height
    for _ in 0..13 {
        push_u32(&mut rec, 0);
    }
    push_u32(&mut rec, 2); // float count
    push_u32(&mut rec, 0x40000000);
    push_u32(&mut rec, 0x40400000);
    push_u32(&mut rec, 0x3F000000); // opacity bits
    push_u32(&mut rec, 5);
    push_u32(&mut rec, 2); // frame count
    push_u32(&mut rec, 0x100);
    push_u32(&mut rec, 0x200);
    let mut payload = Vec::new();
    push_u32(&mut payload, 1);
    push_u32(&mut payload, rec_pos);
    payload.extend_from_slice(&rec);
    let mut chunk = Vec::new();
    chunk.extend_from_slice(b"SPRT");
    push_u32(&mut chunk, payload.len() as u32);
    chunk.extend_from_slice(&payload);
    let archive = envelope(&chunk);
    let file = FormFile::from_sections(decode(&archive));
    let e: &SprtEntry = file.sprt.as_ref().unwrap().get(rec_pos).unwrap();
    assert_eq!(e.name_offset, 99);
    assert_eq!(e.size, (16, 24));
    assert_eq!(e.unk_float_bits, vec![0x40000000, 0x40400000]);
    assert_eq!(f32::from_bits(e.unk_float_bits[0]), 2.0f32);
    assert_eq!(e.opacity_bits, 0x3F000000);
    assert_eq!(e.unk5, 5);
    assert_eq!(e.tpag_offsets, vec![0x100, 0x200]);
}

#[test]
fn font_glyphs_decode_through_nested_table() {
    let pos = 8u32;
    let rec_pos = pos + 8 + 4 + 4;
    // Font record: 44-byte head, then a one-glyph pointer table.
    let glyph_pos = rec_pos + 44 + 4 + 4;
    let mut rec = Vec::new();
    push_u32(&mut rec, 1); // name
    push_u32(&mut rec, 2); // face name
    push_u32(&mut rec, 0x41400000); // size bits (12.0)
    for _ in 0..8 {
        push_u32(&mut rec, 0);
    }
    push_u32(&mut rec, 1); // glyph count
    push_u32(&mut rec, glyph_pos);
    for v in [0x41u16, 1, 2, 3, 4, 5, 6] {
        rec.extend_from_slice(&v.to_le_bytes());
    }
    let mut payload = Vec::new();
    push_u32(&mut payload, 1);
    push_u32(&mut payload, rec_pos);
    payload.extend_from_slice(&rec);
    let mut chunk = Vec::new();
    chunk.extend_from_slice(b"FONT");
    push_u32(&mut chunk, payload.len() as u32);
    chunk.extend_from_slice(&payload);
    let archive = envelope(&chunk);
    let file = FormFile::from_sections(decode(&archive));
    let font = file.font.as_ref().unwrap();
    let e = font.get(rec_pos).unwrap();
    assert_eq!(e.name, 1);
    assert_eq!(f32::from_bits(e.size_bits), 12.0f32);
    assert_eq!(e.chars.len(), 1);
    assert_eq!(e.chars[0].character, 'A');
    assert_eq!(e.chars[0].bounds, ((1, 2), (3, 4)));
    assert_eq!(e.chars[0].origin, (5, 6));
}

#[test]
fn surrogate_code_unit_is_a_bad_encoding() {
    let pos = 8u32;
    let rec_pos = pos + 8 + 4 + 4;
    let glyph_pos = rec_pos + 44 + 4 + 4;
    let mut rec = Vec::new();
    for _ in 0..11 {
        push_u32(&mut rec, 0);
    }
    push_u32(&mut rec, 1);
    push_u32(&mut rec, glyph_pos);
    for v in [0xD800u16, 0, 0, 0, 0, 0, 0] {
        rec.extend_from_slice(&v.to_le_bytes());
    }
    let mut payload = Vec::new();
    push_u32(&mut payload, 1);
    push_u32(&mut payload, rec_pos);
    payload.extend_from_slice(&rec);
    let mut chunk = Vec::new();
    chunk.extend_from_slice(b"FONT");
    push_u32(&mut chunk, payload.len() as u32);
    chunk.extend_from_slice(&payload);
    let archive = envelope(&chunk);
    assert!(matches!(take_data_win_file(&archive), Err(ParseErr::BadEncoding)));
}

#[test]
fn gen8_decodes_options_and_build_time() {
    let pos = 8u32;
    let mut payload = vec![0u8; 196];
    payload[68..72].copy_from_slice(&le(0x2001)); // fullscreen + appdata save
    payload[92..100].copy_from_slice(&1_700_000_000u64.to_le_bytes());
    payload[128..132].copy_from_slice(&le(0)); // no trailing words
    let _ = pos;
    let mut chunk = Vec::new();
    chunk.extend_from_slice(b"GEN8");
    push_u32(&mut chunk, payload.len() as u32);
    chunk.extend_from_slice(&payload);
    let archive = envelope(&chunk);
    let sections = decode(&archive);
    let Section::Gen8(g) = &sections[0] else {
        panic!("expected the general-info section");
    };
    assert!(g.game_options.start_fullscreen);
    assert!(!g.game_options.use_vsync);
    assert_eq!(g.game_options.save_location, SaveLocation::AppData);
    assert_eq!(g.build_time, 1_700_000_000);
    assert_eq!(g.nonsense.len(), 64);
}

#[test]
fn game_options_bits_decode_each_flag() {
    let o = GameOptions::from_bits(0x40E1);
    assert!(o.start_fullscreen);
    assert!(!o.use_vsync);
    assert!(o.display_cursor);
    assert!(o.allow_window_resize);
    assert!(o.allow_fullscreen_switching);
    assert_eq!(o.save_location, SaveLocation::LocalAppData);
    assert!(o.borderless_window);
    assert_eq!(o.bits, 0x40E1);
}

#[test]
fn audio_record_offsets_follow_the_alignment_rule() {
    // Blobs of 3 and 10 bytes: the first record sits at the base, the
    // second 4 + 4 bytes later (3 padded to 4, plus the length prefix).
    let chunk = audo_chunk(8, &[&[1, 2, 3], &[0; 10]]);
    let archive = envelope(&chunk);
    let file = FormFile::from_sections(decode(&archive));
    let audo = &file.audos[0];
    assert_eq!(audo.offset, 8);
    assert_eq!(audo.files[0], vec![1, 2, 3]);
    assert_eq!(audo.files[1], vec![0; 10]);
    let out = audo.write_to(8).expect("fits");
    // base = 8 (chunk) + 12 (header + count) + 8 (pointer list)
    let base = 8 + 12 + 8u32;
    let ptr0 = u32::from_le_bytes(out[12..16].try_into().unwrap());
    let ptr1 = u32::from_le_bytes(out[16..20].try_into().unwrap());
    assert_eq!(ptr0, base);
    assert_eq!(ptr1, base + 4 + 4);
    // The rewrite of an unedited canonical store reproduces its bytes.
    let mut expected = Vec::new();
    expected.extend_from_slice(&chunk);
    assert_eq!(out, expected);
}

#[test]
fn audio_round_trip_preserves_records() {
    let blobs: [&[u8]; 3] = [b"RIFFdata", b"x", b""];
    let chunk = audo_chunk(8, &blobs);
    let archive = envelope(&chunk);
    let file = FormFile::from_sections(decode(&archive));
    let rewritten = file.audos[0].write_to(8).unwrap();
    let again = envelope(&rewritten);
    let file2 = FormFile::from_sections(decode(&again));
    assert_eq!(file.audos[0].files, file2.audos[0].files);
}

#[test]
fn shrinking_a_blob_truncates_the_file_exactly() {
    let big = vec![7u8; 100];
    let chunk = audo_chunk(8, &[&big]);
    let archive = envelope(&chunk);
    let old_len = archive.len();
    let mut file = FormFile::from_sections(decode(&archive));
    file.audos[0].files[0] = vec![1, 2, 3];
    let at = file.audos[0].offset;
    let patched = rewrite_archive_audio(&archive, &file.audos[0], at).unwrap();
    // count word + one pointer + (prefix 4 + payload 3 + pad 1)
    let expected_len = at as usize + 8 + 4 + 4 + 8;
    assert_eq!(patched.len(), expected_len);
    assert!(patched.len() < old_len);
    // The envelope length reaches exactly the new end of file.
    let form_size = u32::from_le_bytes(patched[4..8].try_into().unwrap());
    assert_eq!(form_size as usize, patched.len() - 8);
    let file2 = FormFile::from_sections(decode(&patched));
    assert_eq!(file2.audos[0].files[0], vec![1, 2, 3]);
}

#[test]
fn audio_lookup_by_stored_pointer() {
    let chunk = audo_chunk(8, &[b"abc", b"defgh"]);
    let archive = envelope(&chunk);
    let file = FormFile::from_sections(decode(&archive));
    let audo: &Audo = &file.audos[0];
    let base = 8 + 12 + 8u32;
    assert_eq!(audo.get(base).map(|v| v.as_slice()), Some(b"abc".as_slice()));
    assert_eq!(audo.get(base + 8).map(|v| v.as_slice()), Some(b"defgh".as_slice()));
    assert_eq!(audo.get(base + 1), None);
}

#[test]
fn last_section_of_a_kind_wins() {
    let (strg1, _) = strg_chunk(8, &["first"]);
    let (strg2, offs2) = strg_chunk(8 + strg1.len() as u32, &["second"]);
    let mut body = strg1.clone();
    body.extend_from_slice(&strg2);
    let archive = envelope(&body);
    let file = FormFile::from_sections(decode(&archive));
    let strg: &Strg = file.strg.as_ref().unwrap();
    assert_eq!(strg.strings[0], "second");
    assert_eq!(file.name_to_offset("second"), Some(offs2[0]));
    assert_eq!(file.name_to_offset("first"), None);
}

#[test]
fn agrp_groups_decode_in_order() {
    let pos = 8u32;
    let base = pos + 8 + 4 + 2 * 4;
    let mut payload = Vec::new();
    push_u32(&mut payload, 2);
    push_u32(&mut payload, base + 4);
    push_u32(&mut payload, base);
    push_u32(&mut payload, 5);
    push_u32(&mut payload, 6);
    let mut chunk = Vec::new();
    chunk.extend_from_slice(b"AGRP");
    push_u32(&mut chunk, payload.len() as u32);
    chunk.extend_from_slice(&payload);
    let archive = envelope(&chunk);
    let file = FormFile::from_sections(decode(&archive));
    let agrp: &Agrp = file.agrp.as_ref().unwrap();
    assert_eq!(agrp.audio_groups, vec![6, 5]);
}

#[test]
fn name_lookup_takes_the_first_matching_string() {
    let (chunk, offs) = strg_chunk(8, &["twin", "twin", "other"]);
    let archive = envelope(&chunk);
    let file = FormFile::from_sections(decode(&archive));
    assert_eq!(file.name_to_offset("twin"), Some(offs[0]));
    assert_eq!(file.name_to_offset("other"), Some(offs[2]));
}

#[test]
fn name_and_frame_resolve_to_the_region() {
    // TPAG first, then STRG, then one sprite whose name points at the
    // string and whose only frame points at the region.
    let mut region_payload = Vec::new();
    push_u32(&mut region_payload, 1);
    let region_pos = 8 + 12 + 4u32;
    push_u32(&mut region_payload, region_pos);
    for v in [3u16, 4, 8, 8, 0, 0, 0, 0, 8, 8, 2] {
        region_payload.extend_from_slice(&v.to_le_bytes());
    }
    let mut tpag = Vec::new();
    tpag.extend_from_slice(b"TPAG");
    push_u32(&mut tpag, region_payload.len() as u32);
    tpag.extend_from_slice(&region_payload);

    let (strg, offs) = strg_chunk(8 + tpag.len() as u32, &["hero"]);
    let name_pointer = offs[0];

    let sprt_pos = 8 + tpag.len() as u32 + strg.len() as u32;
    let rec_pos = sprt_pos + 8 + 8;
    let mut rec = Vec::new();
    push_u32(&mut rec, name_pointer);
    for _ in 0..15 {
        push_u32(&mut rec, 0);
    }
    push_u32(&mut rec, 0); // float count
    push_u32(&mut rec, 0);
    push_u32(&mut rec, 0);
    push_u32(&mut rec, 1); // frame count
    push_u32(&mut rec, region_pos);
    let mut sprt_payload = Vec::new();
    push_u32(&mut sprt_payload, 1);
    push_u32(&mut sprt_payload, rec_pos);
    sprt_payload.extend_from_slice(&rec);
    let mut sprt = Vec::new();
    sprt.extend_from_slice(b"SPRT");
    push_u32(&mut sprt, sprt_payload.len() as u32);
    sprt.extend_from_slice(&sprt_payload);

    let mut body = tpag.clone();
    body.extend_from_slice(&strg);
    body.extend_from_slice(&sprt);
    let archive = envelope(&body);
    let file = FormFile::from_sections(decode(&archive));
    assert_eq!(
        file.get_tpag_from_name_and_frame("hero", 0),
        Some((((3, 4), (8, 8)), 2)),
    );
    assert_eq!(file.get_tpag_from_name_and_frame("hero", 1), None);
    assert_eq!(file.get_tpag_from_name_and_frame("villain", 0), None);
}

#[test]
fn padding_is_stripped_back_to_the_last_payload_byte() {
    assert_eq!(remove_padding(vec![1, 2, 0, 0]), vec![1, 2]);
    assert_eq!(remove_padding(vec![0, 0, 0]), Vec::<u8>::new());
    assert_eq!(remove_padding(vec![]), Vec::<u8>::new());
    assert_eq!(remove_padding(vec![5]), vec![5]);
    assert_eq!(remove_padding(vec![0, 9]), vec![0, 9]);
}

#[test]
fn audio_extensions_follow_the_magic_bytes() {
    assert_eq!(extension_from_magic(b"RIFF"), "wav");
    assert_eq!(extension_from_magic(b"OggS"), "ogg");
    assert_eq!(extension_from_magic(b"ABCD"), "bin");
    assert_eq!(extension_from_magic(b"RI"), "bin");
}

#[test]
fn primitive_readers_consume_little_endian_fields() {
    let bytes = [0x78u8, 0x56, 0x34, 0x12, 0xAA];
    let view = PosSlice::from_slice(&bytes);
    let (rest, v) = gm_data_win::byte_parsers::le_u32(view).unwrap();
    assert_eq!(v, 0x12345678);
    assert_eq!(rest.pos(), 4);
    assert_eq!(rest.len(), 1);
    let (_, b) = gm_data_win::byte_parsers::le_u8(rest).unwrap();
    assert_eq!(b, 0xAA);
    assert!(matches!(gm_data_win::byte_parsers::le_u16(rest), Err(ParseErr::Eof)));
}

#[test]
fn chunk_framing_splits_tag_and_payload() {
    let mut bytes = Vec::new();
    bytes.extend_from_slice(b"STRG");
    push_u32(&mut bytes, 3);
    bytes.extend_from_slice(&[1, 2, 3, 99]);
    let view = PosSlice::from_slice(&bytes);
    let (rest, inner) = gm_data_win::section_header::take_section(b"STRG", view).unwrap();
    assert_eq!(inner.pos(), 8);
    assert_eq!(inner.len(), 3);
    assert_eq!(rest.pos(), 11);
    assert_eq!(rest.len(), 1);
    assert!(matches!(
        gm_data_win::section_header::take_section(b"SOND", view),
        Err(ParseErr::BadMagic)
    ));
}

#[test]
fn tracked_view_keeps_absolute_positions() {
    let bytes = [0u8; 10];
    let v = PosSlice::new(100, &bytes);
    assert_eq!(v.pos(), 100);
    assert_eq!(v.len(), 10);
    let s = v.slice(2, 7);
    assert_eq!(s.pos(), 102);
    assert_eq!(s.len(), 5);
    let o = s.offset(3);
    assert_eq!(o.pos(), 105);
    assert_eq!(o.len(), 2);
}
