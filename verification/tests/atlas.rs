use gm_data_win::form_file::FormFile;
use gm_data_win::image_codec::{decode_png, encode_png};
use gm_data_win::patch::{merge_sprite_edit, rewrite_archive_audio, rewrite_archive_textures};
use gm_data_win::sections::take_data_win_file;
use image::{DynamicImage, GenericImageView, Rgba, RgbaImage};

fn push_u32(out: &mut Vec<u8>, v: u32) {
    out.extend_from_slice(&v.to_le_bytes());
}

fn envelope(sections: &[u8]) -> Vec<u8> {
    let mut out = Vec::new();
    out.extend_from_slice(b"FORM");
    push_u32(&mut out, sections.len() as u32);
    out.extend_from_slice(sections);
    out
}

fn png_bytes(img: &DynamicImage) -> Vec<u8> {
    let mut buf = std::io::Cursor::new(Vec::new());
    img.write_to(&mut buf, image::ImageFormat::Png).unwrap();
    buf.into_inner()
}

/// A TXTR section with one page, written as if its chunk starts at
/// absolute offset `chunk_pos`.
fn txtr_chunk(chunk_pos: u32, png: &[u8]) -> Vec<u8> {
    let meta_pos = chunk_pos + 12 + 4;
    let png_pos = meta_pos + 12;
    let mut payload = Vec::new();
    push_u32(&mut payload, 1);
    push_u32(&mut payload, meta_pos);
    push_u32(&mut payload, 0);
    push_u32(&mut payload, 0);
    push_u32(&mut payload, png_pos);
    payload.extend_from_slice(png);
    let mut chunk = Vec::new();
    chunk.extend_from_slice(b"TXTR");
    push_u32(&mut chunk, payload.len() as u32);
    chunk.extend_from_slice(&payload);
    chunk
}

/// A TPAG section with one region, written as if its chunk starts at
/// absolute offset `chunk_pos`. Returns the chunk and the region's
/// stored pointer.
fn tpag_chunk(chunk_pos: u32, x: u16, y: u16, w: u16, h: u16) -> (Vec<u8>, u32) {
    let rec_pos = chunk_pos + 12 + 4;
    let mut payload = Vec::new();
    push_u32(&mut payload, 1);
    push_u32(&mut payload, rec_pos);
    for v in [x, y, w, h, 0, 0, 0, 0, w, h, 0] {
        payload.extend_from_slice(&v.to_le_bytes());
    }
    let mut chunk = Vec::new();
    chunk.extend_from_slice(b"TPAG");
    push_u32(&mut chunk, payload.len() as u32);
    chunk.extend_from_slice(&payload);
    (chunk, rec_pos)
}

fn checker(w: u32, h: u32, a: [u8; 4], b: [u8; 4]) -> DynamicImage {
    DynamicImage::ImageRgba8(RgbaImage::from_fn(w, h, |x, y| {
        if (x + y) % 2 == 0 {
            Rgba(a)
        } else {
            Rgba(b)
        }
    }))
}

#[test]
fn subimage_cuts_the_region_out_of_the_page() {
    let page = checker(16, 16, [255, 0, 0, 255], [0, 0, 255, 255]);
    let png = png_bytes(&page);
    let txtr = txtr_chunk(8, &png);
    let (tpag, loc) = tpag_chunk(8 + txtr.len() as u32, 4, 4, 8, 8);
    let mut body = txtr.clone();
    body.extend_from_slice(&tpag);
    let archive = envelope(&body);
    let file = FormFile::from_sections(take_data_win_file(&archive).unwrap());
    assert_eq!(file.get_tpag_info(loc), Some((((4, 4), (8, 8)), 0)));
    let sub = file.get_tpag_subimage(loc).expect("region decodes");
    assert_eq!(sub.dimensions(), (8, 8));
    for yy in 0..8 {
        for xx in 0..8 {
            assert_eq!(sub.get_pixel(xx, yy), page.get_pixel(xx + 4, yy + 4));
        }
    }
}

#[test]
fn cache_returns_the_same_decode_on_every_call() {
    let page = checker(8, 8, [1, 2, 3, 255], [4, 5, 6, 255]);
    let png = png_bytes(&page);
    let txtr = txtr_chunk(8, &png);
    let archive = envelope(&txtr);
    let file = FormFile::from_sections(take_data_win_file(&archive).unwrap());
    let first = file.get_texture(0).expect("page decodes");
    let second = file.get_texture(0).expect("page decodes");
    assert!(std::ptr::eq(first, second));
    assert_eq!(first.dimensions(), (8, 8));
    assert!(file.get_texture(1).is_none());
}

#[test]
fn bytes_that_are_not_png_do_not_decode() {
    let txtr = txtr_chunk(8, b"not a png at all");
    let archive = envelope(&txtr);
    let file = FormFile::from_sections(take_data_win_file(&archive).unwrap());
    assert!(file.get_texture(0).is_none());
    assert!(decode_png(b"junk").is_none());
}

#[test]
fn replacing_a_region_changes_it_and_nothing_else() {
    // An 8x8 region of a 16x16 page, edited with an 8x8 replacement:
    // the patched page holds the replacement there and the original
    // pixels everywhere else.
    let page = checker(16, 16, [255, 0, 0, 255], [0, 0, 255, 255]);
    let replacement = checker(8, 8, [0, 255, 0, 255], [255, 255, 0, 255]);
    let png = png_bytes(&page);
    // The mutable sections sit last in the envelope, so resizing them
    // never invalidates the region table's fixed offsets.
    let (tpag, loc) = tpag_chunk(8, 4, 4, 8, 8);
    let txtr = txtr_chunk(8 + tpag.len() as u32, &png);
    let audo_pos = 8 + tpag.len() as u32 + txtr.len() as u32;
    let mut audo_payload = Vec::new();
    push_u32(&mut audo_payload, 1);
    push_u32(&mut audo_payload, audo_pos + 16);
    push_u32(&mut audo_payload, 2);
    audo_payload.extend_from_slice(&[9, 9, 0, 0]);
    let mut audo = Vec::new();
    audo.extend_from_slice(b"AUDO");
    push_u32(&mut audo, audo_payload.len() as u32);
    audo.extend_from_slice(&audo_payload);
    let mut body = tpag.clone();
    body.extend_from_slice(&txtr);
    body.extend_from_slice(&audo);
    let archive = envelope(&body);
    let mut file = FormFile::from_sections(take_data_win_file(&archive).unwrap());

    // Merge the replacement into the page in memory.
    let mut edited = file.get_texture(0).unwrap().clone();
    let matched = merge_sprite_edit(&mut edited, &replacement, 4, 4, 8, 8);
    assert!(matched);
    let new_png = encode_png(&edited);
    file.txtr.as_mut().unwrap().files[0].png = new_png;

    // Append-and-relink: the page table is rewritten at its offset, the
    // audio store right after it, and the envelope length last.
    let (trimmed, end) = rewrite_archive_textures(&archive, file.txtr.as_ref().unwrap()).unwrap();
    let patched = rewrite_archive_audio(&trimmed, &file.audos[0], end).unwrap();

    let file2 = FormFile::from_sections(take_data_win_file(&patched).unwrap());
    let page2 = file2.get_texture(0).unwrap();
    assert_eq!(page2.dimensions(), (16, 16));
    for yy in 0..16u32 {
        for xx in 0..16u32 {
            let expected = if (4..12).contains(&xx) && (4..12).contains(&yy) {
                replacement.get_pixel(xx - 4, yy - 4)
            } else {
                page.get_pixel(xx, yy)
            };
            assert_eq!(page2.get_pixel(xx, yy), expected);
        }
    }
    let sub = file2.get_tpag_subimage(loc).unwrap();
    for yy in 0..8u32 {
        for xx in 0..8u32 {
            assert_eq!(sub.get_pixel(xx, yy), replacement.get_pixel(xx, yy));
        }
    }
    // The audio store survived the relink unchanged.
    assert_eq!(file2.audos[0].files[0], vec![9, 9]);
    // The rewritten page table ends on the section alignment boundary.
    assert_eq!(end % 32, 0);
}

#[test]
fn undersized_replacement_writes_only_the_overlap() {
    let page = checker(8, 8, [10, 10, 10, 255], [20, 20, 20, 255]);
    let small = checker(2, 2, [0, 255, 0, 255], [0, 255, 0, 255]);
    let mut edited = page.clone();
    let matched = merge_sprite_edit(&mut edited, &small, 0, 0, 4, 4);
    assert!(!matched);
    for yy in 0..8u32 {
        for xx in 0..8u32 {
            let expected = if xx < 2 && yy < 2 {
                small.get_pixel(xx, yy)
            } else {
                page.get_pixel(xx, yy)
            };
            assert_eq!(edited.get_pixel(xx, yy), expected);
        }
    }
}
