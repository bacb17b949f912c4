//! Reading and rewriting a chunked game-asset archive: a `FORM` envelope
//! of magic-tagged sections, most of which hold indirected tables whose
//! records are addressed by absolute file offsets. The library decodes
//! the archive into typed sections with reverse indexes from stored
//! pointer to record position, folds them into a queryable asset graph,
//! and re-serializes the two trailing mutable sections — atlas pages and
//! audio blobs — with recomputed pointers, padding and size fields,
//! relinking the envelope around them.

pub mod track_slice;
pub mod byte_parsers;
pub mod ptr_table;
pub mod section_header;
pub mod agrp;
pub mod audo;
pub mod text;
pub mod strg;
pub mod sond;
pub mod tpag;
pub mod txtr;
pub mod sprt;
pub mod font;
pub mod gen8;
pub mod sections;
pub mod patch;
pub mod image_codec;
pub mod form_file;

pub use track_slice::PosSlice;

use vstd::prelude::*;

verus! {

/// Why a decode step failed.
///
/// `Eof` covers every truncation: fewer bytes remain than a fixed-width
/// read or a declared length requires. `BadPointer` marks an indirected
/// offset that resolves before the current view. `BadMagic` is a tag
/// mismatch during chunk framing. `BadEncoding` marks record text that is
/// not valid UTF-8, or a character code unit with no character value.
#[derive(Debug, Clone, Copy, PartialEq, Eq, Structural)]
pub enum ParseErr {
    Eof,
    BadPointer,
    BadMagic,
    BadEncoding,
}

/// The file extension an audio payload should be saved under, read off
/// its magic bytes: RIFF containers are waveforms, Ogg containers are
/// Ogg streams, anything else is kept as raw bytes.
pub open spec fn spec_extension_from_magic(m: Seq<u8>) -> Seq<char> {
    if m.len() >= 4 && m[0] == 0x52u8 && m[1] == 0x49u8 && m[2] == 0x46u8 && m[3] == 0x46u8 {
        "wav"@
    } else if m.len() >= 4 && m[0] == 0x4Fu8 && m[1] == 0x67u8 && m[2] == 0x67u8 && m[3] == 0x53u8 {
        "ogg"@
    } else {
        "bin"@
    }
}

/// Picks the extension for an audio payload by its leading magic bytes.
pub fn extension_from_magic(magic: &[u8]) -> (r: &'static str)
    ensures
        r@ == spec_extension_from_magic(magic@),
{
    if magic.len() >= 4 {
        let b0 = *vstd::slice::slice_index_get(magic, 0);
        let b1 = *vstd::slice::slice_index_get(magic, 1);
        let b2 = *vstd::slice::slice_index_get(magic, 2);
        let b3 = *vstd::slice::slice_index_get(magic, 3);
        if b0 == 0x52 && b1 == 0x49 && b2 == 0x46 && b3 == 0x46 {
            return "wav";
        }
        if b0 == 0x4F && b1 == 0x67 && b2 == 0x67 && b3 == 0x53 {
            return "ogg";
        }
    }
    "bin"
}

/// Strips the trailing zero bytes from a buffer: padding is an encoding
/// artifact, not payload, so it is removed before a buffer is compared or
/// reused.
pub fn remove_padding(data: Vec<u8>) -> (r: Vec<u8>)
    ensures
        r@.len() <= data@.len(),
        r@ == data@.subrange(0, r@.len() as int),
        forall|j: int| r@.len() <= j < data@.len() ==> data@[j] == 0u8,
        r@.len() > 0 ==> r@[r@.len() - 1] != 0u8,
{
    let mut data = data;
    let mut n: usize = data.len();
    while n > 0 && data[n - 1] == 0u8
        invariant
            n <= data@.len(),
            forall|j: int| n <= j < data@.len() ==> data@[j] == 0u8,
        decreases n,
    {
        n = n - 1;
    }
    data.truncate(n);
    data
}

} // verus!
