use vstd::prelude::*;
use crate::track_slice::PosSlice;
use crate::byte_parsers::spec_le32_at;
use crate::ParseErr;

verus! {

/// The declared payload length of the chunk at the front of `b`.
pub open spec fn chunk_size(b: Seq<u8>) -> u32 {
    spec_le32_at(b, 4)
}

/// The 4-byte magic tag of the chunk at the front of `b`.
pub open spec fn chunk_magic(b: Seq<u8>) -> Seq<u8> {
    b.subrange(0, 4)
}

/// The chunk header fits and the declared payload is all present.
pub open spec fn chunk_ok(b: Seq<u8>) -> bool {
    b.len() >= 8 && 8 + chunk_size(b) <= b.len()
}

/// The chunk's payload: exactly the declared number of bytes after the
/// header.
pub open spec fn chunk_inner(b: Seq<u8>) -> Seq<u8> {
    b.subrange(8, 8 + chunk_size(b) as int)
}

/// The bytes after the chunk.
pub open spec fn chunk_rest(b: Seq<u8>) -> Seq<u8> {
    b.skip(8 + chunk_size(b) as int)
}

/// Compares the first four bytes of `data` with a 4-byte magic tag,
/// byte-exact.
pub fn has_magic(data: &[u8], magic: &[u8]) -> (r: bool)
    requires
        magic@.len() == 4,
        data@.len() >= 4,
    ensures
        r <==> data@.subrange(0, 4) == magic@,
{
    let mut k: usize = 0;
    while k < 4
        invariant
            0 <= k <= 4,
            magic@.len() == 4,
            data@.len() >= 4,
            forall|j: int| 0 <= j < k ==> data@[j] == magic@[j],
        decreases 4 - k,
    {
        if *vstd::slice::slice_index_get(data, k) != *vstd::slice::slice_index_get(magic, k) {
            assert(data@.subrange(0, 4)[k as int] != magic@[k as int]);
            return false;
        }
        k = k + 1;
    }
    proof {
        assert(data@.subrange(0, 4) =~= magic@);
    }
    true
}

/// Chunk framing: reads a 4-byte magic tag and a `u32` declared length,
/// validates the tag against `magic`, and splits the view into the tagged
/// payload (offset-tracked) and the bytes after the chunk. A tag mismatch
/// is the recoverable `BadMagic`; a missing header or short payload is
/// `Eof`. Returns `(rest, inner)`.
pub fn take_section<'a>(magic: &[u8], input: PosSlice<'a>) -> (r: Result<
    (PosSlice<'a>, PosSlice<'a>),
    ParseErr,
>)
    requires
        magic@.len() == 4,
        input.wf(),
    ensures
        ({
            let b = input.data@;
            &&& b.len() < 8 ==> (r matches Err(e) && e == ParseErr::Eof)
            &&& b.len() >= 8 && chunk_magic(b) != magic@ ==> (r matches Err(e) && e
                == ParseErr::BadMagic)
            &&& b.len() >= 8 && chunk_magic(b) == magic@ && !chunk_ok(b) ==> (r matches Err(e) && e
                == ParseErr::Eof)
            &&& b.len() >= 8 && chunk_magic(b) == magic@ && chunk_ok(b) ==> (r matches Ok(t)
                && t.1.pos == input.pos + 8 && t.1.data@ == chunk_inner(b) && t.1.wf() && t.0.pos
                == input.pos + 8 + chunk_size(b) && t.0.data@ == chunk_rest(b) && t.0.wf())
        }),
{
    if input.len() < 8 {
        return Err(ParseErr::Eof);
    }
    if !has_magic(input.data, magic) {
        return Err(ParseErr::BadMagic);
    }
    let size_bytes = vstd::slice::slice_subrange(input.data, 4, 8);
    let size = vstd::bytes::u32_from_le_bytes(size_bytes) as usize;
    if input.len() - 8 < size {
        return Err(ParseErr::Eof);
    }
    let inner = input.slice(8, 8 + size);
    let rest = input.slice(8 + size, input.len());
    Ok((rest, inner))
}

} // verus!
