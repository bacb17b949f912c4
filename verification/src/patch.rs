use vstd::prelude::*;
use vstd::bytes::{lemma_auto_spec_u32_to_from_le_bytes, spec_u32_to_le_bytes, u32_to_le_bytes};
use crate::audo::{audo_entry_at, audo_entry_ok, Audo};
use crate::image_codec::{crop_image, grid_h, grid_ok, grid_w, image_dims, image_px, paste_image};
use crate::ptr_table::{ptr_count, ptr_table_ok, ptrs, table_body, table_body_pos};
use crate::sections::{magic_word, MAGIC_AUDO, MAGIC_TXTR};
use crate::txtr::{Txtr, TxtrEntry};
use crate::byte_parsers::spec_le32_at;

verus! {

/// How many zero bytes take a buffer of length `n` up to the next 4-byte
/// boundary.
pub open spec fn pad4(n: int) -> int {
    if n % 4 == 0 {
        0
    } else {
        4 - n % 4
    }
}

/// How many zero bytes take an absolute offset `n` up to the next
/// 32-byte boundary.
pub open spec fn pad32(n: int) -> int {
    if n % 32 == 0 {
        0
    } else {
        32 - n % 32
    }
}

/// The arithmetic padding above equals the mask form of the alignment
/// rule: the pad is `((n + 3) & !3) - n`.
pub proof fn lemma_pad4_mask(n: u32)
    requires
        n + 3 <= u32::MAX,
    ensures
        pad4(n as int) == ((n + 3) as u32 & !3u32) - n,
{
    assert(n <= 0xFFFF_FFFCu32 ==> ((n + 3) as u32 & !3u32) == n + (if n % 4 == 0 {
        0u32
    } else {
        (4 - n % 4) as u32
    })) by (bit_vector);
    assert(n as int % 4 == (n % 4u32) as int);
}

/// `n` zero bytes.
pub open spec fn zeros(n: int) -> Seq<u8> {
    Seq::new(n as nat, |i: int| 0u8)
}

/// Appends every byte of `src` to `dst`.
pub fn push_bytes(dst: &mut Vec<u8>, src: &[u8])
    ensures
        final(dst)@ == old(dst)@ + src@,
{
    let n = src.len();
    let mut k: usize = 0;
    while k < n
        invariant
            n == src@.len(),
            0 <= k <= n,
            dst@ == old(dst)@ + src@.subrange(0, k as int),
        decreases n - k,
    {
        dst.push(*vstd::slice::slice_index_get(src, k));
        proof {
            assert(dst@ =~= old(dst)@ + src@.subrange(0, k + 1));
        }
        k = k + 1;
    }
    proof {
        assert(dst@ =~= old(dst)@ + src@);
    }
}

/// Appends a `u32` in little-endian order.
pub fn push_u32(dst: &mut Vec<u8>, v: u32)
    ensures
        final(dst)@ == old(dst)@ + spec_u32_to_le_bytes(v),
{
    let bytes = u32_to_le_bytes(v);
    push_bytes(dst, bytes.as_slice());
}

/// Appends `n` zero bytes.
pub fn push_zeros(dst: &mut Vec<u8>, n: usize)
    ensures
        final(dst)@ == old(dst)@ + zeros(n as int),
{
    let mut k: usize = 0;
    while k < n
        invariant
            0 <= k <= n,
            dst@ == old(dst)@ + zeros(k as int),
        decreases n - k,
    {
        dst.push(0u8);
        proof {
            assert(dst@ =~= old(dst)@ + zeros(k + 1));
        }
        k = k + 1;
    }
}

/// One audio record on disk: the length prefix, the payload, and the
/// zero padding that takes the record to the store's 4-byte alignment
/// unit.
pub open spec fn audo_record_bytes(f: Seq<u8>) -> Seq<u8> {
    spec_u32_to_le_bytes(f.len() as u32) + f + zeros(pad4(f.len() as int))
}

/// The records from index `i` on, laid out back to back.
pub open spec fn audo_records_from(files: Seq<Seq<u8>>, i: int) -> Seq<u8>
    decreases files.len() - i,
{
    if i < 0 || i >= files.len() {
        Seq::empty()
    } else {
        audo_record_bytes(files[i]) + audo_records_from(files, i + 1)
    }
}

/// Total on-disk length of the first `i` records.
pub open spec fn audo_payload_len(files: Seq<Seq<u8>>, i: int) -> int
    decreases i,
{
    if i <= 0 {
        0
    } else {
        audo_payload_len(files, i - 1) + 4 + files[i - 1].len() + pad4(files[i - 1].len() as int)
    }
}

/// Declared length of a rewritten store's chunk: count word, pointer
/// list, records.
pub open spec fn audo_section_size(files: Seq<Seq<u8>>) -> int {
    4 + 4 * files.len() + audo_payload_len(files, files.len() as int)
}

/// Where record `i`'s length prefix lands when the store's chunk starts
/// at absolute offset `pos`: the running cursor starts just past the
/// pointer list and advances by each prior record's on-disk length.
pub open spec fn audo_entry_offset(files: Seq<Seq<u8>>, pos: int, i: int) -> int {
    pos + 12 + 4 * files.len() + audo_payload_len(files, i)
}

/// The pointer list of a rewritten store, entries from `i` on.
pub open spec fn audo_ptr_bytes_from(files: Seq<Seq<u8>>, pos: int, i: int) -> Seq<u8>
    decreases files.len() - i,
{
    if i < 0 || i >= files.len() {
        Seq::empty()
    } else {
        spec_u32_to_le_bytes(audo_entry_offset(files, pos, i) as u32) + audo_ptr_bytes_from(
            files,
            pos,
            i + 1,
        )
    }
}

/// A whole rewritten audio store, chunk header included, as it is
/// written at absolute offset `pos`.
pub open spec fn audo_section_bytes(files: Seq<Seq<u8>>, pos: int) -> Seq<u8> {
    spec_u32_to_le_bytes(MAGIC_AUDO) + spec_u32_to_le_bytes(audo_section_size(files) as u32)
        + spec_u32_to_le_bytes(files.len() as u32) + audo_ptr_bytes_from(files, pos, 0)
        + audo_records_from(files, 0)
}

/// The running total of on-disk record lengths never decreases.
pub proof fn lemma_audo_payload_mono(files: Seq<Seq<u8>>, i: int, j: int)
    requires
        0 <= i <= j,
    ensures
        audo_payload_len(files, i) <= audo_payload_len(files, j),
    decreases j - i,
{
    if i < j {
        lemma_audo_payload_mono(files, i, j - 1);
    }
}

/// Patch size accounting: the offset of record `i + 1` exceeds record
/// `i`'s by the 4-byte length prefix plus the payload padded to the
/// 4-byte alignment unit, and the declared chunk length is exactly the
/// final cursor minus the start of the chunk's payload.
pub proof fn lemma_patch_size_accounting(files: Seq<Seq<u8>>, pos: int, i: int)
    requires
        0 <= i < files.len(),
    ensures
        audo_entry_offset(files, pos, i + 1) == audo_entry_offset(files, pos, i) + 4
            + files[i].len() + pad4(files[i].len() as int),
        audo_section_size(files) == audo_entry_offset(files, pos, files.len() as int) - (pos + 8),
{
}

proof fn lemma_skip_skip(s: Seq<u8>, a: int, b: int)
    requires
        0 <= a,
        0 <= b,
        a + b <= s.len(),
    ensures
        s.skip(a).skip(b) =~= s.skip(a + b),
{
    assert forall|k: int| 0 <= k < s.len() - a - b implies s.skip(a).skip(b)[k] == s.skip(
        a + b,
    )[k] by {
        assert(s.skip(a).skip(b)[k] == s.skip(a)[b + k]);
        assert(s.skip(a)[b + k] == s[a + b + k]);
    }
}

proof fn lemma_audo_ptr_bytes_len(files: Seq<Seq<u8>>, pos: int, i: int)
    requires
        0 <= i <= files.len(),
    ensures
        audo_ptr_bytes_from(files, pos, i).len() == 4 * (files.len() - i),
    decreases files.len() - i,
{
    lemma_auto_spec_u32_to_from_le_bytes();
    if i < files.len() {
        lemma_audo_ptr_bytes_len(files, pos, i + 1);
    }
}

proof fn lemma_audo_records_len(files: Seq<Seq<u8>>, i: int)
    requires
        0 <= i <= files.len(),
    ensures
        audo_records_from(files, i).len() == audo_payload_len(files, files.len() as int)
            - audo_payload_len(files, i),
    decreases files.len() - i,
{
    lemma_auto_spec_u32_to_from_le_bytes();
    if i < files.len() {
        lemma_audo_records_len(files, i + 1);
    }
}

proof fn lemma_audo_ptr_bytes_skip(files: Seq<Seq<u8>>, pos: int, i: int)
    requires
        0 <= i <= files.len(),
    ensures
        audo_ptr_bytes_from(files, pos, 0).skip(4 * i) =~= audo_ptr_bytes_from(files, pos, i),
    decreases i,
{
    lemma_auto_spec_u32_to_from_le_bytes();
    lemma_audo_ptr_bytes_len(files, pos, i);
    if i > 0 {
        lemma_audo_ptr_bytes_len(files, pos, i - 1);
        lemma_audo_ptr_bytes_skip(files, pos, i - 1);
        assert(audo_ptr_bytes_from(files, pos, i - 1).skip(4) =~= audo_ptr_bytes_from(
            files,
            pos,
            i,
        ));
        lemma_audo_ptr_bytes_len(files, pos, 0);
        lemma_skip_skip(audo_ptr_bytes_from(files, pos, 0), 4 * (i - 1), 4);
    }
}

proof fn lemma_audo_records_skip(files: Seq<Seq<u8>>, i: int)
    requires
        0 <= i <= files.len(),
    ensures
        audo_records_from(files, 0).skip(audo_payload_len(files, i)) =~= audo_records_from(
            files,
            i,
        ),
    decreases i,
{
    lemma_auto_spec_u32_to_from_le_bytes();
    if i > 0 {
        lemma_audo_records_skip(files, i - 1);
        lemma_audo_records_len(files, i - 1);
        lemma_audo_records_len(files, i);
        assert(audo_records_from(files, i - 1).skip(
            4 + files[i - 1].len() + pad4(files[i - 1].len() as int),
        ) =~= audo_records_from(files, i));
        lemma_audo_payload_mono(files, 0, i - 1);
        lemma_audo_records_len(files, 0);
        lemma_skip_skip(
            audo_records_from(files, 0),
            audo_payload_len(files, i - 1),
            4 + files[i - 1].len() + pad4(files[i - 1].len() as int),
        );
    }
}

proof fn lemma_audo_ptr_unfold(files: Seq<Seq<u8>>, pos: int, i: int)
    requires
        0 <= i < files.len(),
    ensures
        audo_ptr_bytes_from(files, pos, i) == spec_u32_to_le_bytes(
            audo_entry_offset(files, pos, i) as u32,
        ) + audo_ptr_bytes_from(files, pos, i + 1),
        audo_ptr_bytes_from(files, pos, i).subrange(0, 4) =~= spec_u32_to_le_bytes(
            audo_entry_offset(files, pos, i) as u32,
        ),
{
    lemma_auto_spec_u32_to_from_le_bytes();
}

proof fn lemma_audo_records_unfold(files: Seq<Seq<u8>>, i: int)
    requires
        0 <= i < files.len(),
    ensures
        audo_records_from(files, i) == audo_record_bytes(files[i]) + audo_records_from(
            files,
            i + 1,
        ),
        audo_records_from(files, i).subrange(0, 4) =~= spec_u32_to_le_bytes(
            files[i].len() as u32,
        ),
        audo_records_from(files, i).subrange(4, 4 + files[i].len() as int) =~= files[i],
{
    lemma_auto_spec_u32_to_from_le_bytes();
    lemma_audo_records_len(files, i);
    lemma_audo_records_len(files, i + 1);
}

proof fn lemma_audo_ptr_value(files: Seq<Seq<u8>>, pos: int, i: int)
    requires
        0 <= pos,
        pos + 8 + audo_section_size(files) <= u32::MAX,
        0 <= i < files.len(),
    ensures
        audo_entry_offset(files, pos, i) <= u32::MAX,
        spec_le32_at(audo_section_bytes(files, pos).skip(8), 4 + 4 * i) == audo_entry_offset(
            files,
            pos,
            i,
        ),
{
    lemma_auto_spec_u32_to_from_le_bytes();
    let n = files.len() as int;
    let inner = audo_section_bytes(files, pos).skip(8);
    lemma_audo_ptr_bytes_skip(files, pos, i);
    lemma_audo_ptr_bytes_len(files, pos, i);
    lemma_audo_ptr_bytes_len(files, pos, 0);
    lemma_audo_records_len(files, 0);
    lemma_audo_payload_mono(files, i, n);
    lemma_audo_payload_mono(files, 0, i);
    lemma_audo_ptr_unfold(files, pos, i);
    assert(audo_ptr_bytes_from(files, pos, 0).subrange(4 * i, 4 * i + 4)
        =~= audo_ptr_bytes_from(files, pos, i).subrange(0, 4));
    assert(inner.subrange(4 + 4 * i, 4 + 4 * i + 4) =~= audo_ptr_bytes_from(
        files,
        pos,
        0,
    ).subrange(4 * i, 4 * i + 4));
    assert(inner.subrange(4 + 4 * i, 4 + 4 * i + 4) =~= spec_u32_to_le_bytes(
        audo_entry_offset(files, pos, i) as u32,
    ));
    assert(spec_le32_at(inner, 4 + 4 * i) == audo_entry_offset(files, pos, i) as u32);
}

proof fn lemma_audo_record_value(files: Seq<Seq<u8>>, pos: int, i: int)
    requires
        0 <= pos,
        pos + 8 + audo_section_size(files) <= u32::MAX,
        0 <= i < files.len(),
    ensures
        ({
            let bb = audo_records_from(files, 0);
            let bp = pos + 12 + 4 * files.len();
            let p = audo_entry_offset(files, pos, i);
            &&& p <= u32::MAX
            &&& audo_entry_ok(bp, bb, p as u32)
            &&& audo_entry_at(bp, bb, p as u32) == files[i]
        }),
{
    lemma_auto_spec_u32_to_from_le_bytes();
    let n = files.len() as int;
    let bb = audo_records_from(files, 0);
    let bp = pos + 12 + 4 * files.len();
    let li = audo_payload_len(files, i);
    lemma_audo_records_skip(files, i);
    lemma_audo_records_len(files, i);
    lemma_audo_records_len(files, 0);
    lemma_audo_payload_mono(files, 0, i);
    lemma_audo_payload_mono(files, i + 1, n);
    lemma_audo_records_unfold(files, i);
    let p = audo_entry_offset(files, pos, i);
    assert(p - bp == li);
    assert(bb.skip(li) =~= audo_records_from(files, i));
    assert(bb.subrange(li, li + 4) =~= bb.skip(li).subrange(0, 4));
    assert(bb.subrange(li, li + 4) =~= spec_u32_to_le_bytes(files[i].len() as u32));
    assert(spec_u32_to_le_bytes(files[i].len() as u32).len() == 4);
    assert(spec_le32_at(bb, li) == files[i].len());
    assert(audo_entry_ok(bp, bb, p as u32));
    assert(audo_entry_at(bp, bb, p as u32) =~= bb.skip(li).subrange(
        4,
        4 + files[i].len() as int,
    ));
}

/// Round-trip identity: a store rewritten at offset `pos` frames as an
/// audio chunk whose declared length is the recomputed size, its pointer
/// list holds exactly the recomputed offsets, and the record decoded at
/// each of those offsets is byte-for-byte the payload it was built from.
/// With the decoder's contract this gives: decoding a rewritten store
/// yields the records that went in.
#[verifier::rlimit(100)]
pub proof fn lemma_audo_round_trip(files: Seq<Seq<u8>>, pos: int)
    requires
        0 <= pos,
        pos + 8 + audo_section_size(files) <= u32::MAX,
    ensures
        ({
            let sb = audo_section_bytes(files, pos);
            let inner = sb.skip(8);
            let bp = table_body_pos(pos + 8, inner);
            let bb = table_body(inner);
            let ps = ptrs(inner);
            &&& sb.len() == 8 + audo_section_size(files)
            &&& magic_word(sb) == MAGIC_AUDO
            &&& spec_le32_at(sb, 4) == audo_section_size(files)
            &&& ptr_table_ok(inner)
            &&& ps.len() == files.len()
            &&& bp == pos + 12 + 4 * files.len()
            &&& forall|i: int|
                0 <= i < files.len() ==> #[trigger] ps[i] == audo_entry_offset(files, pos, i)
            &&& forall|i: int|
                0 <= i < files.len() ==> audo_entry_ok(bp, bb, #[trigger] ps[i]) && audo_entry_at(
                    bp,
                    bb,
                    ps[i],
                ) == files[i]
        }),
{
    lemma_auto_spec_u32_to_from_le_bytes();
    let n = files.len() as int;
    let size = audo_section_size(files);
    let sb = audo_section_bytes(files, pos);
    let inner = sb.skip(8);
    lemma_audo_ptr_bytes_len(files, pos, 0);
    lemma_audo_records_len(files, 0);
    lemma_audo_payload_mono(files, 0, n);
    assert(sb.len() == 8 + size);
    assert(sb.subrange(0, 4) =~= spec_u32_to_le_bytes(MAGIC_AUDO));
    assert(magic_word(sb) == MAGIC_AUDO);
    assert(sb.subrange(4, 8) =~= spec_u32_to_le_bytes(size as u32));
    assert(spec_le32_at(sb, 4) == size);
    assert(inner =~= spec_u32_to_le_bytes(files.len() as u32) + audo_ptr_bytes_from(files, pos, 0)
        + audo_records_from(files, 0));
    assert(inner.subrange(0, 4) =~= spec_u32_to_le_bytes(files.len() as u32));
    assert(ptr_count(inner) == files.len());
    assert(ptr_table_ok(inner));
    let bp = table_body_pos(pos + 8, inner);
    let bb = table_body(inner);
    let ps = ptrs(inner);
    assert(bb =~= audo_records_from(files, 0));
    assert(bp == pos + 12 + 4 * n);
    assert forall|i: int| 0 <= i < n implies #[trigger] ps[i] == audo_entry_offset(
        files,
        pos,
        i,
    ) by {
        lemma_audo_ptr_value(files, pos, i);
        assert(ps[i] == spec_le32_at(inner, 4 + 4 * i));
    }
    assert forall|i: int| 0 <= i < n implies audo_entry_ok(bp, bb, #[trigger] ps[i])
        && audo_entry_at(bp, bb, ps[i]) == files[i] by {
        lemma_audo_record_value(files, pos, i);
    }
}

/// An archive body with its envelope's declared length recomputed to
/// reach exactly the end of the file.
pub open spec fn patched_envelope(b: Seq<u8>) -> Seq<u8> {
    b.subrange(0, 4) + spec_u32_to_le_bytes((b.len() - 8) as u32) + b.skip(8)
}

impl Audo {
    /// Re-serializes the store for writing at absolute offset `pos`:
    /// chunk header, entry count, recomputed pointer table, and each
    /// record as a length prefix, its payload and zero padding to the
    /// 4-byte alignment unit. `None` exactly when the rewritten chunk
    /// would run past what a `u32` size field can say.
    pub fn write_to(&self, pos: u32) -> (r: Option<Vec<u8>>)
        ensures
            ({
                let fv = self.files.deep_view();
                &&& (r is Some <==> pos + 8 + audo_section_size(fv) <= u32::MAX)
                &&& (r matches Some(out) ==> out@ == audo_section_bytes(fv, pos as int))
            }),
    {
        let ghost fv = self.files.deep_view();
        let n = self.files.len();
        if n as u64 > 0x3FFF_FFFFu64 {
            proof {
                lemma_audo_payload_mono(fv, 0, n as int);
            }
            return None;
        }
        let mut payload: u64 = 0;
        let mut i: usize = 0;
        while i < n
            invariant
                fv == self.files.deep_view(),
                n == fv.len(),
                n <= 0x3FFF_FFFF,
                0 <= i <= n,
                payload == audo_payload_len(fv, i as int),
                payload <= 0xFFFF_FFFF,
            decreases n - i,
        {
            let len = self.files[i].len();
            proof {
                assert(fv[i as int] == self.files@[i as int]@);
            }
            if len as u64 > 0xFFFF_FFFFu64 {
                proof {
                    lemma_audo_payload_mono(fv, i + 1, n as int);
                }
                return None;
            }
            let pad = if len % 4 == 0 {
                0usize
            } else {
                4 - len % 4
            };
            let stride: u64 = 4 + len as u64 + pad as u64;
            if payload + stride > 0xFFFF_FFFFu64 {
                proof {
                    lemma_audo_payload_mono(fv, i + 1, n as int);
                }
                return None;
            }
            payload = payload + stride;
            i = i + 1;
        }
        let size: u64 = 4 + 4 * (n as u64) + payload;
        if (pos as u64) + 8 + size > 0xFFFF_FFFFu64 {
            return None;
        }
        let mut out: Vec<u8> = Vec::new();
        push_u32(&mut out, MAGIC_AUDO);
        push_u32(&mut out, size as u32);
        push_u32(&mut out, n as u32);
        proof {
            assert(out@ =~= spec_u32_to_le_bytes(MAGIC_AUDO) + spec_u32_to_le_bytes(
                audo_section_size(fv) as u32,
            ) + spec_u32_to_le_bytes(fv.len() as u32));
        }
        let mut cursor: u32 = pos + 12 + 4 * (n as u32);
        let mut i: usize = 0;
        while i < n
            invariant
                fv == self.files.deep_view(),
                n == fv.len(),
                0 <= i <= n,
                pos + 8 + audo_section_size(fv) <= u32::MAX,
                cursor == audo_entry_offset(fv, pos as int, i as int),
                out@ + audo_ptr_bytes_from(fv, pos as int, i as int) + audo_records_from(fv, 0)
                    =~= audo_section_bytes(fv, pos as int),
            decreases n - i,
        {
            proof {
                lemma_audo_payload_mono(fv, i + 1, n as int);
                lemma_patch_size_accounting(fv, pos as int, i as int);
                assert(fv[i as int] == self.files@[i as int]@);
            }
            let ghost out0 = out@;
            push_u32(&mut out, cursor);
            let len = self.files[i].len();
            let pad = if len % 4 == 0 {
                0usize
            } else {
                4 - len % 4
            };
            cursor = cursor + 4 + len as u32 + pad as u32;
            proof {
                assert(out@ + audo_ptr_bytes_from(fv, pos as int, i + 1) + audo_records_from(fv, 0)
                    =~= out0 + audo_ptr_bytes_from(fv, pos as int, i as int) + audo_records_from(
                    fv,
                    0,
                ));
            }
            i = i + 1;
        }
        let mut i: usize = 0;
        while i < n
            invariant
                fv == self.files.deep_view(),
                n == fv.len(),
                0 <= i <= n,
                pos + 8 + audo_section_size(fv) <= u32::MAX,
                out@ + audo_records_from(fv, i as int) =~= audo_section_bytes(fv, pos as int),
            decreases n - i,
        {
            proof {
                lemma_audo_payload_mono(fv, i + 1, n as int);
                assert(fv[i as int] == self.files@[i as int]@);
            }
            let ghost out0 = out@;
            let len = self.files[i].len();
            let pad = if len % 4 == 0 {
                0usize
            } else {
                4 - len % 4
            };
            push_u32(&mut out, len as u32);
            push_bytes(&mut out, self.files[i].as_slice());
            push_zeros(&mut out, pad);
            proof {
                assert(out@ =~= out0 + audo_record_bytes(fv[i as int]));
                assert(out@ + audo_records_from(fv, i + 1) =~= out0 + audo_records_from(
                    fv,
                    i as int,
                ));
            }
            i = i + 1;
        }
        proof {
            assert(out@ =~= audo_section_bytes(fv, pos as int));
        }
        Some(out)
    }
}

/// The smaller of two quantities.
pub open spec fn spec_min(a: int, b: int) -> int {
    if a < b {
        a
    } else {
        b
    }
}

/// Merges a replacement frame into an atlas page at its region's
/// rectangle. A replacement whose size differs from the region is a
/// warning, not a failure: only the overlapping top-left part is
/// written, every other pixel stays, and the result reports whether the
/// sizes matched so the caller can flag a likely wrong import.
pub fn merge_sprite_edit(
    page: &mut image::DynamicImage,
    replacement: &image::DynamicImage,
    x: u16,
    y: u16,
    w: u16,
    h: u16,
) -> (size_matched: bool)
    requires
        grid_ok(image_px(*old(page))),
        grid_ok(image_px(*replacement)),
        x + w <= grid_w(image_px(*old(page))),
        y + h <= grid_h(image_px(*old(page))),
    ensures
        ({
            let g0 = image_px(*old(page));
            let g1 = image_px(*final(page));
            let rp = image_px(*replacement);
            let cw = spec_min(w as int, grid_w(rp));
            let ch = spec_min(h as int, grid_h(rp));
            &&& grid_ok(g1)
            &&& grid_h(g1) == grid_h(g0)
            &&& grid_w(g1) == grid_w(g0)
            &&& grid_h(rp) > 0 ==> (size_matched <==> grid_w(rp) == w && grid_h(rp) == h)
            &&& forall|i: int, j: int|
                0 <= i < ch && 0 <= j < cw ==> #[trigger] g1[y + i][x + j] == rp[i][j]
            &&& forall|i: int, j: int|
                0 <= i < grid_h(g0) && 0 <= j < grid_w(g0) && !(y <= i < y + ch && x <= j < x + cw)
                    ==> #[trigger] g1[i][j] == g0[i][j]
        }),
{
    let dims = image_dims(replacement);
    let cw = if (w as u32) < dims.0 {
        w as u32
    } else {
        dims.0
    };
    let ch = if (h as u32) < dims.1 {
        h as u32
    } else {
        dims.1
    };
    let sub = crop_image(replacement, 0, 0, cw, ch);
    paste_image(page, &sub, x as u32, y as u32);
    dims.0 == w as u32 && dims.1 == h as u32
}

/// Applies the append-and-relink step for the embedded audio store:
/// keeps the archive byte-identical up to `at`, writes the rewritten
/// store there, recomputes the envelope's declared length from the new
/// end of file, and ends the file exactly there — shrinking leaves no
/// trailing bytes. `None` exactly when `at` does not lie inside the
/// archive past the envelope header, or the rewritten chunk would run
/// past what a `u32` size field can say.
pub fn rewrite_archive_audio(archive: &Vec<u8>, audo: &Audo, at: u32) -> (r: Option<Vec<u8>>)
    ensures
        ({
            let fv = audo.files.deep_view();
            &&& (r is Some <==> 8 <= at <= archive@.len() && at + 8 + audo_section_size(fv)
                <= u32::MAX)
            &&& (r matches Some(out) ==> out@ == patched_envelope(
                archive@.subrange(0, at as int) + audo_section_bytes(fv, at as int),
            ) && out@.len() == at + 8 + audo_section_size(fv))
        }),
{
    let ghost fv = audo.files.deep_view();
    if at < 8 || (at as usize) > archive.len() {
        return None;
    }
    let section = match audo.write_to(at) {
        Some(section) => section,
        None => {
            return None;
        },
    };
    let ghost body = archive@.subrange(0, at as int) + audo_section_bytes(fv, at as int);
    proof {
        lemma_auto_spec_u32_to_from_le_bytes();
        lemma_audo_payload_mono(fv, 0, fv.len() as int);
        lemma_audo_ptr_bytes_len(fv, at as int, 0);
        lemma_audo_records_len(fv, 0);
        assert(section@.len() == 8 + audo_section_size(fv));
    }
    let total = at as usize + section.len();
    let mut out: Vec<u8> = Vec::new();
    push_bytes(&mut out, vstd::slice::slice_subrange(archive.as_slice(), 0, 4));
    push_u32(&mut out, (total - 8) as u32);
    push_bytes(&mut out, vstd::slice::slice_subrange(archive.as_slice(), 8, at as usize));
    push_bytes(&mut out, section.as_slice());
    proof {
        assert(body.len() == at + 8 + audo_section_size(fv));
        assert(out@ =~= patched_envelope(body));
    }
    Some(out)
}

/// Total length of the first `i` pages' PNG byte runs.
pub open spec fn txtr_pngs_total(fs: Seq<TxtrEntry>, i: int) -> int
    decreases i,
{
    if i <= 0 {
        0
    } else {
        txtr_pngs_total(fs, i - 1) + fs[i - 1].png@.len()
    }
}

/// Where metadata record `i` lands when the rewritten page table's chunk
/// starts at absolute offset `pos`: the records sit back to back right
/// after the pointer list.
pub open spec fn txtr_meta_offset(fs: Seq<TxtrEntry>, pos: int, i: int) -> int {
    pos + 12 + 4 * fs.len() + 12 * i
}

/// Where page `i`'s PNG bytes land: the byte runs sit back to back right
/// after the metadata records.
pub open spec fn txtr_png_offset(fs: Seq<TxtrEntry>, pos: int, i: int) -> int {
    pos + 12 + 16 * fs.len() + txtr_pngs_total(fs, i)
}

/// One past the last PNG byte of the rewritten table.
pub open spec fn txtr_data_end(fs: Seq<TxtrEntry>, pos: int) -> int {
    txtr_png_offset(fs, pos, fs.len() as int)
}

/// Declared length of the rewritten chunk: count word, pointer list,
/// metadata records, page bytes, and the section-wide padding that takes
/// the absolute end to the next 32-byte boundary.
pub open spec fn txtr_sec_size(fs: Seq<TxtrEntry>, pos: int) -> int {
    txtr_data_end(fs, pos) + pad32(txtr_data_end(fs, pos)) - (pos + 8)
}

/// The pointer list of a rewritten page table, entries from `i` on.
pub open spec fn txtr_ptr_bytes_from(fs: Seq<TxtrEntry>, pos: int, i: int) -> Seq<u8>
    decreases fs.len() - i,
{
    if i < 0 || i >= fs.len() {
        Seq::empty()
    } else {
        spec_u32_to_le_bytes(txtr_meta_offset(fs, pos, i) as u32) + txtr_ptr_bytes_from(
            fs,
            pos,
            i + 1,
        )
    }
}

/// The metadata records of a rewritten page table, from `i` on: two
/// kept words and the recomputed absolute offset of the page's bytes.
pub open spec fn txtr_meta_bytes_from(fs: Seq<TxtrEntry>, pos: int, i: int) -> Seq<u8>
    decreases fs.len() - i,
{
    if i < 0 || i >= fs.len() {
        Seq::empty()
    } else {
        spec_u32_to_le_bytes(fs[i].unk1) + spec_u32_to_le_bytes(fs[i].unk2)
            + spec_u32_to_le_bytes(txtr_png_offset(fs, pos, i) as u32) + txtr_meta_bytes_from(
            fs,
            pos,
            i + 1,
        )
    }
}

/// The page byte runs, from `i` on, back to back.
pub open spec fn txtr_png_cat_from(fs: Seq<TxtrEntry>, i: int) -> Seq<u8>
    decreases fs.len() - i,
{
    if i < 0 || i >= fs.len() {
        Seq::empty()
    } else {
        fs[i].png@ + txtr_png_cat_from(fs, i + 1)
    }
}

/// A whole rewritten page table, chunk header included, as it is written
/// at absolute offset `pos`.
pub open spec fn txtr_section_bytes(fs: Seq<TxtrEntry>, pos: int) -> Seq<u8> {
    spec_u32_to_le_bytes(MAGIC_TXTR) + spec_u32_to_le_bytes(txtr_sec_size(fs, pos) as u32)
        + spec_u32_to_le_bytes(fs.len() as u32) + txtr_ptr_bytes_from(fs, pos, 0)
        + txtr_meta_bytes_from(fs, pos, 0) + txtr_png_cat_from(fs, 0) + zeros(
        pad32(txtr_data_end(fs, pos)),
    )
}

/// The running total of page byte runs never decreases.
pub proof fn lemma_txtr_pngs_mono(fs: Seq<TxtrEntry>, i: int, j: int)
    requires
        0 <= i <= j,
    ensures
        txtr_pngs_total(fs, i) <= txtr_pngs_total(fs, j),
    decreases j - i,
{
    if i < j {
        lemma_txtr_pngs_mono(fs, i, j - 1);
    }
}

impl Txtr {
    /// Re-serializes the page table for writing at absolute offset
    /// `pos`: chunk header, entry count, recomputed pointer table, the
    /// metadata records with recomputed page offsets, each page's PNG
    /// bytes back to back, and zero padding to the section's 32-byte
    /// alignment boundary. `None` exactly when the rewritten chunk would
    /// run past what a `u32` size field can say.
    pub fn write_to(&self, pos: u32) -> (r: Option<Vec<u8>>)
        ensures
            ({
                let fs = self.files@;
                &&& (r is Some <==> pos + 8 + txtr_sec_size(fs, pos as int) <= u32::MAX)
                &&& (r matches Some(out) ==> out@ == txtr_section_bytes(fs, pos as int))
            }),
    {
        let ghost fs = self.files@;
        let n = self.files.len();
        if n as u64 > 0x0FFF_FFFFu64 {
            proof {
                lemma_txtr_pngs_mono(fs, 0, n as int);
            }
            return None;
        }
        let mut total: u64 = 0;
        let mut i: usize = 0;
        while i < n
            invariant
                fs == self.files@,
                n == fs.len(),
                n <= 0x0FFF_FFFF,
                0 <= i <= n,
                total == txtr_pngs_total(fs, i as int),
                total <= 0xFFFF_FFFF,
            decreases n - i,
        {
            let len = self.files[i].png.len();
            if len as u64 > 0xFFFF_FFFFu64 || total + len as u64 > 0xFFFF_FFFFu64 {
                proof {
                    lemma_txtr_pngs_mono(fs, i + 1, n as int);
                }
                return None;
            }
            total = total + len as u64;
            i = i + 1;
        }
        let data_end: u64 = pos as u64 + 12 + 16 * (n as u64) + total;
        let pad = if data_end % 32 == 0 {
            0u64
        } else {
            32 - data_end % 32
        };
        if data_end + pad > 0xFFFF_FFFFu64 {
            return None;
        }
        let size: u64 = data_end + pad - (pos as u64 + 8);
        assert(size == txtr_sec_size(fs, pos as int));
        let mut out: Vec<u8> = Vec::new();
        push_u32(&mut out, MAGIC_TXTR);
        push_u32(&mut out, size as u32);
        push_u32(&mut out, n as u32);
        proof {
            assert(out@ =~= spec_u32_to_le_bytes(MAGIC_TXTR) + spec_u32_to_le_bytes(
                txtr_sec_size(fs, pos as int) as u32,
            ) + spec_u32_to_le_bytes(fs.len() as u32));
        }
        let mut i: usize = 0;
        while i < n
            invariant
                fs == self.files@,
                n == fs.len(),
                0 <= i <= n,
                pos + 8 + txtr_sec_size(fs, pos as int) <= u32::MAX,
                pos + 12 + 16 * (fs.len() as int) + txtr_pngs_total(fs, fs.len() as int) + pad32(
                    txtr_data_end(fs, pos as int),
                ) <= u32::MAX,
                out@ + txtr_ptr_bytes_from(fs, pos as int, i as int) + txtr_meta_bytes_from(
                    fs,
                    pos as int,
                    0,
                ) + txtr_png_cat_from(fs, 0) + zeros(pad32(txtr_data_end(fs, pos as int)))
                    =~= txtr_section_bytes(fs, pos as int),
            decreases n - i,
        {
            proof {
                lemma_txtr_pngs_mono(fs, 0, n as int);
            }
            let ghost out0 = out@;
            push_u32(&mut out, pos + 12 + 4 * (n as u32) + 12 * (i as u32));
            proof {
                assert(out@ + txtr_ptr_bytes_from(fs, pos as int, i + 1) + txtr_meta_bytes_from(
                    fs,
                    pos as int,
                    0,
                ) + txtr_png_cat_from(fs, 0) + zeros(pad32(txtr_data_end(fs, pos as int)))
                    =~= out0 + txtr_ptr_bytes_from(fs, pos as int, i as int)
                    + txtr_meta_bytes_from(fs, pos as int, 0) + txtr_png_cat_from(fs, 0) + zeros(
                    pad32(txtr_data_end(fs, pos as int)),
                ));
            }
            i = i + 1;
        }
        let mut cursor: u32 = pos + 12 + 16 * (n as u32);
        let mut i: usize = 0;
        while i < n
            invariant
                fs == self.files@,
                n == fs.len(),
                0 <= i <= n,
                pos + 12 + 16 * (fs.len() as int) + txtr_pngs_total(fs, fs.len() as int) + pad32(
                    txtr_data_end(fs, pos as int),
                ) <= u32::MAX,
                cursor == txtr_png_offset(fs, pos as int, i as int),
                out@ + txtr_meta_bytes_from(fs, pos as int, i as int) + txtr_png_cat_from(fs, 0)
                    + zeros(pad32(txtr_data_end(fs, pos as int))) =~= txtr_section_bytes(
                    fs,
                    pos as int,
                ),
            decreases n - i,
        {
            proof {
                lemma_txtr_pngs_mono(fs, 0, i as int);
                lemma_txtr_pngs_mono(fs, i + 1, n as int);
            }
            let ghost out0 = out@;
            push_u32(&mut out, self.files[i].unk1);
            push_u32(&mut out, self.files[i].unk2);
            push_u32(&mut out, cursor);
            cursor = cursor + self.files[i].png.len() as u32;
            proof {
                assert(out@ + txtr_meta_bytes_from(fs, pos as int, i + 1) + txtr_png_cat_from(
                    fs,
                    0,
                ) + zeros(pad32(txtr_data_end(fs, pos as int))) =~= out0 + txtr_meta_bytes_from(
                    fs,
                    pos as int,
                    i as int,
                ) + txtr_png_cat_from(fs, 0) + zeros(pad32(txtr_data_end(fs, pos as int))));
            }
            i = i + 1;
        }
        let mut i: usize = 0;
        while i < n
            invariant
                fs == self.files@,
                n == fs.len(),
                0 <= i <= n,
                out@ + txtr_png_cat_from(fs, i as int) + zeros(pad32(txtr_data_end(fs, pos as int)))
                    =~= txtr_section_bytes(fs, pos as int),
            decreases n - i,
        {
            let ghost out0 = out@;
            push_bytes(&mut out, self.files[i].png.as_slice());
            proof {
                assert(out@ + txtr_png_cat_from(fs, i + 1) + zeros(
                    pad32(txtr_data_end(fs, pos as int)),
                ) =~= out0 + txtr_png_cat_from(fs, i as int) + zeros(
                    pad32(txtr_data_end(fs, pos as int)),
                ));
            }
            i = i + 1;
        }
        push_zeros(&mut out, pad as usize);
        proof {
            assert(out@ =~= txtr_section_bytes(fs, pos as int));
        }
        Some(out)
    }
}

/// Applies the append-and-relink step for the atlas-page table: keeps
/// the archive byte-identical up to the table's own chunk offset,
/// writes the rewritten table there, and ends the file at the table's
/// padded end, where the audio store is appended next. The envelope
/// length is not touched here: it is recomputed when the audio store is
/// written, after this. `None` exactly when the stored offset does not
/// lie inside the archive past the envelope header, or the rewritten
/// chunk would run past what a `u32` size field can say.
pub fn rewrite_archive_textures(archive: &Vec<u8>, txtr: &Txtr) -> (r: Option<(Vec<u8>, u32)>)
    ensures
        ({
            let fs = txtr.files@;
            let at = txtr.offset;
            &&& (r is Some <==> 8 <= at <= archive@.len() && at + 8 + txtr_sec_size(fs, at as int)
                <= u32::MAX)
            &&& (r matches Some(out) ==> out.0@ == archive@.subrange(0, at as int)
                + txtr_section_bytes(fs, at as int) && out.1 == at + 8 + txtr_sec_size(
                fs,
                at as int,
            ) && out.0@.len() == out.1)
        }),
{
    let ghost fs = txtr.files@;
    let at = txtr.offset;
    if at < 8 || (at as usize) > archive.len() {
        return None;
    }
    let section = match txtr.write_to(at) {
        Some(section) => section,
        None => {
            return None;
        },
    };
    proof {
        lemma_auto_spec_u32_to_from_le_bytes();
        lemma_txtr_section_len(fs, at as int);
    }
    let mut out: Vec<u8> = Vec::new();
    push_bytes(&mut out, vstd::slice::slice_subrange(archive.as_slice(), 0, at as usize));
    push_bytes(&mut out, section.as_slice());
    let end = at + section.len() as u32;
    proof {
        assert(out@ =~= archive@.subrange(0, at as int) + txtr_section_bytes(fs, at as int));
    }
    Some((out, end))
}

proof fn lemma_txtr_ptr_bytes_len(fs: Seq<TxtrEntry>, pos: int, i: int)
    requires
        0 <= i <= fs.len(),
    ensures
        txtr_ptr_bytes_from(fs, pos, i).len() == 4 * (fs.len() - i),
    decreases fs.len() - i,
{
    lemma_auto_spec_u32_to_from_le_bytes();
    if i < fs.len() {
        lemma_txtr_ptr_bytes_len(fs, pos, i + 1);
    }
}

proof fn lemma_txtr_meta_bytes_len(fs: Seq<TxtrEntry>, pos: int, i: int)
    requires
        0 <= i <= fs.len(),
    ensures
        txtr_meta_bytes_from(fs, pos, i).len() == 12 * (fs.len() - i),
    decreases fs.len() - i,
{
    lemma_auto_spec_u32_to_from_le_bytes();
    if i < fs.len() {
        lemma_txtr_meta_bytes_len(fs, pos, i + 1);
    }
}

proof fn lemma_txtr_png_cat_len(fs: Seq<TxtrEntry>, i: int)
    requires
        0 <= i <= fs.len(),
    ensures
        txtr_png_cat_from(fs, i).len() == txtr_pngs_total(fs, fs.len() as int) - txtr_pngs_total(
            fs,
            i,
        ),
    decreases fs.len() - i,
{
    if i < fs.len() {
        lemma_txtr_png_cat_len(fs, i + 1);
    }
}

/// The rewritten page table is as long as its chunk header plus its
/// declared length.
pub proof fn lemma_txtr_section_len(fs: Seq<TxtrEntry>, pos: int)
    requires
        0 <= pos,
        pos + 8 + txtr_sec_size(fs, pos) <= u32::MAX,
    ensures
        txtr_section_bytes(fs, pos).len() == 8 + txtr_sec_size(fs, pos),
{
    lemma_auto_spec_u32_to_from_le_bytes();
    lemma_txtr_ptr_bytes_len(fs, pos, 0);
    lemma_txtr_meta_bytes_len(fs, pos, 0);
    lemma_txtr_png_cat_len(fs, 0);
    lemma_txtr_pngs_mono(fs, 0, fs.len() as int);
}

proof fn lemma_txtr_ptr_bytes_skip(fs: Seq<TxtrEntry>, pos: int, i: int)
    requires
        0 <= i <= fs.len(),
    ensures
        txtr_ptr_bytes_from(fs, pos, 0).skip(4 * i) =~= txtr_ptr_bytes_from(fs, pos, i),
    decreases i,
{
    lemma_auto_spec_u32_to_from_le_bytes();
    lemma_txtr_ptr_bytes_len(fs, pos, i);
    lemma_txtr_ptr_bytes_len(fs, pos, 0);
    if i > 0 {
        lemma_txtr_ptr_bytes_len(fs, pos, i - 1);
        lemma_txtr_ptr_bytes_skip(fs, pos, i - 1);
        assert(txtr_ptr_bytes_from(fs, pos, i - 1).skip(4) =~= txtr_ptr_bytes_from(fs, pos, i));
        lemma_skip_skip(txtr_ptr_bytes_from(fs, pos, 0), 4 * (i - 1), 4);
    }
}

proof fn lemma_txtr_meta_bytes_skip(fs: Seq<TxtrEntry>, pos: int, i: int)
    requires
        0 <= i <= fs.len(),
    ensures
        txtr_meta_bytes_from(fs, pos, 0).skip(12 * i) =~= txtr_meta_bytes_from(fs, pos, i),
    decreases i,
{
    lemma_auto_spec_u32_to_from_le_bytes();
    lemma_txtr_meta_bytes_len(fs, pos, i);
    lemma_txtr_meta_bytes_len(fs, pos, 0);
    if i > 0 {
        lemma_txtr_meta_bytes_len(fs, pos, i - 1);
        lemma_txtr_meta_bytes_skip(fs, pos, i - 1);
        assert(txtr_meta_bytes_from(fs, pos, i - 1).skip(12) =~= txtr_meta_bytes_from(
            fs,
            pos,
            i,
        ));
        lemma_skip_skip(txtr_meta_bytes_from(fs, pos, 0), 12 * (i - 1), 12);
    }
}

proof fn lemma_txtr_png_cat_skip(fs: Seq<TxtrEntry>, i: int)
    requires
        0 <= i <= fs.len(),
    ensures
        txtr_png_cat_from(fs, 0).skip(txtr_pngs_total(fs, i)) =~= txtr_png_cat_from(fs, i),
    decreases i,
{
    lemma_txtr_png_cat_len(fs, i);
    lemma_txtr_png_cat_len(fs, 0);
    if i > 0 {
        lemma_txtr_png_cat_len(fs, i - 1);
        lemma_txtr_pngs_mono(fs, 0, i - 1);
        lemma_txtr_png_cat_skip(fs, i - 1);
        assert(txtr_png_cat_from(fs, i - 1).skip(fs[i - 1].png@.len() as int)
            =~= txtr_png_cat_from(fs, i));
        lemma_txtr_pngs_mono(fs, i, fs.len() as int);
        lemma_skip_skip(
            txtr_png_cat_from(fs, 0),
            txtr_pngs_total(fs, i - 1),
            fs[i - 1].png@.len() as int,
        );
    }
}

proof fn lemma_txtr_ptr_value(fs: Seq<TxtrEntry>, pos: int, i: int)
    requires
        0 <= pos,
        pos + 8 + txtr_sec_size(fs, pos) <= u32::MAX,
        0 <= i < fs.len(),
    ensures
        txtr_meta_offset(fs, pos, i) <= u32::MAX,
        spec_le32_at(txtr_section_bytes(fs, pos).skip(8), 4 + 4 * i) == txtr_meta_offset(
            fs,
            pos,
            i,
        ),
{
    lemma_auto_spec_u32_to_from_le_bytes();
    let inner = txtr_section_bytes(fs, pos).skip(8);
    lemma_txtr_ptr_bytes_skip(fs, pos, i);
    lemma_txtr_ptr_bytes_len(fs, pos, i);
    lemma_txtr_ptr_bytes_len(fs, pos, 0);
    lemma_txtr_meta_bytes_len(fs, pos, 0);
    lemma_txtr_png_cat_len(fs, 0);
    lemma_txtr_pngs_mono(fs, 0, fs.len() as int);
    assert(txtr_ptr_bytes_from(fs, pos, i) == spec_u32_to_le_bytes(
        txtr_meta_offset(fs, pos, i) as u32,
    ) + txtr_ptr_bytes_from(fs, pos, i + 1));
    assert(txtr_ptr_bytes_from(fs, pos, i).subrange(0, 4) =~= spec_u32_to_le_bytes(
        txtr_meta_offset(fs, pos, i) as u32,
    ));
    assert(txtr_ptr_bytes_from(fs, pos, 0).subrange(4 * i, 4 * i + 4) =~= txtr_ptr_bytes_from(
        fs,
        pos,
        i,
    ).subrange(0, 4));
    assert(inner.subrange(4 + 4 * i, 4 + 4 * i + 4) =~= txtr_ptr_bytes_from(fs, pos, 0).subrange(
        4 * i,
        4 * i + 4,
    ));
    assert(spec_u32_to_le_bytes(txtr_meta_offset(fs, pos, i) as u32).len() == 4);
    assert(spec_le32_at(inner, 4 + 4 * i) == txtr_meta_offset(fs, pos, i) as u32);
}

proof fn lemma_txtr_meta_value(fs: Seq<TxtrEntry>, pos: int, i: int, bb: Seq<u8>)
    requires
        0 <= pos,
        pos + 8 + txtr_sec_size(fs, pos) <= u32::MAX,
        0 <= i < fs.len(),
        bb == txtr_meta_bytes_from(fs, pos, 0) + txtr_png_cat_from(fs, 0) + zeros(
            pad32(txtr_data_end(fs, pos)),
        ),
    ensures
        spec_le32_at(bb, 12 * i) == fs[i].unk1,
        spec_le32_at(bb, 12 * i + 4) == fs[i].unk2,
        spec_le32_at(bb, 12 * i + 8) as int == txtr_png_offset(fs, pos, i),
        txtr_png_offset(fs, pos, i) <= u32::MAX,
        bb.len() == 12 * fs.len() + txtr_pngs_total(fs, fs.len() as int) + pad32(
            txtr_data_end(fs, pos),
        ),
{
    lemma_auto_spec_u32_to_from_le_bytes();
    lemma_txtr_meta_bytes_skip(fs, pos, i);
    lemma_txtr_meta_bytes_len(fs, pos, i);
    lemma_txtr_meta_bytes_len(fs, pos, 0);
    lemma_txtr_png_cat_len(fs, 0);
    lemma_txtr_pngs_mono(fs, 0, i);
    lemma_txtr_pngs_mono(fs, i, fs.len() as int);
    assert(txtr_meta_bytes_from(fs, pos, i) == spec_u32_to_le_bytes(fs[i].unk1)
        + spec_u32_to_le_bytes(fs[i].unk2) + spec_u32_to_le_bytes(
        txtr_png_offset(fs, pos, i) as u32,
    ) + txtr_meta_bytes_from(fs, pos, i + 1));
    assert(spec_u32_to_le_bytes(fs[i].unk1).len() == 4);
    assert(spec_u32_to_le_bytes(fs[i].unk2).len() == 4);
    assert(spec_u32_to_le_bytes(txtr_png_offset(fs, pos, i) as u32).len() == 4);
    assert(txtr_meta_bytes_from(fs, pos, i).subrange(0, 4) =~= spec_u32_to_le_bytes(fs[i].unk1));
    assert(txtr_meta_bytes_from(fs, pos, i).subrange(4, 8) =~= spec_u32_to_le_bytes(fs[i].unk2));
    assert(txtr_meta_bytes_from(fs, pos, i).subrange(8, 12) =~= spec_u32_to_le_bytes(
        txtr_png_offset(fs, pos, i) as u32,
    ));
    assert(bb.subrange(12 * i, 12 * i + 4) =~= txtr_meta_bytes_from(fs, pos, i).subrange(0, 4));
    assert(bb.subrange(12 * i + 4, 12 * i + 8) =~= txtr_meta_bytes_from(fs, pos, i).subrange(
        4,
        8,
    ));
    assert(bb.subrange(12 * i + 8, 12 * i + 12) =~= txtr_meta_bytes_from(fs, pos, i).subrange(
        8,
        12,
    ));
    assert(spec_le32_at(bb, 12 * i) == fs[i].unk1);
    assert(spec_le32_at(bb, 12 * i + 4) == fs[i].unk2);
    assert(spec_le32_at(bb, 12 * i + 8) == txtr_png_offset(fs, pos, i) as u32);
}

proof fn lemma_txtr_png_slice(fs: Seq<TxtrEntry>, pos: int, i: int, bb: Seq<u8>)
    requires
        0 <= pos,
        pos + 8 + txtr_sec_size(fs, pos) <= u32::MAX,
        0 <= i < fs.len(),
        bb == txtr_meta_bytes_from(fs, pos, 0) + txtr_png_cat_from(fs, 0) + zeros(
            pad32(txtr_data_end(fs, pos)),
        ),
    ensures
        ({
            let start = 12 * fs.len() + txtr_pngs_total(fs, i);
            &&& (i < fs.len() - 1 ==> bb.subrange(
                start,
                12 * fs.len() + txtr_pngs_total(fs, i + 1),
            ) =~= fs[i].png@)
            &&& (i == fs.len() - 1 ==> bb.subrange(start, bb.len() as int) =~= fs[i].png@ + zeros(
                pad32(txtr_data_end(fs, pos)),
            ))
        }),
{
    let n = fs.len() as int;
    let cat = txtr_png_cat_from(fs, 0);
    let start = 12 * n + txtr_pngs_total(fs, i);
    let len = fs[i].png@.len() as int;
    lemma_txtr_meta_bytes_len(fs, pos, 0);
    lemma_txtr_png_cat_len(fs, 0);
    lemma_txtr_png_cat_len(fs, i);
    lemma_txtr_png_cat_len(fs, i + 1);
    lemma_txtr_png_cat_skip(fs, i);
    lemma_txtr_pngs_mono(fs, 0, i);
    lemma_txtr_pngs_mono(fs, i + 1, n);
    assert(txtr_png_cat_from(fs, i) == fs[i].png@ + txtr_png_cat_from(fs, i + 1));
    assert(cat.subrange(
        txtr_pngs_total(fs, i),
        txtr_pngs_total(fs, i) + len,
    ) =~= cat.skip(txtr_pngs_total(fs, i)).subrange(0, len));
    assert(cat.skip(txtr_pngs_total(fs, i)).subrange(0, len) =~= fs[i].png@);
    if i < n - 1 {
        assert(txtr_pngs_total(fs, i + 1) == txtr_pngs_total(fs, i) + len);
        assert(bb.subrange(start, 12 * n + txtr_pngs_total(fs, i + 1)) =~= cat.subrange(
            txtr_pngs_total(fs, i),
            txtr_pngs_total(fs, i) + len,
        ));
    } else {
        assert(txtr_png_cat_from(fs, i + 1) =~= Seq::<u8>::empty());
        assert(txtr_pngs_total(fs, n) == txtr_pngs_total(fs, i) + len);
        assert(bb.subrange(start, bb.len() as int) =~= fs[i].png@ + zeros(
            pad32(txtr_data_end(fs, pos)),
        ));
    }
}

/// Round-trip identity for the page table: a table rewritten at offset
/// `pos` frames as a page-table chunk whose declared length is the
/// recomputed size, its pointer list holds exactly the recomputed
/// metadata offsets, each metadata record holds the two kept words and
/// the recomputed page offset, and the page bytes decoded at those
/// offsets are byte-for-byte the pages that went in — except that the
/// last page absorbs the section's 32-byte alignment padding, which is
/// an encoding artifact and is what stripping trailing zeros undoes.
#[verifier::rlimit(100)]
#[verifier::spinoff_prover]
pub proof fn lemma_txtr_round_trip(fs: Seq<TxtrEntry>, pos: int)
    requires
        0 <= pos,
        pos + 8 + txtr_sec_size(fs, pos) <= u32::MAX,
    ensures
        ({
            let sb = txtr_section_bytes(fs, pos);
            let inner = sb.skip(8);
            let bp = table_body_pos(pos + 8, inner);
            let bb = table_body(inner);
            let ps = ptrs(inner);
            &&& sb.len() == 8 + txtr_sec_size(fs, pos)
            &&& magic_word(sb) == MAGIC_TXTR
            &&& spec_le32_at(sb, 4) == txtr_sec_size(fs, pos)
            &&& ptr_table_ok(inner)
            &&& ps.len() == fs.len()
            &&& bp == pos + 12 + 4 * fs.len()
            &&& forall|i: int|
                0 <= i < fs.len() ==> #[trigger] ps[i] == txtr_meta_offset(fs, pos, i)
            &&& forall|i: int|
                0 <= i < fs.len() ==> crate::txtr::txtr_meta_ok(bp, bb, #[trigger] ps[i])
                    && spec_le32_at(bb, ps[i] - bp) == fs[i].unk1 && spec_le32_at(
                    bb,
                    ps[i] - bp + 4,
                ) == fs[i].unk2 && crate::txtr::txtr_png_ptr(bp, bb, ps[i]) == txtr_png_offset(
                    fs,
                    pos,
                    i,
                )
            &&& crate::txtr::txtr_pngs_ok(bp, bb, ps)
            &&& forall|i: int|
                0 <= i < fs.len() - 1 ==> #[trigger] crate::txtr::txtr_png_at(bp, bb, ps, i)
                    == fs[i].png@
            &&& fs.len() > 0 ==> crate::txtr::txtr_png_at(bp, bb, ps, fs.len() - 1) == fs[fs.len()
                - 1].png@ + zeros(pad32(txtr_data_end(fs, pos)))
        }),
{
    lemma_auto_spec_u32_to_from_le_bytes();
    let n = fs.len() as int;
    let size = txtr_sec_size(fs, pos);
    let sb = txtr_section_bytes(fs, pos);
    let inner = sb.skip(8);
    lemma_txtr_ptr_bytes_len(fs, pos, 0);
    lemma_txtr_meta_bytes_len(fs, pos, 0);
    lemma_txtr_png_cat_len(fs, 0);
    lemma_txtr_pngs_mono(fs, 0, n);
    assert(sb.len() == 8 + size);
    assert(sb.subrange(0, 4) =~= spec_u32_to_le_bytes(MAGIC_TXTR));
    assert(magic_word(sb) == MAGIC_TXTR);
    assert(sb.subrange(4, 8) =~= spec_u32_to_le_bytes(size as u32));
    assert(spec_le32_at(sb, 4) == size);
    let mbb = txtr_meta_bytes_from(fs, pos, 0) + txtr_png_cat_from(fs, 0) + zeros(
        pad32(txtr_data_end(fs, pos)),
    );
    assert(inner =~= spec_u32_to_le_bytes(fs.len() as u32) + txtr_ptr_bytes_from(fs, pos, 0)
        + mbb);
    assert(inner.subrange(0, 4) =~= spec_u32_to_le_bytes(fs.len() as u32));
    assert(ptr_count(inner) == fs.len());
    assert(ptr_table_ok(inner));
    let bp = table_body_pos(pos + 8, inner);
    let bb = table_body(inner);
    let ps = ptrs(inner);
    assert(bb =~= mbb);
    assert(bp == pos + 12 + 4 * n);
    assert forall|i: int| 0 <= i < n implies #[trigger] ps[i] == txtr_meta_offset(
        fs,
        pos,
        i,
    ) by {
        lemma_txtr_ptr_value(fs, pos, i);
        assert(ps[i] == spec_le32_at(inner, 4 + 4 * i));
    }
    assert forall|i: int| 0 <= i < n implies crate::txtr::txtr_meta_ok(bp, bb, #[trigger] ps[i])
        && spec_le32_at(bb, ps[i] - bp) == fs[i].unk1 && spec_le32_at(bb, ps[i] - bp + 4)
        == fs[i].unk2 && crate::txtr::txtr_png_ptr(bp, bb, ps[i]) == txtr_png_offset(
        fs,
        pos,
        i,
    ) by {
        assert(bb == txtr_meta_bytes_from(fs, pos, 0) + txtr_png_cat_from(fs, 0) + zeros(
            pad32(txtr_data_end(fs, pos)),
        ));
        lemma_txtr_meta_value(fs, pos, i, bb);
        assert(ps[i] == txtr_meta_offset(fs, pos, i));
        assert(ps[i] - bp == 12 * i);
        assert(12 * i + 12 <= bb.len());
        assert(spec_le32_at(bb, ps[i] - bp) == fs[i].unk1);
        assert(spec_le32_at(bb, ps[i] - bp + 4) == fs[i].unk2);
        assert(ps[i] - bp + 8 == 12 * i + 8);
        assert(spec_le32_at(bb, 12 * i + 8) as int == txtr_png_offset(fs, pos, i));
        assert(crate::txtr::txtr_png_ptr(bp, bb, ps[i]) == spec_le32_at(bb, ps[i] - bp + 8));
    }
    assert(crate::txtr::txtr_pngs_ok(bp, bb, ps)) by {
        assert forall|i: int| 0 <= i < ps.len() implies bp <= crate::txtr::txtr_png_ptr(
            bp,
            bb,
            #[trigger] ps[i],
        ) by {
            lemma_txtr_meta_value(fs, pos, i, bb);
            lemma_txtr_pngs_mono(fs, 0, i);
        }
        assert forall|i: int|
            0 <= i < ps.len() - 1 implies #[trigger] crate::txtr::txtr_png_start(bp, bb, ps, i)
            <= crate::txtr::txtr_png_start(bp, bb, ps, i + 1) by {
            lemma_txtr_meta_value(fs, pos, i, bb);
            lemma_txtr_meta_value(fs, pos, i + 1, bb);
        }
        if ps.len() > 0 {
            lemma_txtr_meta_value(fs, pos, n - 1, bb);
            lemma_txtr_pngs_mono(fs, n - 1, n);
        }
    }
    assert forall|i: int| 0 <= i < n - 1 implies #[trigger] crate::txtr::txtr_png_at(
        bp,
        bb,
        ps,
        i,
    ) == fs[i].png@ by {
        lemma_txtr_meta_value(fs, pos, i, bb);
        lemma_txtr_meta_value(fs, pos, i + 1, bb);
        lemma_txtr_png_slice(fs, pos, i, bb);
    }
    if n > 0 {
        lemma_txtr_meta_value(fs, pos, n - 1, bb);
        lemma_txtr_png_slice(fs, pos, n - 1, bb);
        assert(crate::txtr::txtr_png_at(bp, bb, ps, n - 1) =~= fs[n - 1].png@ + zeros(
            pad32(txtr_data_end(fs, pos)),
        ));
    }
}

} // verus!
