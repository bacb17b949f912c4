use vstd::prelude::*;
use std::collections::HashMap;
use crate::track_slice::PosSlice;
use crate::byte_parsers::{le_u32, spec_le32_at};
use crate::ParseErr;

verus! {

broadcast use vstd::std_specs::hash::group_hash_axioms;

/// The entry count at the head of an indirected table.
pub open spec fn ptr_count(b: Seq<u8>) -> u32 {
    spec_le32_at(b, 0)
}

/// The `j`-th absolute offset stored in the table's pointer list.
pub open spec fn ptr_at(b: Seq<u8>, j: int) -> u32 {
    spec_le32_at(b, 4 + 4 * j)
}

/// The pointer list in file order: this order is the table's canonical
/// ordering and is preserved on output.
pub open spec fn ptrs(b: Seq<u8>) -> Seq<u32> {
    Seq::new(ptr_count(b) as nat, |j: int| ptr_at(b, j))
}

/// The count and the whole pointer list fit in the view.
pub open spec fn ptr_table_ok(b: Seq<u8>) -> bool {
    b.len() >= 4 && 4 * (ptr_count(b) as int) <= b.len() - 4
}

/// Absolute position of the first byte after the pointer list; record
/// pointers are resolved against the view that starts here.
pub open spec fn table_body_pos(pos: int, b: Seq<u8>) -> int {
    pos + 4 + 4 * (ptr_count(b) as int)
}

/// The bytes after the pointer list.
pub open spec fn table_body(b: Seq<u8>) -> Seq<u8> {
    b.skip(4 + 4 * (ptr_count(b) as int))
}

/// Reads the head of an indirected table: an entry count, then that many
/// absolute file offsets. Returns the view positioned after the pointer
/// list together with the offsets in file order; fails with `Eof` when the
/// view is too short for the declared count.
pub fn read_ptr_table(i: PosSlice) -> (r: Result<(PosSlice, Vec<u32>), ParseErr>)
    requires
        i.wf(),
    ensures
        ptr_table_ok(i.data@) ==> (r matches Ok(t) && t.0.pos == table_body_pos(i.pos as int, i.data@)
            && t.0.data@ == table_body(i.data@) && t.0.wf() && t.1@ == ptrs(i.data@)),
        !ptr_table_ok(i.data@) ==> (r matches Err(e) && e == ParseErr::Eof),
{
    let ghost b = i.data@;
    let (after_count, count) = le_u32(i)?;
    let n = count as usize;
    if (i.len() - 4) / 4 < n {
        assert(!ptr_table_ok(b));
        return Err(ParseErr::Eof);
    }
    assert(4 * (count as int) <= b.len() - 4);
    let mut out: Vec<u32> = Vec::new();
    let mut cur = after_count;
    let mut k: usize = 0;
    while k < n
        invariant
            n == ptr_count(b) as int,
            4 + 4 * (n as int) <= b.len(),
            0 <= k <= n,
            cur.pos == i.pos + 4 + 4 * k,
            cur.data@ == b.skip(4 + 4 * k as int),
            cur.wf(),
            out@.len() == k,
            forall|j: int| 0 <= j < k ==> out@[j] == ptr_at(b, j),
        decreases n - k,
    {
        assert(cur.data@.len() == b.len() - 4 - 4 * k as int);
        let (next, v) = le_u32(cur)?;
        proof {
            assert(cur.data@.subrange(0, 4) =~= b.subrange(4 + 4 * k as int, 4 + 4 * k as int + 4));
            assert(next.data@ =~= b.skip(4 + 4 * (k + 1) as int));
        }
        out.push(v);
        cur = next;
        k = k + 1;
    }
    proof {
        assert(out@ =~= ptrs(b));
        assert(cur.data@ =~= table_body(b));
    }
    Ok((cur, out))
}

/// Index of the first occurrence of `v` in `s` (or `s.len()` when absent).
pub open spec fn first_occ(s: Seq<u32>, v: u32) -> int
    decreases s.len(),
{
    if s.len() == 0 {
        0
    } else if s[0] == v {
        0
    } else {
        1 + first_occ(s.skip(1), v)
    }
}

pub proof fn lemma_first_occ_at(s: Seq<u32>, j: int)
    requires
        0 <= j < s.len(),
        forall|k: int| 0 <= k < j ==> s[k] != s[j],
    ensures
        first_occ(s, s[j]) == j,
    decreases j,
{
    if j == 0 {
    } else {
        assert(s[0] != s[j]);
        let t = s.skip(1);
        assert(t[j - 1] == s[j]);
        assert(forall|k: int| 0 <= k < j - 1 ==> #[trigger] t[k] == s[k + 1] && t[k] != t[j - 1]);
        lemma_first_occ_at(t, j - 1);
    }
}

pub proof fn lemma_first_occ_props(s: Seq<u32>, v: u32)
    requires
        exists|i: int| 0 <= i < s.len() && s[i] == v,
    ensures
        0 <= first_occ(s, v) < s.len(),
        s[first_occ(s, v)] == v,
        forall|k: int| 0 <= k < first_occ(s, v) ==> s[k] != v,
    decreases s.len(),
{
    if s.len() > 0 && s[0] != v {
        let t = s.skip(1);
        let i = choose|i: int| 0 <= i < s.len() && s[i] == v;
        assert(t[i - 1] == v);
        lemma_first_occ_props(t, v);
        assert forall|k: int| 1 <= k < first_occ(s, v) implies s[k] != v by {
            assert(t[k - 1] == s[k]);
            assert(k - 1 < first_occ(t, v));
        }
    }
}

/// The key under which pointer `j` is entered in a reverse index built
/// with the given bias.
pub open spec fn loc_key(offs: Seq<u32>, bias: u32, j: int) -> u32 {
    (offs[j] + bias) as u32
}

/// What it means for `m` to be the reverse index of a pointer list: every
/// stored pointer (plus bias) is a key, each key maps to the position of
/// that pointer value's first occurrence, and there are no other keys.
/// Later duplicates are aliases of the first occurrence, not errors.
pub open spec fn is_rev_index(offs: Seq<u32>, bias: u32, m: Map<u32, usize>) -> bool {
    &&& forall|j: int| 0 <= j < offs.len() ==> m.contains_key(#[trigger] loc_key(offs, bias, j))
    &&& forall|j: int|
        0 <= j < offs.len() ==> #[trigger] m[loc_key(offs, bias, j)] as int == first_occ(
            offs,
            offs[j],
        )
    &&& forall|k: u32|
        #[trigger] m.contains_key(k) ==> exists|j: int| 0 <= j < offs.len() && k == loc_key(
            offs,
            bias,
            j,
        )
}

/// Builds the companion reverse index of a pointer list: absolute offset
/// (plus bias) to record position. Duplicate pointers map to the first
/// occurrence's index.
pub fn build_locations(offs: &Vec<u32>, bias: u32) -> (r: HashMap<u32, usize>)
    requires
        forall|j: int| 0 <= j < offs@.len() ==> offs@[j] + bias <= u32::MAX,
    ensures
        is_rev_index(offs@, bias, r@),
{
    let mut m: HashMap<u32, usize> = HashMap::new();
    let n = offs.len();
    let mut j: usize = 0;
    while j < n
        invariant
            n == offs@.len(),
            0 <= j <= n,
            forall|i: int| 0 <= i < offs@.len() ==> offs@[i] + bias <= u32::MAX,
            forall|i: int| 0 <= i < j ==> m@.contains_key(#[trigger] loc_key(offs@, bias, i)),
            forall|i: int|
                0 <= i < j ==> #[trigger] m@[loc_key(offs@, bias, i)] as int == first_occ(
                    offs@,
                    offs@[i],
                ),
            forall|k: u32|
                #[trigger] m@.contains_key(k) ==> exists|i: int| 0 <= i < j && k == loc_key(
                    offs@,
                    bias,
                    i,
                ),
        decreases n - j,
    {
        let key = offs[j] + bias;
        assert(key == loc_key(offs@, bias, j as int));
        if !m.contains_key(&key) {
            proof {
                assert forall|k: int| 0 <= k < j implies offs@[k] != offs@[j as int] by {
                    if offs@[k] == offs@[j as int] {
                        assert(loc_key(offs@, bias, k) == key);
                        assert(m@.contains_key(key));
                    }
                }
                lemma_first_occ_at(offs@, j as int);
            }
            m.insert(key, j);
        } else {
            proof {
                let i = choose|i: int| 0 <= i < j && key == loc_key(offs@, bias, i);
                assert(offs@[i] + bias == offs@[j as int] + bias);
                assert(offs@[i] == offs@[j as int]);
                assert(m@[key] as int == first_occ(offs@, offs@[j as int]));
            }
        }
        j = j + 1;
    }
    m
}

/// Pointer resolution correctness: when a table's pointer list holds no
/// duplicate values, the reverse index sends the `i`-th stored pointer
/// back to position `i` of the decoded sequence.
pub proof fn lemma_pointer_resolution(offs: Seq<u32>, bias: u32, m: Map<u32, usize>)
    requires
        is_rev_index(offs, bias, m),
        forall|i: int, j: int| 0 <= i < j < offs.len() ==> offs[i] != offs[j],
    ensures
        forall|i: int|
            0 <= i < offs.len() ==> m.contains_key(#[trigger] loc_key(offs, bias, i))
                && m[loc_key(offs, bias, i)] as int == i,
{
    assert forall|i: int| 0 <= i < offs.len() implies m.contains_key(
        #[trigger] loc_key(offs, bias, i),
    ) && m[loc_key(offs, bias, i)] as int == i by {
        lemma_first_occ_at(offs, i);
    }
}

/// Duplicate pointer aliasing: two identical pointer values in a table
/// resolve through the reverse index to the same record position, never to
/// two separate records.
pub proof fn lemma_duplicate_alias(offs: Seq<u32>, bias: u32, m: Map<u32, usize>, i: int, j: int)
    requires
        is_rev_index(offs, bias, m),
        0 <= i < offs.len(),
        0 <= j < offs.len(),
        offs[i] == offs[j],
    ensures
        loc_key(offs, bias, i) == loc_key(offs, bias, j),
        m[loc_key(offs, bias, i)] == m[loc_key(offs, bias, j)],
{
}

} // verus!
