use vstd::prelude::*;

verus! {

/// A slice of the archive buffer that remembers the absolute offset of its
/// first byte within the whole file. Every decoder threads one of these, so
/// that a pointer value read anywhere can be turned into a sub-view without
/// carrying an external base.
#[derive(Debug, Clone, Copy, PartialEq)]
pub struct PosSlice<'a> {
    pub pos: usize,
    pub data: &'a [u8],
}

impl<'a> PosSlice<'a> {
    /// The absolute offset one past the view's last byte never exceeds the
    /// address space; `sub`-views inherit this from the view they came from.
    pub open spec fn wf(self) -> bool {
        self.pos + self.data@.len() <= usize::MAX
    }

    /// The archive format stores absolute offsets and lengths as `u32`, so
    /// every view of a well-formed archive ends at or before `u32::MAX`.
    pub open spec fn wf32(self) -> bool {
        self.pos + self.data@.len() <= u32::MAX
    }

    /// The absolute offset one past the view's last byte.
    pub open spec fn end_pos(self) -> int {
        self.pos + self.data@.len()
    }

    pub fn from_slice(slice: &'a [u8]) -> (r: Self)
        ensures
            r.pos == 0,
            r.data@ == slice@,
    {
        PosSlice { pos: 0, data: slice }
    }

    pub fn new(pos: usize, slice: &'a [u8]) -> (r: Self)
        ensures
            r.pos == pos,
            r.data@ == slice@,
    {
        PosSlice { pos, data: slice }
    }

    /// `sub(start, end)` is the only way to advance: the new view covers
    /// bytes `start..end` of this one and its absolute offset grows by
    /// `start`.
    pub fn slice(&self, start: usize, end: usize) -> (r: Self)
        requires
            self.wf(),
            start <= end <= self.data@.len(),
        ensures
            r.pos == self.pos + start,
            r.data@ == self.data@.subrange(start as int, end as int),
            r.wf(),
    {
        PosSlice { pos: self.pos + start, data: vstd::slice::slice_subrange(self.data, start, end) }
    }

    /// The absolute offset of the view's first byte in the archive.
    pub fn pos(&self) -> (r: usize)
        ensures
            r == self.pos,
    {
        self.pos
    }

    /// Drops the first `off` bytes, keeping the rest of the view.
    pub fn offset(&self, off: usize) -> (r: Self)
        requires
            self.wf(),
            off <= self.data@.len(),
        ensures
            r.pos == self.pos + off,
            r.data@ == self.data@.subrange(off as int, self.data@.len() as int),
            r.wf(),
    {
        self.slice(off, self.data.len())
    }

    pub fn len(&self) -> (r: usize)
        ensures
            r == self.data@.len(),
    {
        self.data.len()
    }
}

} // verus!
