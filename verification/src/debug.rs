//! Address ranges of the kernel image's sections, used by the debug
//! facilities to locate the text and exception-handling frame sections.

use vstd::prelude::*;

verus! {

/// A half-open range `[start, end)` of virtual addresses.
#[derive(Debug, Clone, Copy, PartialEq, Eq, Structural)]
pub struct AddrRange {
    pub start: u64,
    pub end: u64,
}

impl AddrRange {
    /// Whether `addr` lies inside the range.
    pub fn contains(&self, addr: u64) -> (r: bool)
        ensures
            r == (self.start <= addr < self.end),
    {
        addr >= self.start && addr < self.end
    }

    /// The number of addresses in the range.
    pub fn len(&self) -> (r: u64)
        requires
            self.start <= self.end,
        ensures
            r == self.end - self.start,
    {
        self.end - self.start
    }
}

/// The section addresses a stack unwinder needs: the text section, the
/// exception-handling frame header, and the end of the frame data.
#[derive(Debug)]
pub struct EhRef {
    pub text: AddrRange,
    pub eh_frame_hdr: AddrRange,
    pub eh_frame_end: u64,
}

} // verus!
