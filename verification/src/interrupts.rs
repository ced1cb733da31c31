//! Interrupt vector assignment.
//!
//! The legacy interrupt controller pair is remapped so its lines start
//! at vector 32; the timer and keyboard lines drive preemption and the
//! scancode queue.

use vstd::prelude::*;

verus! {

/// Vector of the first line of the primary interrupt controller.
pub const PIC_1_OFFSET: u8 = 32;
/// Vector of the first line of the secondary interrupt controller.
pub const PIC_2_OFFSET: u8 = PIC_1_OFFSET + 8;

/// The remapped hardware interrupt lines the kernel handles.
#[derive(Debug, Clone, Copy, PartialEq, Eq, Structural)]
pub enum InterruptIndex {
    /// The periodic timer: the preemption tick.
    Timer,
    /// The keyboard controller.
    Keyboard,
}

impl InterruptIndex {
    /// The interrupt's vector number.
    pub fn as_u8(self) -> (r: u8)
        ensures
            self is Timer ==> r == PIC_1_OFFSET,
            self is Keyboard ==> r == PIC_1_OFFSET + 1,
    {
        match self {
            InterruptIndex::Timer => PIC_1_OFFSET,
            InterruptIndex::Keyboard => PIC_1_OFFSET + 1,
        }
    }

    /// The interrupt's vector number, as a table index.
    pub fn as_usize(self) -> (r: usize)
        ensures
            self is Timer ==> r == PIC_1_OFFSET,
            self is Keyboard ==> r == PIC_1_OFFSET + 1,
    {
        self.as_u8() as usize
    }
}

} // verus!
