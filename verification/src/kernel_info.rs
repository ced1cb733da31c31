//! The write-once record of the bootloader handoff.
//!
//! At entry the bootloader hands the kernel the virtual address at which
//! all physical memory is mapped, the physical memory map, the active
//! address-space root, and the framebuffer's address. The boot path
//! freezes them into this record before anything else runs.

use vstd::prelude::*;

use crate::memory::regions_wf;
use crate::memory::MemoryRegion;

verus! {

/// The frozen bootloader handoff.
pub struct KernelInfo {
    cr3: u64,
    memory_regions: Vec<MemoryRegion>,
    physical_memory_offset: u64,
    framebuffer_address: u64,
}

impl KernelInfo {
    /// The address-space root in use at boot.
    pub closed spec fn spec_cr3(self) -> u64 {
        self.cr3
    }

    /// The physical memory map.
    pub closed spec fn spec_memory_regions(self) -> Seq<MemoryRegion> {
        self.memory_regions@
    }

    /// The virtual address where physical memory is mapped.
    pub closed spec fn spec_physical_memory_offset(self) -> u64 {
        self.physical_memory_offset
    }

    /// The framebuffer's virtual address.
    pub closed spec fn spec_framebuffer_address(self) -> u64 {
        self.framebuffer_address
    }

    /// The memory map is well-formed.
    pub open spec fn wf(self) -> bool {
        regions_wf(self.spec_memory_regions())
    }

    /// Freezes the bootloader handoff.
    pub fn new(
        cr3: u64,
        memory_regions: Vec<MemoryRegion>,
        physical_memory_offset: u64,
        framebuffer_address: u64,
    ) -> (r: Self)
        requires
            regions_wf(memory_regions@),
        ensures
            r.wf(),
            r.spec_cr3() == cr3,
            r.spec_memory_regions() == memory_regions@,
            r.spec_physical_memory_offset() == physical_memory_offset,
            r.spec_framebuffer_address() == framebuffer_address,
    {
        KernelInfo { cr3, memory_regions, physical_memory_offset, framebuffer_address }
    }
}

/// The physical memory map the bootloader reported.
pub fn get_memory_regions(info: &KernelInfo) -> (r: &Vec<MemoryRegion>)
    ensures
        r@ == info.spec_memory_regions(),
{
    &info.memory_regions
}

/// The virtual address at which all physical memory is mapped.
pub fn get_physical_memory_offset(info: &KernelInfo) -> (r: u64)
    ensures
        r == info.spec_physical_memory_offset(),
{
    info.physical_memory_offset
}

/// The address-space root in use at boot: the kernel's own.
pub fn get_kernel_cr3(info: &KernelInfo) -> (r: u64)
    ensures
        r == info.spec_cr3(),
{
    info.cr3
}

/// The framebuffer's virtual base address.
pub fn get_framebuffer_address(info: &KernelInfo) -> (r: u64)
    ensures
        r == info.spec_framebuffer_address(),
{
    info.framebuffer_address
}

/// What a test writes to the exit device to stop the emulator.
#[derive(Debug, Clone, Copy, PartialEq, Eq, Structural)]
pub enum QemuExitCode {
    Success,
    Failed,
}

impl QemuExitCode {
    /// The four-byte value written to the exit device.
    pub fn as_u32(self) -> (r: u32)
        ensures
            self is Success ==> r == 0x10,
            self is Failed ==> r == 0x11,
    {
        match self {
            QemuExitCode::Success => 0x10,
            QemuExitCode::Failed => 0x11,
        }
    }
}

} // verus!
