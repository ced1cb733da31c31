//! A minimal preemptive multitasking kernel core for 64-bit x86 machines.
//!
//! The library is the kernel's verified execution substrate: the
//! round-robin thread scheduler, per-thread address spaces, the
//! physical-frame and guard-paged stack allocators, the heap initializer
//! and bump allocator, the scancode queue, and the framebuffer console's
//! rendering state. Hardware access — port I/O, control registers, the
//! descriptor tables, the interrupt trampolines — lives outside the
//! library and drives it with plain values.

use vstd::prelude::*;

mod allocator;
mod debug;
mod interrupts;
mod kernel_info;
mod keyboard;
mod memory;
mod paging;
mod scheduler;
mod thread;
mod vga;

pub use allocator::align_up;
pub use allocator::heap_mappings;
pub use allocator::heap_page;
pub use allocator::heap_range_free;
pub use allocator::in_heap_range;
pub use allocator::init_heap;
pub use allocator::lemma_align_up_props;
pub use allocator::spec_align_up;
pub use allocator::BumpAllocator;
pub use allocator::HEAP_PAGES;
pub use allocator::HEAP_SIZE;
pub use allocator::HEAP_START;
pub use debug::AddrRange;
pub use debug::EhRef;
pub use interrupts::InterruptIndex;
pub use interrupts::PIC_1_OFFSET;
pub use interrupts::PIC_2_OFFSET;
pub use kernel_info::get_framebuffer_address;
pub use kernel_info::get_kernel_cr3;
pub use kernel_info::get_memory_regions;
pub use kernel_info::get_physical_memory_offset;
pub use kernel_info::KernelInfo;
pub use kernel_info::QemuExitCode;
pub use keyboard::add_scancode;
pub use keyboard::ScancodeStream;
pub use keyboard::SCANCODE_QUEUE_CAPACITY;
pub use memory::lemma_frame_uniqueness;
pub use memory::lemma_region_frames_props;
pub use memory::lemma_usable_frames_increasing;
pub use memory::region_frames;
pub use memory::region_wf;
pub use memory::regions_wf;
pub use memory::usable_frames;
pub use memory::BootInfoFrameAllocator;
pub use memory::MemoryRegion;
pub use memory::RegionKind;
pub use memory::PAGE_SIZE;
pub use paging::allocate_page_table;
pub use paging::lemma_mappings_contain_split;
pub use paging::mappings_contain;
pub use paging::entry_addr;
pub use paging::entry_flags;
pub use paging::is_user_space_for;
pub use paging::lemma_kernel_half_invariance;
pub use paging::KernelMapper;
pub use paging::MapError;
pub use paging::Mapping;
pub use paging::PageTable;
pub use paging::UserAddressSpace;
pub use paging::FLAG_PRESENT;
pub use paging::FLAG_USER_ACCESSIBLE;
pub use paging::FLAG_WRITABLE;
pub use paging::KERNEL_L3_CODE_INDEX;
pub use paging::KERNEL_L3_DATA_INDEX;
pub use paging::KERNEL_TABLE_FLAGS;
pub use paging::TABLE_ENTRIES;
pub use paging::USER_FRAME_COUNT;
pub use paging::USER_SPACE_FRAMES;
pub use paging::USER_TABLE_FLAGS;
pub use scheduler::add_paused_thread;
pub use scheduler::paused_record;
pub use scheduler::preempt_queue;
pub use scheduler::preempt_snapshot;
pub use scheduler::preempt_state_wf;
pub use scheduler::preempt_step;
pub use scheduler::preempt_steps;
pub use scheduler::running_record;
pub use scheduler::spawned_ids;
pub use scheduler::window_targets;
pub use scheduler::lemma_fifo_fairness;
pub use scheduler::lemma_preemption_transparency;
pub use scheduler::lemma_spawned_ids_distinct;
pub use scheduler::spawn;
pub use scheduler::spawn_user;
pub use scheduler::timer_preempt;
pub use scheduler::PreemptState;
pub use scheduler::Scheduler;
pub use thread::in_stack_block;
pub use thread::kernel_entry_frame;
pub use thread::registers_with_cr3;
pub use thread::spec_thread_id;
pub use thread::stack_block_free;
pub use thread::stack_block_mappings;
pub use thread::stack_page;
pub use thread::user_entry_frame;
pub use thread::InterruptFrame;
pub use thread::Registers;
pub use thread::Selectors;
pub use thread::Stack;
pub use thread::StackAllocator;
pub use thread::Thread;
pub use thread::ThreadId;
pub use thread::ThreadIdCounter;
pub use thread::KERNEL_STACK_PAGES;
pub use thread::KERNEL_THREAD_RFLAGS;
pub use thread::USER_STACK_TOP;
pub use thread::USER_THREAD_RFLAGS;
pub use thread::STACK_WINDOW_BASE;
pub use thread::USER_ENTRY_ADDRESS;
pub use vga::glyph_of;
pub use vga::glyph_pixel;
pub use vga::in_glyph_cell;
pub use vga::pixel_index;
pub use vga::scrolled_at;
pub use vga::Writer;
pub use vga::BUFFER_HEIGHT;
pub use vga::BUFFER_WIDTH;
pub use vga::FALLBACK_BYTE;
pub use vga::LINE_SIZE;
pub use vga::VGA_HEIGHT;
pub use vga::VGA_WIDTH;

verus! {

} // verus!
