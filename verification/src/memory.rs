//! Physical-frame allocation from the bootloader's memory map.
//!
//! The bootloader hands the kernel an ordered list of physical memory
//! regions. Frames are drawn monotonically from the concatenation of the
//! `Usable` regions, chunked into 4 KiB-aligned frames; a frame handed out
//! once is never handed out again.

use vstd::prelude::*;

verus! {

/// Size of a physical frame and of a virtual page, in bytes.
pub const PAGE_SIZE: u64 = 4096;

/// The kind of a physical memory region reported by the bootloader.
#[derive(Debug, Clone, Copy, PartialEq, Eq, Structural)]
pub enum RegionKind {
    /// Free for the kernel to use.
    Usable,
    /// Reserved, in use by firmware, or otherwise off-limits.
    Other,
}

/// A physical memory region `[start, end)` reported by the bootloader.
#[derive(Debug, Clone, Copy, PartialEq, Eq, Structural)]
pub struct MemoryRegion {
    pub start: u64,
    pub end: u64,
    pub kind: RegionKind,
}

/// A single region is well-formed when page-aligned and non-inverted.
pub open spec fn region_wf(r: MemoryRegion) -> bool {
    &&& r.start % PAGE_SIZE == 0
    &&& r.end % PAGE_SIZE == 0
    &&& r.start <= r.end
}

/// A region list is well-formed when each region is well-formed and the
/// regions are ordered and pairwise disjoint.
pub open spec fn regions_wf(rs: Seq<MemoryRegion>) -> bool {
    &&& forall|i: int| 0 <= i < rs.len() ==> region_wf(#[trigger] rs[i])
    &&& forall|i: int, j: int| 0 <= i < j < rs.len() ==> #[trigger] rs[i].end <= #[trigger] rs[j].start
}

/// The frames of one region, in ascending order of their base address.
pub open spec fn region_frames(r: MemoryRegion) -> Seq<u64> {
    Seq::new(
        ((r.end - r.start) / (PAGE_SIZE as int)) as nat,
        |i: int| (r.start + (PAGE_SIZE as int) * i) as u64,
    )
}

/// All usable frames of a region list, in allocation order.
pub open spec fn usable_frames(rs: Seq<MemoryRegion>) -> Seq<u64>
    decreases rs.len(),
{
    if rs.len() == 0 {
        Seq::empty()
    } else if rs[0].kind == RegionKind::Usable {
        region_frames(rs[0]) + usable_frames(rs.drop_first())
    } else {
        usable_frames(rs.drop_first())
    }
}

/// The tail of a well-formed region list is well-formed.
proof fn lemma_rest_wf(rs: Seq<MemoryRegion>)
    requires
        regions_wf(rs),
        rs.len() > 0,
    ensures
        regions_wf(rs.drop_first()),
{
    let rest = rs.drop_first();
    assert(forall|i: int| 0 <= i < rest.len() ==> rest[i] == #[trigger] rs[i + 1]);
}

/// Each frame of a well-formed region is page-aligned, lies inside the
/// region, and sits at a fixed offset from the region's start.
pub proof fn lemma_region_frames_props(r: MemoryRegion)
    requires
        region_wf(r),
    ensures
        (PAGE_SIZE as int) * region_frames(r).len() == r.end - r.start,
        forall|k: int| 0 <= k < region_frames(r).len()
            ==> #[trigger] region_frames(r)[k] == r.start + (PAGE_SIZE as int) * k,
        forall|k: int| 0 <= k < region_frames(r).len()
            ==> r.start <= #[trigger] region_frames(r)[k]
                && region_frames(r)[k] + PAGE_SIZE <= r.end,
        forall|k: int| 0 <= k < region_frames(r).len()
            ==> #[trigger] region_frames(r)[k] % PAGE_SIZE == 0,
{
    let p = PAGE_SIZE as int;
    let n = region_frames(r).len() as int;
    assert(p * ((r.end - r.start) / p) == r.end - r.start) by {
        vstd::arithmetic::div_mod::lemma_fundamental_div_mod(r.end - r.start, p);
        assert((r.end - r.start) % p == 0) by {
            vstd::arithmetic::div_mod::lemma_sub_mod_noop(r.end as int, r.start as int, p);
        }
    }
    assert forall|k: int| 0 <= k < n implies #[trigger] region_frames(r)[k] == r.start + p * k
        && r.start <= region_frames(r)[k]
        && region_frames(r)[k] + PAGE_SIZE <= r.end
        && region_frames(r)[k] % PAGE_SIZE == 0 by {
        assert(0 <= p * k && p * (k + 1) <= p * n) by (nonlinear_arith)
            requires 0 <= k < n, p == 4096;
        assert(p * (k + 1) == p * k + p) by (nonlinear_arith);
        assert((r.start + p * k) % p == 0) by {
            vstd::arithmetic::div_mod::lemma_mod_multiples_vanish(k, r.start as int, p);
        }
    }
}

/// Splitting a region list splits its usable frames.
pub proof fn lemma_usable_frames_concat(a: Seq<MemoryRegion>, b: Seq<MemoryRegion>)
    ensures
        usable_frames(a + b) == usable_frames(a) + usable_frames(b),
    decreases a.len(),
{
    if a.len() == 0 {
        assert(a + b =~= b);
        assert(usable_frames(a) + usable_frames(b) =~= usable_frames(b));
    } else {
        lemma_usable_frames_concat(a.drop_first(), b);
        assert((a + b).drop_first() =~= a.drop_first() + b);
        assert((a + b)[0] == a[0]);
        if a[0].kind == RegionKind::Usable {
            assert(usable_frames(a + b) =~= usable_frames(a) + usable_frames(b));
        }
    }
}

/// The usable frames of a one-region list are that region's frames, if it
/// is usable, and none otherwise.
pub proof fn lemma_usable_frames_singleton(r: MemoryRegion)
    ensures
        usable_frames(seq![r]) == (if r.kind == RegionKind::Usable {
            region_frames(r)
        } else {
            Seq::<u64>::empty()
        }),
{
    let s = seq![r];
    assert(s.len() == 1);
    assert(s[0] == r);
    assert(s.drop_first() =~= Seq::<MemoryRegion>::empty());
    assert(usable_frames(Seq::<MemoryRegion>::empty()) =~= Seq::<u64>::empty());
    if r.kind == RegionKind::Usable {
        assert(usable_frames(s) =~= region_frames(r));
    } else {
        assert(usable_frames(s) =~= Seq::<u64>::empty());
    }
}

/// Appending a region extends the usable frames by that region's frames.
pub proof fn lemma_usable_frames_push(s: Seq<MemoryRegion>, r: MemoryRegion)
    ensures
        usable_frames(s.push(r)) == usable_frames(s) + (if r.kind == RegionKind::Usable {
            region_frames(r)
        } else {
            Seq::<u64>::empty()
        }),
{
    assert(s.push(r) =~= s + seq![r]);
    lemma_usable_frames_concat(s, seq![r]);
    lemma_usable_frames_singleton(r);
}

/// Every usable frame of a well-formed region list lies at or above a
/// bound below all the regions.
pub proof fn lemma_usable_frames_lower_bound(rs: Seq<MemoryRegion>, b: u64)
    requires
        regions_wf(rs),
        forall|i: int| 0 <= i < rs.len() ==> b <= #[trigger] rs[i].start,
    ensures
        forall|k: int| 0 <= k < usable_frames(rs).len() ==> b <= #[trigger] usable_frames(rs)[k],
    decreases rs.len(),
{
    if rs.len() > 0 {
        let rest = rs.drop_first();
        lemma_rest_wf(rs);
        assert(forall|i: int| 0 <= i < rest.len() ==> rest[i] == #[trigger] rs[i + 1]);
        lemma_usable_frames_lower_bound(rest, b);
        lemma_region_frames_props(rs[0]);
        assert(b <= rs[0].start);
        if rs[0].kind == RegionKind::Usable {
            let pre = region_frames(rs[0]);
            assert forall|k: int| 0 <= k < usable_frames(rs).len()
                implies b <= #[trigger] usable_frames(rs)[k] by {
                if k < pre.len() {
                    assert(usable_frames(rs)[k] == pre[k]);
                    assert(rs[0].start <= pre[k]);
                } else {
                    assert(usable_frames(rs)[k] == usable_frames(rest)[k - pre.len()]);
                    assert(b <= usable_frames(rest)[k - pre.len()]);
                }
            }
        } else {
            assert forall|k: int| 0 <= k < usable_frames(rs).len()
                implies b <= #[trigger] usable_frames(rs)[k] by {
                assert(usable_frames(rs)[k] == usable_frames(rest)[k]);
                assert(b <= usable_frames(rest)[k]);
            }
        }
    }
}

/// The usable frames of a well-formed region list are strictly increasing,
/// hence pairwise distinct.
pub proof fn lemma_usable_frames_increasing(rs: Seq<MemoryRegion>)
    requires
        regions_wf(rs),
    ensures
        forall|i: int, j: int| 0 <= i < j < usable_frames(rs).len()
            ==> #[trigger] usable_frames(rs)[i] < #[trigger] usable_frames(rs)[j],
    decreases rs.len(),
{
    if rs.len() > 0 {
        let rest = rs.drop_first();
        lemma_rest_wf(rs);
        assert(forall|i: int| 0 <= i < rest.len() ==> rest[i] == #[trigger] rs[i + 1]);
        lemma_usable_frames_increasing(rest);
        lemma_region_frames_props(rs[0]);
        assert(forall|i: int| 0 <= i < rest.len() ==> rs[0].end <= #[trigger] rest[i].start);
        lemma_usable_frames_lower_bound(rest, rs[0].end);
        if rs[0].kind == RegionKind::Usable {
            let pre = region_frames(rs[0]);
            let all = usable_frames(rs);
            assert forall|i: int, j: int| 0 <= i < j < all.len()
                implies #[trigger] all[i] < #[trigger] all[j] by {
                let p = PAGE_SIZE as int;
                if j < pre.len() {
                    assert(all[i] == pre[i] && all[j] == pre[j]);
                    assert(pre[i] == rs[0].start + p * i);
                    assert(pre[j] == rs[0].start + p * j);
                    assert(p * i < p * j) by (nonlinear_arith)
                        requires 0 <= i < j, p == 4096;
                } else if i < pre.len() {
                    assert(all[i] == pre[i]);
                    assert(all[j] == usable_frames(rest)[j - pre.len()]);
                    assert(pre[i] + PAGE_SIZE <= rs[0].end);
                    assert(rs[0].end <= usable_frames(rest)[j - pre.len()]);
                } else {
                    assert(all[i] == usable_frames(rest)[i - pre.len()]);
                    assert(all[j] == usable_frames(rest)[j - pre.len()]);
                }
            }
        } else {
            let all = usable_frames(rs);
            assert forall|i: int, j: int| 0 <= i < j < all.len()
                implies #[trigger] all[i] < #[trigger] all[j] by {
                assert(all[i] == usable_frames(rest)[i]);
                assert(all[j] == usable_frames(rest)[j]);
            }
        }
    }
}

/// Any two distinct positions in the usable-frame sequence of a
/// well-formed region list hold distinct frame addresses: a frame handed
/// out by one allocation is never handed out by another.
pub proof fn lemma_frame_uniqueness(rs: Seq<MemoryRegion>, i: int, j: int)
    requires
        regions_wf(rs),
        0 <= i < usable_frames(rs).len(),
        0 <= j < usable_frames(rs).len(),
        i != j,
    ensures
        usable_frames(rs)[i] != usable_frames(rs)[j],
{
    lemma_usable_frames_increasing(rs);
}

/// Every usable frame of a well-formed region list is page-aligned.
pub proof fn lemma_usable_frames_aligned(rs: Seq<MemoryRegion>)
    requires
        regions_wf(rs),
    ensures
        forall|k: int| 0 <= k < usable_frames(rs).len()
            ==> #[trigger] usable_frames(rs)[k] % PAGE_SIZE == 0,
    decreases rs.len(),
{
    if rs.len() > 0 {
        let rest = rs.drop_first();
        lemma_rest_wf(rs);
        lemma_usable_frames_aligned(rest);
        lemma_region_frames_props(rs[0]);
        if rs[0].kind == RegionKind::Usable {
            let pre = region_frames(rs[0]);
            assert forall|k: int| 0 <= k < usable_frames(rs).len()
                implies #[trigger] usable_frames(rs)[k] % PAGE_SIZE == 0 by {
                if k < pre.len() {
                    assert(usable_frames(rs)[k] == pre[k]);
                } else {
                    assert(usable_frames(rs)[k] == usable_frames(rest)[k - pre.len()]);
                }
            }
        } else {
            assert forall|k: int| 0 <= k < usable_frames(rs).len()
                implies #[trigger] usable_frames(rs)[k] % PAGE_SIZE == 0 by {
                assert(usable_frames(rs)[k] == usable_frames(rest)[k]);
            }
        }
    }
}

/// A stateful cursor over the usable frames of the bootloader's memory
/// map. Frames are handed out in ascending order and never reclaimed.
pub struct BootInfoFrameAllocator {
    regions: Vec<MemoryRegion>,
    next: usize,
}

impl BootInfoFrameAllocator {
    /// The allocator is usable while its region list is well-formed.
    pub closed spec fn wf(self) -> bool {
        regions_wf(self.regions@)
    }

    /// The full sequence of frames this allocator can ever hand out.
    pub closed spec fn frame_seq(self) -> Seq<u64> {
        usable_frames(self.regions@)
    }

    /// How many frames have been drawn so far.
    pub closed spec fn cursor(self) -> int {
        self.next as int
    }

    /// All frames a well-formed allocator hands out are page-aligned and
    /// pairwise distinct.
    pub proof fn lemma_frame_seq_props(self)
        requires
            self.wf(),
        ensures
            forall|k: int| 0 <= k < self.frame_seq().len()
                ==> (#[trigger] self.frame_seq()[k]) % PAGE_SIZE == 0,
            forall|i: int, j: int| 0 <= i < j < self.frame_seq().len()
                ==> #[trigger] self.frame_seq()[i] < #[trigger] self.frame_seq()[j],
    {
        lemma_usable_frames_aligned(self.regions@);
        lemma_usable_frames_increasing(self.regions@);
    }

    /// Builds an allocator over the bootloader's region list, with no
    /// frames drawn yet.
    pub fn new(regions: Vec<MemoryRegion>) -> (r: Self)
        requires
            regions_wf(regions@),
        ensures
            r.wf(),
            r.frame_seq() == usable_frames(regions@),
            r.cursor() == 0,
    {
        BootInfoFrameAllocator { regions, next: 0 }
    }

    /// Hands out the next usable frame, or nothing once the memory map is
    /// exhausted. Each successful call returns a frame no other call has
    /// returned or will return.
    pub fn allocate_frame(&mut self) -> (r: Option<u64>)
        requires
            old(self).wf(),
            old(self).cursor() < usize::MAX,
        ensures
            final(self).wf(),
            final(self).frame_seq() == old(self).frame_seq(),
            final(self).cursor() == old(self).cursor() + 1,
            r == (if old(self).cursor() < old(self).frame_seq().len() {
                Some(old(self).frame_seq()[old(self).cursor()])
            } else {
                None::<u64>
            }),
            r matches Some(f) ==> f % PAGE_SIZE == 0,
    {
        proof {
            lemma_usable_frames_aligned(self.regions@);
        }
        let frame = nth_usable_frame(&self.regions, self.next);
        self.next = self.next + 1;
        frame
    }
}

/// Walks the region list and returns the `n`-th usable frame, if the map
/// holds that many.
fn nth_usable_frame(regions: &Vec<MemoryRegion>, n: usize) -> (r: Option<u64>)
    requires
        regions_wf(regions@),
    ensures
        r == (if n < usable_frames(regions@).len() {
            Some(usable_frames(regions@)[n as int])
        } else {
            None::<u64>
        }),
{
    let mut i: usize = 0;
    let mut remaining: u64 = n as u64;
    while i < regions.len()
        invariant
            regions_wf(regions@),
            0 <= i <= regions.len(),
            remaining <= n as u64,
            usable_frames(regions@.take(i as int)).len() == n - remaining,
        decreases regions.len() - i,
    {
        let ghost prefix = regions@.take(i as int);
        let ghost suffix = regions@.skip(i as int);
        let r = regions[i];
        proof {
            assert(region_wf(regions@[i as int]));
            lemma_region_frames_props(r);
            assert(regions@ =~= prefix + suffix);
            lemma_usable_frames_concat(prefix, suffix);
            assert(suffix[0] == r);
            assert(regions@.take((i + 1) as int) =~= prefix.push(r));
            lemma_usable_frames_push(prefix, r);
        }
        if matches!(r.kind, RegionKind::Usable) {
            let cnt: u64 = (r.end - r.start) / PAGE_SIZE;
            proof {
                assert(region_frames(r).len() == cnt);
            }
            if remaining < cnt {
                proof {
                    let k = remaining as int;
                    assert(suffix.drop_first() =~= regions@.skip((i + 1) as int));
                    assert(usable_frames(suffix) == region_frames(r) + usable_frames(suffix.drop_first()));
                    assert(usable_frames(suffix)[k] == region_frames(r)[k]);
                    assert(region_frames(r)[k] == r.start + (PAGE_SIZE as int) * k);
                    assert(region_frames(r)[k] + PAGE_SIZE <= r.end);
                    assert(usable_frames(regions@)
                        == usable_frames(prefix) + usable_frames(suffix));
                    assert(usable_frames(regions@)[n as int] == usable_frames(suffix)[k]);
                }
                return Some(r.start + remaining * PAGE_SIZE);
            }
            remaining = remaining - cnt;
        }
        i = i + 1;
    }
    proof {
        assert(regions@.take(i as int) =~= regions@);
    }
    None
}

} // verus!
