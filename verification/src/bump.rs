//! The placement arithmetic of a bump allocator over linear memory that
//! grows in whole pages: it only moves a pointer forward and never frees.
use vstd::prelude::*;
use vstd::arithmetic::div_mod::lemma_fundamental_div_mod;

verus! {

/// The size of a page of linear memory.
pub const PAGE_SIZE: usize = 65536;

/// `a` is a power of two, as every layout's alignment is.
pub open spec fn is_power_of_two(a: usize) -> bool {
    a > 0 && a & ((a - 1) as usize) == 0
}

/// The pages that `bytes` more bytes take: their number rounded up, and at
/// least one.
pub open spec fn pages_for(bytes: int) -> int {
    let p = bytes / (PAGE_SIZE as int) + if bytes % (PAGE_SIZE as int) == 0 {
        0int
    } else {
        1int
    };
    if p < 1 {
        1
    } else {
        p
    }
}

/// `y` is aligned to the power of two `a`: no bit below `a` is set.
pub open spec fn is_aligned(y: usize, a: usize) -> bool {
    y & ((a - 1) as usize) == 0
}

/// `x` rounded up to a multiple of the power of two `a`: `x + a - 1` with
/// the bits below `a` cleared.
pub open spec fn align_up(x: usize, a: usize) -> usize {
    ((x + a - 1) as usize) & !((a - 1) as usize)
}

/// Rounding up gives an aligned value in `[x, x + a)`.
pub proof fn align_up_bounds(x: usize, a: usize)
    requires
        is_power_of_two(a),
        x + a - 1 <= usize::MAX,
    ensures
        is_aligned(align_up(x, a), a),
        x <= align_up(x, a) < x + a,
{
    let y = align_up(x, a);
    let t: usize = (x + a - 1) as usize;
    let m: usize = (a - 1) as usize;
    assert(y & m == 0 && y <= t && t - y <= m) by (bit_vector)
        requires
            y == t & !m,
    ;
}

/// The allocator's two pointers: the next free byte and the end of the
/// memory obtained so far. A `next` of zero means not started yet.
#[derive(Debug, Clone, Copy, PartialEq, Eq, Structural)]
pub struct BumpAllocator {
    pub next: usize,
    pub end: usize,
}

/// Where an allocation goes: its address, the next free byte after it,
/// and how many pages the memory must first grow by (zero if it fits).
#[derive(Debug, Clone, Copy, PartialEq, Eq, Structural)]
pub struct Placement {
    pub addr: usize,
    pub new_next: usize,
    pub grow_pages: usize,
}

impl BumpAllocator {
    /// The free byte never lies past the end of the memory obtained.
    pub open spec fn inv(self) -> bool {
        self.next <= self.end
    }

    /// The allocator after its first use, which starts both pointers at
    /// the heap's base.
    pub open spec fn started(self, heap_base: usize) -> BumpAllocator {
        if self.next == 0 {
            BumpAllocator { next: heap_base, end: heap_base }
        } else {
            self
        }
    }

    /// The placement of `size` bytes aligned to `align`: at the first
    /// multiple of `align` from the free byte, growing the memory by the
    /// pages that the part past its end takes.
    pub open spec fn spec_place(self, heap_base: usize, size: usize, align: usize) -> Placement {
        let s = self.started(heap_base);
        let addr = align_up(s.next, align);
        let new_next = addr + size;
        Placement {
            addr: addr,
            new_next: new_next as usize,
            grow_pages: if new_next > s.end {
                pages_for(new_next - s.end) as usize
            } else {
                0
            },
        }
    }

    /// The placement's arithmetic stays within `usize`: the alignment is a
    /// power of two, and neither rounding up nor adding the size overflows.
    pub open spec fn can_place(self, heap_base: usize, size: usize, align: usize) -> bool {
        let s = self.started(heap_base);
        &&& is_power_of_two(align)
        &&& s.next + align - 1 <= usize::MAX
        &&& align_up(s.next, align) + size <= usize::MAX
    }

    /// The placement fits the allocator: it starts at or after the free
    /// byte, and ends within the memory once grown by its pages.
    pub open spec fn fits(self, p: Placement) -> bool {
        &&& self.next <= p.addr <= p.new_next
        &&& p.grow_pages == 0 ==> p.new_next <= self.end
        &&& p.grow_pages > 0 ==> p.new_next <= self.end + p.grow_pages * PAGE_SIZE
    }

    /// The allocator and the address handed out after the memory was asked
    /// to grow (when needed) and `grown` says whether it did: on a refused
    /// growth nothing changes and nothing is handed out.
    pub open spec fn spec_commit(self, p: Placement, grown: bool) -> (BumpAllocator, Option<usize>) {
        if p.grow_pages > 0 && !grown {
            (self, None)
        } else {
            (
                BumpAllocator {
                    next: p.new_next,
                    end: (self.end + p.grow_pages * PAGE_SIZE) as usize,
                },
                Some(p.addr),
            )
        }
    }

    /// A fresh allocator, not started.
    pub fn new() -> (b: BumpAllocator)
        ensures
            b == (BumpAllocator { next: 0, end: 0 }),
            b.inv(),
    {
        BumpAllocator { next: 0, end: 0 }
    }

    /// Starts the allocator on first use and places `size` bytes aligned to
    /// `align`.
    pub fn place(&mut self, heap_base: usize, size: usize, align: usize) -> (p: Placement)
        requires
            old(self).inv(),
            old(self).can_place(heap_base, size, align),
        ensures
            *final(self) == old(self).started(heap_base),
            final(self).inv(),
            p == old(self).spec_place(heap_base, size, align),
            is_aligned(p.addr, align),
            final(self).next <= p.addr < final(self).next + align,
            p.new_next == p.addr + size,
            final(self).fits(p),
    {
        if self.next == 0 {
            self.next = heap_base;
            self.end = heap_base;
        }
        let mask: usize = align - 1;
        let aligned: usize = (self.next + mask) & !mask;
        proof {
            align_up_bounds(self.next, align);
        }
        let new_next: usize = aligned + size;
        let mut pages: usize = 0;
        if new_next > self.end {
            let needed: usize = new_next - self.end;
            pages = needed / PAGE_SIZE;
            if needed % PAGE_SIZE != 0 {
                pages = pages + 1;
            }
            if pages < 1 {
                pages = 1;
            }
            proof {
                lemma_fundamental_div_mod(needed as int, PAGE_SIZE as int);
            }
            assert(pages * PAGE_SIZE >= needed);
        }
        Placement { addr: aligned, new_next, grow_pages: pages }
    }

    /// Takes a placement once the memory was asked to grow by its pages (if
    /// any), `grown` saying whether it did: hands out the address and moves
    /// the free byte past it, or hands out nothing if the growth was refused.
    pub fn commit(&mut self, p: Placement, grown: bool) -> (addr: Option<usize>)
        requires
            old(self).inv(),
            old(self).fits(p),
            p.grow_pages > 0 && grown ==> old(self).end + p.grow_pages * PAGE_SIZE <= usize::MAX,
        ensures
            (*final(self), addr) == old(self).spec_commit(p, grown),
            final(self).inv(),
    {
        if p.grow_pages > 0 {
            if !grown {
                return None;
            }
            self.end = self.end + p.grow_pages * PAGE_SIZE;
        }
        self.next = p.new_next;
        Some(p.addr)
    }
}

/// After an allocation of `size1` bytes succeeds at `a1`, the address is
/// aligned and at or after the free byte, the free byte moves to
/// `a1 + size1`, and whatever is placed next lies at or after it:
/// allocations never overlap. Where the grown end fits in `usize`, the end
/// only moves forward and the block lies within the memory obtained. (The
/// heap's base is not zero, as `next` being zero marks an allocator not yet
/// started.)
pub proof fn allocations_never_overlap(
    st: BumpAllocator,
    heap_base: usize,
    size1: usize,
    align1: usize,
    grown: bool,
    size2: usize,
    align2: usize,
)
    requires
        st.inv(),
        heap_base > 0,
        st.can_place(heap_base, size1, align1),
        ({
            let s1 = st.started(heap_base).spec_commit(st.spec_place(heap_base, size1, align1), grown).0;
            s1.can_place(heap_base, size2, align2)
        }),
    ensures
        ({
            let s = st.started(heap_base);
            let p1 = st.spec_place(heap_base, size1, align1);
            let (s1, r1) = s.spec_commit(p1, grown);
            let end_fits = s.end + p1.grow_pages * PAGE_SIZE <= usize::MAX;
            &&& s1.next >= s.next
            &&& (r1 matches Some(a1) ==> {
                &&& is_aligned(a1, align1)
                &&& s.next <= a1
                &&& s1.next == a1 + size1
                &&& s1.spec_place(heap_base, size2, align2).addr >= a1 + size1
            })
            &&& (end_fits ==> s1.end >= s.end && s1.inv())
            &&& (end_fits ==> (r1 matches Some(a1) ==> a1 + size1 <= s1.end))
        }),
{
    let s = st.started(heap_base);
    let p1 = st.spec_place(heap_base, size1, align1);
    align_up_bounds(s.next, align1);
    let (s1, r1) = s.spec_commit(p1, grown);
    if r1 is Some {
        assert(s1.next > 0);
        assert(s1.started(heap_base) == s1);
        align_up_bounds(s1.next, align2);
        if p1.grow_pages > 0 {
            assert(p1.new_next <= s.end + p1.grow_pages * PAGE_SIZE) by {
                let needed = p1.new_next - s.end;
                lemma_fundamental_div_mod(needed, PAGE_SIZE as int);
            }
        }
    }
}

/// Growing by `pages_for(bytes)` pages makes room for `bytes` more bytes,
/// and one page fewer would not (except that at least one page is asked
/// for).
pub proof fn pages_for_is_least_cover(bytes: int)
    requires
        bytes > 0,
    ensures
        pages_for(bytes) >= 1,
        pages_for(bytes) * PAGE_SIZE >= bytes,
        (pages_for(bytes) - 1) * PAGE_SIZE < bytes,
{
    lemma_fundamental_div_mod(bytes, PAGE_SIZE as int);
}

/// A placement starts at the first aligned address from the free byte
/// (after starting the allocator), ends `size` bytes later, and asks the
/// memory to grow exactly when it ends past the memory obtained.
pub proof fn placement_is_first_fit(st: BumpAllocator, heap_base: usize, size: usize, align: usize)
    requires
        st.can_place(heap_base, size, align),
    ensures
        ({
            let s = st.started(heap_base);
            let p = st.spec_place(heap_base, size, align);
            &&& is_aligned(p.addr, align)
            &&& s.next <= p.addr < s.next + align
            &&& forall|y: usize| s.next <= y < p.addr ==> !is_aligned(y, align)
            &&& p.new_next == p.addr + size
            &&& (p.grow_pages > 0 <==> p.new_next > s.end)
            &&& p.grow_pages > 0 ==> p.grow_pages == pages_for(p.new_next - s.end)
        }),
{
    let s = st.started(heap_base);
    let p = st.spec_place(heap_base, size, align);
    align_up_bounds(s.next, align);
    assert forall|y: usize| s.next <= y < p.addr implies !is_aligned(y, align) by {
        let x = s.next;
        let a = align;
        let t: usize = (x + a - 1) as usize;
        let m: usize = (a - 1) as usize;
        let z = p.addr;
        assert(z == t & !m);
        assert(!(y & m == 0)) by (bit_vector)
            requires
                a > 0,
                a & m == 0,
                m == a - 1,
                t == x + m,
                z == t & !m,
                x <= y,
                y < z,
        ;
    }
    if p.new_next > s.end {
        pages_for_is_least_cover(p.new_next - s.end);
    }
}

/// A placement that needs more memory hands out nothing and changes
/// nothing when the memory did not grow; one that fits hands out its
/// address and moves the free byte past the block, whatever the memory
/// did, leaving the end where it was.
pub proof fn commit_hands_out_only_what_fits(st: BumpAllocator, p: Placement, grown: bool)
    ensures
        p.grow_pages > 0 && !grown ==> st.spec_commit(p, grown) == (st, None::<usize>),
        p.grow_pages == 0 ==> st.spec_commit(p, grown) == (
            BumpAllocator { next: p.new_next, end: st.end },
            Some(p.addr),
        ),
        p.grow_pages > 0 && grown ==> st.spec_commit(p, grown).1 == Some(p.addr)
            && st.spec_commit(p, grown).0.next == p.new_next,
{
}

} // verus!
