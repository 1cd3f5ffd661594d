//! A bump allocator over one fixed memory region that serves two kinds of
//! request from opposite ends: byte allocations grow forward from the start,
//! page allocations grow backward from the end.
//!
//! ```text
//! [ bytes-used | avail-area | pages-used ]
//! |            | -->    <-- |            |
//! start       b_pos        p_pos       end
//! ```
//!
//! The byte area counts its outstanding allocations and is reclaimed as a
//! whole when the count returns to zero. Pages are never given back.

use vstd::prelude::*;

verus! {

/// Why an allocation was refused.
#[derive(Clone, Copy, Debug, PartialEq, Eq, Structural)]
pub enum AllocError {
    /// The gap between the two cursors is smaller than the request.
    NoMemory,
}

/// The mathematical state of an allocator: the region's bounds, the two
/// cursors, and the number of byte allocations that are outstanding.
pub struct Region {
    pub start: nat,
    pub end: nat,
    pub b_pos: nat,
    pub p_pos: nat,
    pub count: nat,
}

impl Region {
    /// The cursors lie inside the region and have not crossed.
    pub open spec fn wf(self) -> bool {
        self.start <= self.b_pos <= self.p_pos <= self.end
    }

    /// The region `[start, start + size)` with nothing allocated.
    pub open spec fn fresh(start: nat, size: nat) -> Region {
        Region { start, end: start + size, b_pos: start, p_pos: start + size, count: 0 }
    }

    pub open spec fn total_bytes(self) -> int {
        self.end - self.start
    }

    pub open spec fn used_bytes(self) -> int {
        self.b_pos - self.start
    }

    pub open spec fn available_bytes(self) -> int {
        self.p_pos - self.b_pos
    }

    /// A byte allocation of `size` succeeds exactly when it fits in the gap.
    pub open spec fn fits(self, size: nat) -> bool {
        self.b_pos + size <= self.p_pos
    }

    /// The state after a successful byte allocation of `size`.
    pub open spec fn after_alloc(self, size: nat) -> Region {
        Region { b_pos: self.b_pos + size, count: self.count + 1, ..self }
    }

    /// The state after giving back `size` bytes. The last outstanding
    /// allocation takes the whole byte area with it, whatever its size.
    pub open spec fn after_dealloc(self, size: nat) -> Region {
        if self.count == 1 {
            Region { b_pos: self.start, count: 0, ..self }
        } else {
            Region { b_pos: (self.b_pos - size) as nat, count: (self.count - 1) as nat, ..self }
        }
    }

    /// What a caller owes when giving back `size` bytes: something is
    /// outstanding, and unless this is the last block, no more comes back
    /// than is in use.
    pub open spec fn can_dealloc(self, size: nat) -> bool {
        &&& self.count >= 1
        &&& self.count > 1 ==> size <= self.used_bytes()
    }

    /// A page allocation succeeds exactly when its bytes fit in the gap.
    pub open spec fn fits_pages(self, num_pages: nat, page_size: nat) -> bool {
        num_pages * page_size <= self.p_pos - self.b_pos
    }

    /// The state after a successful allocation of `num_pages` pages.
    pub open spec fn after_alloc_pages(self, num_pages: nat, page_size: nat) -> Region {
        Region { p_pos: (self.p_pos - num_pages * page_size) as nat, ..self }
    }
}

/// Early memory allocator, for use before the formal byte and page
/// allocators can work.
pub struct EarlyAllocator<const PAGE_SIZE: usize> {
    start: usize,
    end: usize,
    b_pos: usize,
    p_pos: usize,
    count: usize,
}

impl<const PAGE_SIZE: usize> View for EarlyAllocator<PAGE_SIZE> {
    type V = Region;

    closed spec fn view(&self) -> Region {
        Region {
            start: self.start as nat,
            end: self.end as nat,
            b_pos: self.b_pos as nat,
            p_pos: self.p_pos as nat,
            count: self.count as nat,
        }
    }
}

impl<const PAGE_SIZE: usize> EarlyAllocator<PAGE_SIZE> {
    #[verifier::type_invariant]
    spec fn inv(self) -> bool {
        self.start <= self.b_pos <= self.p_pos <= self.end
    }

    /// An allocator over the empty region at address zero.
    pub fn new() -> (a: Self)
        ensures
            a@ == Region::fresh(0, 0),
    {
        Self { start: 0, end: 0, b_pos: 0, p_pos: 0, count: 0 }
    }

    /// Takes over the region `[start, start + size)`, forgetting whatever
    /// was allocated before.
    pub fn init(&mut self, start: usize, size: usize)
        requires
            start + size <= usize::MAX,
        ensures
            final(self)@.wf(),
            final(self)@ == Region::fresh(start as nat, size as nat),
    {
        *self = Self { start, end: start + size, b_pos: start, p_pos: start + size, count: 0 };
    }

    /// Allocates `size` bytes at the byte cursor. The alignment is accepted
    /// and not applied.
    ///
    /// A request that does not fit is refused whatever the state. One that
    /// fits is counted, so the count must have room for it.
    pub fn alloc_bytes(&mut self, size: usize, _align: usize) -> (r: Result<usize, AllocError>)
        requires
            old(self)@.fits(size as nat) ==> old(self)@.count < usize::MAX,
        ensures
            final(self)@.wf(),
            old(self)@.fits(size as nat) ==> {
                &&& r matches Ok(ptr) && ptr == old(self)@.b_pos
                &&& final(self)@ == old(self)@.after_alloc(size as nat)
            },
            !old(self)@.fits(size as nat) ==> {
                &&& r == Err::<usize, AllocError>(AllocError::NoMemory)
                &&& final(self)@ == old(self)@
            },
    {
        proof {
            use_type_invariant(&*self);
        }
        if size > self.p_pos - self.b_pos {
            return Err(AllocError::NoMemory);
        }
        let ptr = self.b_pos;
        self.b_pos += size;
        self.count += 1;
        Ok(ptr)
    }

    /// Gives back `size` bytes from the end of the byte area. When this was
    /// the last outstanding allocation the byte cursor returns to the start
    /// of the region.
    ///
    /// The allocator does not check that blocks come back in the reverse of
    /// the order in which they were handed out.
    pub fn dealloc(&mut self, _ptr: usize, size: usize)
        requires
            old(self)@.can_dealloc(size as nat),
        ensures
            final(self)@.wf(),
            final(self)@ == old(self)@.after_dealloc(size as nat),
    {
        proof {
            use_type_invariant(&*self);
        }
        if self.count == 1 {
            self.b_pos = self.start;
            self.count = 0;
        } else {
            self.b_pos -= size;
            self.count -= 1;
        }
    }

    /// The address at which the next byte allocation begins.
    pub fn byte_cursor(&self) -> (pos: usize)
        ensures
            self@.wf(),
            pos == self@.b_pos,
    {
        proof {
            use_type_invariant(self);
        }
        self.b_pos
    }

    /// The address at which the lowest allocated page begins.
    pub fn page_cursor(&self) -> (pos: usize)
        ensures
            self@.wf(),
            pos == self@.p_pos,
    {
        proof {
            use_type_invariant(self);
        }
        self.p_pos
    }

    /// The number of byte allocations that have not been given back.
    pub fn outstanding(&self) -> (n: usize)
        ensures
            self@.wf(),
            n == self@.count,
    {
        proof {
            use_type_invariant(self);
        }
        self.count
    }

    /// The length of the region.
    pub fn total_bytes(&self) -> (n: usize)
        ensures
            self@.wf(),
            n == self@.total_bytes(),
    {
        proof {
            use_type_invariant(self);
        }
        self.end - self.start
    }

    /// The length of the byte area.
    pub fn used_bytes(&self) -> (n: usize)
        ensures
            self@.wf(),
            n == self@.used_bytes(),
    {
        proof {
            use_type_invariant(self);
        }
        self.b_pos - self.start
    }

    /// The length of the gap between the byte area and the pages.
    pub fn available_bytes(&self) -> (n: usize)
        ensures
            self@.wf(),
            n == self@.available_bytes(),
    {
        proof {
            use_type_invariant(self);
        }
        self.p_pos - self.b_pos
    }

    /// Allocates `num_pages` whole pages below the page cursor and returns
    /// their base address. The alignment is accepted and not applied: the
    /// cursor moves in steps of `PAGE_SIZE` and no finer promise is made.
    pub fn alloc_pages(&mut self, num_pages: usize, _align_pow2: usize) -> (r: Result<usize, AllocError>)
        ensures
            final(self)@.wf(),
            old(self)@.fits_pages(num_pages as nat, PAGE_SIZE as nat) ==> {
                &&& r matches Ok(base) && base == old(self)@.p_pos - num_pages * PAGE_SIZE
                &&& final(self)@ == old(self)@.after_alloc_pages(num_pages as nat, PAGE_SIZE as nat)
            },
            !old(self)@.fits_pages(num_pages as nat, PAGE_SIZE as nat) ==> {
                &&& r == Err::<usize, AllocError>(AllocError::NoMemory)
                &&& final(self)@ == old(self)@
            },
    {
        proof {
            use_type_invariant(&*self);
        }
        match num_pages.checked_mul(PAGE_SIZE) {
            Some(size) => {
                if size > self.p_pos - self.b_pos {
                    return Err(AllocError::NoMemory);
                }
                self.p_pos -= size;
                Ok(self.p_pos)
            },
            None => Err(AllocError::NoMemory),
        }
    }

    /// The number of whole pages in the region.
    pub fn total_pages(&self) -> (n: usize)
        requires
            PAGE_SIZE > 0,
        ensures
            self@.wf(),
            n == self@.total_bytes() / (PAGE_SIZE as int),
    {
        proof {
            use_type_invariant(self);
        }
        (self.end - self.start) / PAGE_SIZE
    }

    /// The number of whole pages between the page cursor and the end.
    pub fn used_pages(&self) -> (n: usize)
        requires
            PAGE_SIZE > 0,
        ensures
            self@.wf(),
            n == (self@.end - self@.p_pos) / (PAGE_SIZE as int),
    {
        proof {
            use_type_invariant(self);
        }
        (self.end - self.p_pos) / PAGE_SIZE
    }

    /// The number of whole pages that fit in the gap between the cursors.
    pub fn available_pages(&self) -> (n: usize)
        requires
            PAGE_SIZE > 0,
        ensures
            self@.wf(),
            n == self@.available_bytes() / (PAGE_SIZE as int),
    {
        proof {
            use_type_invariant(self);
        }
        (self.p_pos - self.b_pos) / PAGE_SIZE
    }
}

/// One request to the byte area, as a caller that keeps stack discipline
/// makes it: an allocation of some size, or the return of the newest block
/// that is still outstanding.
pub enum ByteOp {
    Alloc(nat),
    Dealloc,
}

/// The sum of a list of block sizes.
pub open spec fn total_size(sizes: Seq<nat>) -> nat
    decreases sizes.len(),
{
    if sizes.len() == 0 {
        0
    } else {
        total_size(sizes.drop_last()) + sizes.last()
    }
}

impl Region {
    /// The allocator's books agree with `live`, the sizes of the
    /// outstanding byte allocations, oldest first.
    pub open spec fn accounts_for(self, live: Seq<nat>) -> bool {
        &&& self.wf()
        &&& self.count == live.len()
        &&& self.used_bytes() == total_size(live)
    }

    /// One step of a caller that keeps stack discipline. An allocation that
    /// does not fit is refused and changes nothing; a return with nothing
    /// outstanding is not made.
    pub open spec fn lifo_step(self, live: Seq<nat>, op: ByteOp) -> (Region, Seq<nat>) {
        match op {
            ByteOp::Alloc(size) => if self.fits(size) {
                (self.after_alloc(size), live.push(size))
            } else {
                (self, live)
            },
            ByteOp::Dealloc => if live.len() > 0 {
                (self.after_dealloc(live.last()), live.drop_last())
            } else {
                (self, live)
            },
        }
    }

    /// The steps of `ops`, taken in order.
    pub open spec fn lifo_run(self, live: Seq<nat>, ops: Seq<ByteOp>) -> (Region, Seq<nat>)
        decreases ops.len(),
    {
        if ops.len() == 0 {
            (self, live)
        } else {
            let (before, outstanding) = self.lifo_run(live, ops.drop_last());
            before.lifo_step(outstanding, ops.last())
        }
    }
}

/// In a well-formed region the bytes in use and the bytes available add up
/// to the distance from the region's start to the page cursor, and the
/// total is the region's length.
pub proof fn lemma_byte_accounting(r: Region)
    requires
        r.wf(),
    ensures
        r.used_bytes() + r.available_bytes() == r.p_pos - r.start,
        r.total_bytes() == r.end - r.start,
        0 <= r.used_bytes() <= r.total_bytes(),
        0 <= r.available_bytes() <= r.total_bytes(),
{
}

/// A step under stack discipline keeps the books: the bytes in use stay the
/// sum of the outstanding sizes, and the count stays their number. The page
/// cursor and the bounds do not move. The newest outstanding block can
/// always be given back.
pub proof fn lemma_lifo_step(r: Region, live: Seq<nat>, op: ByteOp)
    requires
        r.accounts_for(live),
    ensures
        live.len() > 0 ==> r.can_dealloc(live.last()),
        r.lifo_step(live, op).0.accounts_for(r.lifo_step(live, op).1),
        r.lifo_step(live, op).0.p_pos == r.p_pos,
        r.lifo_step(live, op).0.start == r.start,
        r.lifo_step(live, op).0.end == r.end,
{
    match op {
        ByteOp::Alloc(size) => {
            if r.fits(size) {
                assert(live.push(size).drop_last() =~= live);
            }
        },
        ByteOp::Dealloc => {},
    }
}

/// Through any sequence of allocations and returns made in stack order,
/// starting with nothing outstanding, the bytes in use equal the sum of the
/// sizes still outstanding. Once every block has come back, no byte is in
/// use and the byte cursor is at the start of the region again.
pub proof fn lemma_lifo_run(r: Region, ops: Seq<ByteOp>)
    requires
        r.wf(),
        r.count == 0,
        r.b_pos == r.start,
    ensures
        ({
            let (after, live) = r.lifo_run(Seq::empty(), ops);
            &&& after.accounts_for(live)
            &&& after.p_pos == r.p_pos
            &&& after.start == r.start
            &&& after.end == r.end
            &&& live.len() == 0 ==> after.used_bytes() == 0 && after.b_pos == after.start
        }),
    decreases ops.len(),
{
    if ops.len() > 0 {
        lemma_lifo_run(r, ops.drop_last());
        let (before, outstanding) = r.lifo_run(Seq::empty(), ops.drop_last());
        lemma_lifo_step(before, outstanding, ops.last());
    }
}

/// Page allocations come out at strictly falling addresses: a successful
/// allocation of at least one page, made at any later time, lies wholly
/// below the pages of an earlier one and wholly above the byte area.
///
/// `later` is the allocator at the time of the second call. Its page cursor
/// is where the first call left it, because byte operations do not move it.
pub proof fn lemma_pages_descend(
    earlier: Region,
    first_pages: nat,
    later: Region,
    second_pages: nat,
    page_size: nat,
)
    requires
        earlier.wf(),
        later.wf(),
        page_size > 0,
        second_pages > 0,
        earlier.fits_pages(first_pages, page_size),
        later.p_pos == earlier.after_alloc_pages(first_pages, page_size).p_pos,
        later.fits_pages(second_pages, page_size),
    ensures
        ({
            let first = earlier.p_pos - first_pages * page_size;
            let second = later.p_pos - second_pages * page_size;
            &&& second < first
            &&& second + second_pages * page_size <= first
            &&& later.b_pos <= second
            &&& later.after_alloc_pages(second_pages, page_size).p_pos == second
        }),
{
    assert(second_pages * page_size >= 1) by (nonlinear_arith)
        requires
            second_pages >= 1,
            page_size >= 1,
    ;
    assert(first_pages * page_size >= 0) by (nonlinear_arith);
}

} // verus!
