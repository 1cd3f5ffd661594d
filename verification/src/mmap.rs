//! The `mmap` system call as a sequence of decisions.
//!
//! Mapping a file touches the calling task's address space and the file
//! behind a descriptor. Neither lives here. This module decides what is to
//! be done next and what the call returns; its caller performs each
//! [`MmapAction`] and reports the outcome as an [`MmapEvent`]:
//!
//! 1. lock the address space of the calling task;
//! 2. find a free range of whole pages, at or after the biased hint;
//! 3. commit a mapping there, populated at once;
//! 4. resolve the descriptor;
//! 5. read up to `length` bytes into a zeroed buffer of `length` bytes;
//! 6. write the buffer into the mapping;
//! 7. release the lock and return.
//!
//! The first failure ends the call. Nothing is undone: a mapping that was
//! committed before the failure stays committed.

#![allow(unused_imports)]

use crate::addr::{
    align_down_4k, align_up_4k, lemma_page_bounds, page_ceil, page_floor, range_from_start_size,
};
use crate::errno::{return_value, syscall_return, SysError};
use crate::mman::{MappingFlags, MmapFlags, MmapProt};
use vstd::prelude::*;
use vstd::std_specs::convert::FromSpec;

verus! {

/// How far above the hint the search for a free range begins.
pub const MMAP_HINT_BIAS: usize = 0x10_0000;

/// The arguments of one `mmap` call.
#[derive(Clone, Copy, Debug, PartialEq, Eq, Structural)]
pub struct MmapRequest {
    /// Where the caller would like the mapping. A hint only.
    pub addr: usize,
    /// The number of bytes to map.
    pub length: usize,
    /// Protection bits, see [`MmapProt`].
    pub prot: i32,
    /// Mapping bits, see [`MmapFlags`]. Decoded, and not acted on.
    pub flags: i32,
    /// The descriptor of the file that fills the mapping.
    pub fd: i32,
    /// Accepted, and not used.
    pub offset: isize,
}

impl MmapRequest {
    /// The page arithmetic on the hint and on the length stays within the
    /// machine's addresses: the hint leaves room for the bias, and the
    /// length for one more page.
    pub open spec fn in_range(self) -> bool {
        &&& self.addr + MMAP_HINT_BIAS <= usize::MAX
        &&& self.length + 4096 <= usize::MAX
    }

    /// Where the search for a free range begins: the page of the hint
    /// moved up by the bias.
    pub open spec fn search_start(self) -> int {
        page_floor(self.addr + MMAP_HINT_BIAS)
    }

    /// The size of the mapping: the length rounded up to whole pages.
    pub open spec fn map_size(self) -> int {
        page_ceil(self.length as int)
    }

    /// The permissions of the mapping: what the protection bits ask for,
    /// and access from user mode.
    pub open spec fn spec_permissions(&self) -> MappingFlags {
        MappingFlags::from_spec(MmapProt::decode(self.prot))
    }

    /// The mapping bits of the request as a set.
    pub open spec fn spec_mapping(&self) -> MmapFlags {
        MmapFlags::decode(self.flags)
    }

    /// The permissions of the mapping: what the protection bits ask for,
    /// and access from user mode.
    #[verifier::when_used_as_spec(spec_permissions)]
    pub fn permissions(&self) -> (flags: MappingFlags)
        ensures
            flags == self.permissions(),
    {
        MappingFlags::from(MmapProt::from_bits_truncate(self.prot))
    }

    /// The mapping bits of the request as a set.
    #[verifier::when_used_as_spec(spec_mapping)]
    pub fn mapping(&self) -> (flags: MmapFlags)
        ensures
            flags == self.mapping(),
    {
        MmapFlags::from_bits_truncate(self.flags)
    }

    /// Tests [`Self::in_range`].
    pub fn is_in_range(&self) -> (ok: bool)
        ensures
            ok == self.in_range(),
    {
        self.addr <= usize::MAX - MMAP_HINT_BIAS && self.length <= usize::MAX - 4096
    }
}

/// Where a call stands. A stage from `Committing` on carries the address
/// that the search found.
#[derive(Clone, Copy, Debug, PartialEq, Eq, Structural)]
pub enum MmapStage {
    Locking,
    Searching,
    Committing { start: usize },
    Resolving { start: usize },
    Reading { start: usize },
    Writing { start: usize },
    Done,
}

/// What the caller is to do next.
#[derive(Debug, PartialEq, Eq)]
pub enum MmapAction {
    /// Lock the address space of the calling task and report its bounds.
    Lock,
    /// Find the lowest free range of `size` bytes at or after `hint`,
    /// inside `[limit_start, limit_end)`.
    FindFreeArea { hint: usize, size: usize, limit_start: usize, limit_end: usize },
    /// Commit a mapping of `size` bytes at `start`.
    MapAlloc { start: usize, size: usize, flags: MappingFlags, populate: bool },
    /// Resolve the descriptor to a file.
    ResolveFd { fd: i32 },
    /// Read from the file into `buf`, once, and hand the buffer back.
    Read { buf: Vec<u8> },
    /// Write `data` into the mapping at `start`.
    Write { start: usize, data: Vec<u8> },
    /// Release the lock and return `value` to user space.
    Return { value: isize },
}

/// An [`MmapAction`] with its bytes as a sequence.
pub enum ActionView {
    Lock,
    FindFreeArea { hint: usize, size: usize, limit_start: usize, limit_end: usize },
    MapAlloc { start: usize, size: usize, flags: MappingFlags, populate: bool },
    ResolveFd { fd: i32 },
    Read { buf: Seq<u8> },
    Write { start: usize, data: Seq<u8> },
    Return { value: isize },
}

impl View for MmapAction {
    type V = ActionView;

    open spec fn view(&self) -> ActionView {
        match *self {
            MmapAction::Lock => ActionView::Lock,
            MmapAction::FindFreeArea { hint, size, limit_start, limit_end } => ActionView::FindFreeArea {
                hint,
                size,
                limit_start,
                limit_end,
            },
            MmapAction::MapAlloc { start, size, flags, populate } => ActionView::MapAlloc {
                start,
                size,
                flags,
                populate,
            },
            MmapAction::ResolveFd { fd } => ActionView::ResolveFd { fd },
            MmapAction::Read { buf } => ActionView::Read { buf: buf@ },
            MmapAction::Write { start, data } => ActionView::Write { start, data: data@ },
            MmapAction::Return { value } => ActionView::Return { value },
        }
    }
}

/// How an action came out.
#[derive(Debug, PartialEq, Eq)]
pub enum MmapEvent {
    /// The address space is locked; it spans `[base, base + size)`, which
    /// must not reach beyond the last address.
    Locked { base: usize, size: usize },
    /// The search found the range that begins at `start`, or none.
    AreaFound { start: Option<usize> },
    /// The mapping was committed, or was not.
    Mapped { ok: bool },
    /// The descriptor named a file, or did not.
    Resolved { ok: bool },
    /// The read left `buf` as it is now, or failed.
    ReadDone { buf: Option<Vec<u8>> },
    /// The bytes were written into the mapping, or were not.
    Written { ok: bool },
}

/// An [`MmapEvent`] with its bytes as a sequence.
pub enum EventView {
    Locked { base: usize, size: usize },
    AreaFound { start: Option<usize> },
    Mapped { ok: bool },
    Resolved { ok: bool },
    ReadDone { buf: Option<Seq<u8>> },
    Written { ok: bool },
}

impl View for MmapEvent {
    type V = EventView;

    open spec fn view(&self) -> EventView {
        match *self {
            MmapEvent::Locked { base, size } => EventView::Locked { base, size },
            MmapEvent::AreaFound { start } => EventView::AreaFound { start },
            MmapEvent::Mapped { ok } => EventView::Mapped { ok },
            MmapEvent::Resolved { ok } => EventView::Resolved { ok },
            MmapEvent::ReadDone { buf } => EventView::ReadDone {
                buf: match buf {
                    Some(bytes) => Some(bytes@),
                    None => None,
                },
            },
            MmapEvent::Written { ok } => EventView::Written { ok },
        }
    }
}

/// `len` zero bytes.
pub open spec fn zeros(len: nat) -> Seq<u8> {
    Seq::new(len, |i: int| 0u8)
}

/// The action that ends a call with an error.
pub open spec fn fail(e: SysError) -> ActionView {
    ActionView::Return { value: return_value(Err(e)) as isize }
}

impl MmapStage {
    /// The one kind of event that each stage waits for. A finished call
    /// waits for none. An address space must end within the machine's
    /// addresses.
    pub open spec fn expects(self, event: EventView) -> bool {
        match self {
            MmapStage::Locking => event matches EventView::Locked { base, size } && base + size
                <= usize::MAX,
            MmapStage::Searching => event is AreaFound,
            MmapStage::Committing { .. } => event is Mapped,
            MmapStage::Resolving { .. } => event is Resolved,
            MmapStage::Reading { .. } => event is ReadDone,
            MmapStage::Writing { .. } => event is Written,
            MmapStage::Done => false,
        }
    }

    /// The stage that follows, and the action to take, when `event` arrives
    /// at this stage of the call for `req`. It has a meaning only for an
    /// event that the stage [expects](Self::expects).
    pub open spec fn transition(self, req: MmapRequest, event: EventView) -> (MmapStage, ActionView) {
        match (self, event) {
            (MmapStage::Locking, EventView::Locked { base, size }) => (
                MmapStage::Searching,
                ActionView::FindFreeArea {
                    hint: req.search_start() as usize,
                    size: req.map_size() as usize,
                    limit_start: base,
                    limit_end: (base + size) as usize,
                },
            ),
            (MmapStage::Searching, EventView::AreaFound { start: Some(start) }) => (
                MmapStage::Committing { start },
                ActionView::MapAlloc {
                    start,
                    size: req.map_size() as usize,
                    flags: req.permissions(),
                    populate: true,
                },
            ),
            (MmapStage::Searching, EventView::AreaFound { start: None }) => (
                MmapStage::Done,
                fail(SysError::NoMemory),
            ),
            (MmapStage::Committing { start }, EventView::Mapped { ok: true }) => (
                MmapStage::Resolving { start },
                ActionView::ResolveFd { fd: req.fd },
            ),
            (MmapStage::Committing { start }, EventView::Mapped { ok: false }) => (
                MmapStage::Done,
                fail(SysError::NoMemory),
            ),
            (MmapStage::Resolving { start }, EventView::Resolved { ok: true }) => (
                MmapStage::Reading { start },
                ActionView::Read { buf: zeros(req.length as nat) },
            ),
            (MmapStage::Resolving { start }, EventView::Resolved { ok: false }) => (
                MmapStage::Done,
                fail(SysError::InvalidDescriptor),
            ),
            (MmapStage::Reading { start }, EventView::ReadDone { buf: Some(data) }) => (
                MmapStage::Writing { start },
                ActionView::Write { start, data },
            ),
            (MmapStage::Reading { start }, EventView::ReadDone { buf: None }) => (
                MmapStage::Done,
                fail(SysError::IoFailure),
            ),
            (MmapStage::Writing { start }, EventView::Written { ok: true }) => (
                MmapStage::Done,
                ActionView::Return { value: return_value(Ok(start)) as isize },
            ),
            (MmapStage::Writing { start }, EventView::Written { ok: false }) => (
                MmapStage::Done,
                fail(SysError::IoFailure),
            ),
            _ => (self, ActionView::Lock),
        }
    }
}

/// One `mmap` call in progress.
pub struct MmapCall {
    req: MmapRequest,
    stage: MmapStage,
}

impl MmapCall {
    #[verifier::type_invariant]
    spec fn inv(self) -> bool {
        self.req.in_range()
    }

    /// The request that this call serves.
    pub closed spec fn spec_request(&self) -> MmapRequest {
        self.req
    }

    /// Where the call stands.
    pub closed spec fn spec_stage(&self) -> MmapStage {
        self.stage
    }

    /// The request that this call serves.
    #[verifier::when_used_as_spec(spec_request)]
    pub fn request(&self) -> (req: MmapRequest)
        ensures
            req == self.request(),
            req.in_range(),
    {
        proof {
            use_type_invariant(self);
        }
        self.req
    }

    /// Where the call stands.
    #[verifier::when_used_as_spec(spec_stage)]
    pub fn stage(&self) -> (stage: MmapStage)
        ensures
            stage == self.stage(),
    {
        self.stage
    }

    /// Begins a call. The first thing to do is to lock the address space.
    pub fn start(req: MmapRequest) -> (begun: (MmapCall, MmapAction))
        requires
            req.in_range(),
        ensures
            begun.0.request() == req,
            begun.0.stage() == MmapStage::Locking,
            begun.1@ == ActionView::Lock,
    {
        (MmapCall { req, stage: MmapStage::Locking }, MmapAction::Lock)
    }

    /// Whether the call has returned.
    pub fn is_done(&self) -> (done: bool)
        ensures
            done == (self.stage() == MmapStage::Done),
    {
        matches!(self.stage, MmapStage::Done)
    }

    /// Whether `event` is of the kind that the call waits for.
    pub fn expects(&self, event: &MmapEvent) -> (ok: bool)
        ensures
            ok == self.stage().expects(event@),
    {
        match (&self.stage, event) {
            (MmapStage::Locking, MmapEvent::Locked { base, size }) => *size <= usize::MAX - *base,
            (MmapStage::Searching, MmapEvent::AreaFound { .. }) => true,
            (MmapStage::Committing { .. }, MmapEvent::Mapped { .. }) => true,
            (MmapStage::Resolving { .. }, MmapEvent::Resolved { .. }) => true,
            (MmapStage::Reading { .. }, MmapEvent::ReadDone { .. }) => true,
            (MmapStage::Writing { .. }, MmapEvent::Written { .. }) => true,
            _ => false,
        }
    }

    /// Takes the outcome of the last action and decides what follows.
    pub fn step(self, event: MmapEvent) -> (next: (MmapCall, MmapAction))
        requires
            self.stage().expects(event@),
        ensures
            next.0.request() == self.request(),
            (next.0.stage(), next.1@) == self.stage().transition(self.request(), event@),
    {
        proof {
            use_type_invariant(&self);
        }
        let req = self.req;
        match (self.stage, event) {
            (MmapStage::Locking, MmapEvent::Locked { base, size }) => {
                let hint = align_down_4k(req.addr + MMAP_HINT_BIAS);
                let map_size = align_up_4k(req.length);
                let (limit_start, limit_end) = range_from_start_size(base, size);
                (
                    MmapCall { req, stage: MmapStage::Searching },
                    MmapAction::FindFreeArea { hint, size: map_size, limit_start, limit_end },
                )
            },
            (MmapStage::Searching, MmapEvent::AreaFound { start: Some(start) }) => {
                let map_size = align_up_4k(req.length);
                let flags = req.permissions();
                (
                    MmapCall { req, stage: MmapStage::Committing { start } },
                    MmapAction::MapAlloc { start, size: map_size, flags, populate: true },
                )
            },
            (MmapStage::Searching, MmapEvent::AreaFound { start: None }) => Self::finish(
                req,
                Err(SysError::NoMemory),
            ),
            (MmapStage::Committing { start }, MmapEvent::Mapped { ok }) => {
                if ok {
                    (
                        MmapCall { req, stage: MmapStage::Resolving { start } },
                        MmapAction::ResolveFd { fd: req.fd },
                    )
                } else {
                    Self::finish(req, Err(SysError::NoMemory))
                }
            },
            (MmapStage::Resolving { start }, MmapEvent::Resolved { ok }) => {
                if ok {
                    let buf = vec![0u8; req.length];
                    assert(buf@ =~= zeros(req.length as nat));
                    (MmapCall { req, stage: MmapStage::Reading { start } }, MmapAction::Read { buf })
                } else {
                    Self::finish(req, Err(SysError::InvalidDescriptor))
                }
            },
            (MmapStage::Reading { start }, MmapEvent::ReadDone { buf: Some(data) }) => (
                MmapCall { req, stage: MmapStage::Writing { start } },
                MmapAction::Write { start, data },
            ),
            (MmapStage::Reading { start }, MmapEvent::ReadDone { buf: None }) => Self::finish(
                req,
                Err(SysError::IoFailure),
            ),
            (MmapStage::Writing { start }, MmapEvent::Written { ok }) => {
                if ok {
                    Self::finish(req, Ok(start))
                } else {
                    Self::finish(req, Err(SysError::IoFailure))
                }
            },
            // Not reached: the event is of the kind that the stage expects.
            (stage, _) => (MmapCall { req, stage }, MmapAction::Lock),
        }
    }

    /// Ends the call with `res`.
    fn finish(req: MmapRequest, res: Result<usize, SysError>) -> (next: (MmapCall, MmapAction))
        requires
            req.in_range(),
        ensures
            next.0.request() == req,
            next.0.stage() == MmapStage::Done,
            next.1@ == (ActionView::Return { value: return_value(res) as isize }),
    {
        (MmapCall { req, stage: MmapStage::Done }, MmapAction::Return { value: syscall_return(res) })
    }
}

/// What a call for `req` has come to after `events` arrived in order: the
/// stage it stands at, and every action it has issued, the opening `Lock`
/// first. An event of a kind that the stage does not wait for is not
/// delivered.
pub open spec fn run(req: MmapRequest, events: Seq<EventView>) -> (MmapStage, Seq<ActionView>)
    decreases events.len(),
{
    if events.len() == 0 {
        (MmapStage::Locking, seq![ActionView::Lock])
    } else {
        let (stage, actions) = run(req, events.drop_last());
        if stage.expects(events.last()) {
            let (next, action) = stage.transition(req, events.last());
            (next, actions.push(action))
        } else {
            (stage, actions)
        }
    }
}

impl MmapRequest {
    /// The search that every call opens with, in an address space that
    /// spans `[base, base + size)`.
    pub open spec fn search(self, base: usize, size: usize) -> ActionView {
        ActionView::FindFreeArea {
            hint: self.search_start() as usize,
            size: self.map_size() as usize,
            limit_start: base,
            limit_end: (base + size) as usize,
        }
    }

    /// The commit that follows a search that found `start`.
    pub open spec fn commit(self, start: usize) -> ActionView {
        ActionView::MapAlloc {
            start,
            size: self.map_size() as usize,
            flags: self.permissions(),
            populate: true,
        }
    }
}

/// The events of a call in which nothing fails: the address space spans
/// `[base, base + size)`, the search finds `start`, and the read leaves
/// `data` in the buffer.
pub open spec fn smooth_events(base: usize, size: usize, start: usize, data: Seq<u8>) -> Seq<
    EventView,
> {
    seq![
        EventView::Locked { base, size },
        EventView::AreaFound { start: Some(start) },
        EventView::Mapped { ok: true },
        EventView::Resolved { ok: true },
        EventView::ReadDone { buf: Some(data) },
        EventView::Written { ok: true },
    ]
}

/// The actions that a call for `req` takes when nothing fails.
pub open spec fn smooth_actions(
    req: MmapRequest,
    base: usize,
    size: usize,
    start: usize,
    data: Seq<u8>,
) -> Seq<ActionView> {
    seq![
        ActionView::Lock,
        req.search(base, size),
        req.commit(start),
        ActionView::ResolveFd { fd: req.fd },
        ActionView::Read { buf: zeros(req.length as nat) },
        ActionView::Write { start, data },
        ActionView::Return { value: return_value(Ok(start)) as isize },
    ]
}

/// The stage of a call after `done` of its actions came out well.
pub open spec fn stage_after(done: int, start: usize) -> MmapStage {
    if done <= 0 {
        MmapStage::Locking
    } else if done == 1 {
        MmapStage::Searching
    } else if done == 2 {
        MmapStage::Committing { start }
    } else if done == 3 {
        MmapStage::Resolving { start }
    } else if done == 4 {
        MmapStage::Reading { start }
    } else if done == 5 {
        MmapStage::Writing { start }
    } else {
        MmapStage::Done
    }
}

/// The ways in which the action that a call takes after `done` successes
/// can fail, each with the error that the call then reports. Locking and
/// resolving aside, a search can come back empty and a commit be refused
/// for want of memory; a read and a write fail as I/O.
pub open spec fn failure_after(done: int) -> (EventView, SysError) {
    if done <= 1 {
        (EventView::AreaFound { start: None }, SysError::NoMemory)
    } else if done == 2 {
        (EventView::Mapped { ok: false }, SysError::NoMemory)
    } else if done == 3 {
        (EventView::Resolved { ok: false }, SysError::InvalidDescriptor)
    } else if done == 4 {
        (EventView::ReadDone { buf: None }, SysError::IoFailure)
    } else {
        (EventView::Written { ok: false }, SysError::IoFailure)
    }
}

/// The search begins at the page of the hint, moved up by the bias, and
/// asks for the length rounded up to whole pages. Both are page-aligned
/// machine addresses. The mapping is accessible to the user, and readable,
/// writable and executable as bits 0, 1 and 2 of the protection say.
pub proof fn lemma_request_geometry(req: MmapRequest)
    requires
        req.in_range(),
    ensures
        req.search_start() == page_floor(req.addr as int) + MMAP_HINT_BIAS,
        req.search_start() % 4096 == 0,
        0 <= req.search_start() <= usize::MAX,
        req.map_size() % 4096 == 0,
        req.length <= req.map_size() < req.length + 4096,
        req.map_size() <= usize::MAX,
        req.permissions().user,
        req.permissions().read == (req.prot & 1 == 1),
        req.permissions().write == (req.prot & 2 == 2),
        req.permissions().execute == (req.prot & 4 == 4),
{
    lemma_page_bounds(req.addr as int, 256);
    lemma_page_bounds(req.addr + MMAP_HINT_BIAS, 0);
    lemma_page_bounds(req.length as int, 0);
    assert(usize::MAX % 4096 == 4095) by {
        assert(usize::MAX == 0xffff_ffff || usize::MAX == 0xffff_ffff_ffff_ffff);
    }
}

/// Delivering one more event extends a run by one transition.
pub proof fn lemma_run_push(req: MmapRequest, events: Seq<EventView>, event: EventView)
    ensures
        run(req, events.push(event)) == ({
            let (stage, actions) = run(req, events);
            if stage.expects(event) {
                (stage.transition(req, event).0, actions.push(stage.transition(req, event).1))
            } else {
                (stage, actions)
            }
        }),
{
    assert(events.push(event).drop_last() =~= events);
}

/// While nothing fails, a call walks through its stages in order and takes
/// the actions of [`smooth_actions`] one by one. After all six events it has
/// returned the address that the search found. What it wrote there is the
/// read buffer: `length` bytes that began as zeros and hold whatever the
/// one read put into them.
pub proof fn lemma_smooth_run(
    req: MmapRequest,
    base: usize,
    size: usize,
    start: usize,
    data: Seq<u8>,
    done: int,
)
    requires
        base + size <= usize::MAX,
        0 <= done <= 6,
    ensures
        run(req, smooth_events(base, size, start, data).take(done)) == (
            stage_after(done, start),
            smooth_actions(req, base, size, start, data).take(done + 1),
        ),
    decreases done,
{
    let events = smooth_events(base, size, start, data);
    let actions = smooth_actions(req, base, size, start, data);
    if done == 0 {
        assert(events.take(0) =~= Seq::<EventView>::empty());
        assert(actions.take(1) =~= seq![ActionView::Lock]);
    } else {
        lemma_smooth_run(req, base, size, start, data, done - 1);
        lemma_run_push(req, events.take(done - 1), events[done - 1]);
        assert(events.take(done - 1).push(events[done - 1]) =~= events.take(done));
        assert(actions.take(done).push(actions[done]) =~= actions.take(done + 1));
    }
}

/// The first failure ends the call: when the action taken after `done`
/// successes fails, the call returns the negated number of the matching
/// error at once. Nothing is undone, so a mapping that was committed
/// before the failure stays.
pub proof fn lemma_first_failure(
    req: MmapRequest,
    base: usize,
    size: usize,
    start: usize,
    data: Seq<u8>,
    done: int,
)
    requires
        base + size <= usize::MAX,
        1 <= done <= 5,
    ensures
        run(
            req,
            smooth_events(base, size, start, data).take(done).push(failure_after(done).0),
        ) == (
            MmapStage::Done,
            smooth_actions(req, base, size, start, data).take(done + 1).push(
                fail(failure_after(done).1),
            ),
        ),
{
    lemma_smooth_run(req, base, size, start, data, done);
    lemma_run_push(req, smooth_events(base, size, start, data).take(done), failure_after(done).0);
}

/// Round trip. Let the search find the page-aligned address `start`, and
/// let the one read put the first `count` bytes of the file's `contents` at
/// the front of the buffer it was handed. Then the call returns `start`,
/// and what it has written at `start` is `length` bytes long, begins with
/// those bytes of the file, and is zero after them.
pub proof fn lemma_round_trip(
    req: MmapRequest,
    base: usize,
    size: usize,
    start: usize,
    contents: Seq<u8>,
    count: nat,
)
    requires
        base + size <= usize::MAX,
        start <= isize::MAX,
        start % 4096 == 0,
        count <= req.length,
        count <= contents.len(),
    ensures
        ({
            let data = contents.take(count as int) + zeros((req.length - count) as nat);
            let (stage, actions) = run(req, smooth_events(base, size, start, data));
            &&& stage == MmapStage::Done
            &&& actions == smooth_actions(req, base, size, start, data)
            &&& actions[4] == ActionView::Read { buf: zeros(req.length as nat) }
            &&& actions[5] == ActionView::Write { start, data }
            &&& actions[6] == ActionView::Return { value: start as isize }
            &&& (start as isize) % 4096 == 0
            &&& data.len() == req.length
            &&& forall|i: int| 0 <= i < count ==> data[i] == contents[i]
            &&& forall|i: int| count <= i < req.length ==> data[i] == 0
        }),
{
    let data = contents.take(count as int) + zeros((req.length - count) as nat);
    lemma_smooth_run(req, base, size, start, data, 6);
    assert(smooth_events(base, size, start, data).take(6) =~= smooth_events(base, size, start, data));
    assert(smooth_actions(req, base, size, start, data).take(7) =~= smooth_actions(
        req,
        base,
        size,
        start,
        data,
    ));
}

/// When the address space has no free range, the call returns `-ENOMEM`
/// and has asked for no mapping.
pub proof fn lemma_no_free_area(req: MmapRequest, base: usize, size: usize)
    requires
        base + size <= usize::MAX,
    ensures
        run(req, seq![EventView::Locked { base, size }, EventView::AreaFound { start: None }]) == (
            MmapStage::Done,
            seq![ActionView::Lock, req.search(base, size), ActionView::Return { value: (-12isize) }],
        ),
{
    let events = smooth_events(base, size, 0, Seq::empty());
    let actions = smooth_actions(req, base, size, 0, Seq::empty());
    lemma_first_failure(req, base, size, 0, Seq::empty(), 1);
    assert(events.take(1).push(failure_after(1).0) =~= seq![
        EventView::Locked { base, size },
        EventView::AreaFound { start: None },
    ]);
    assert(actions.take(2).push(fail(SysError::NoMemory)) =~= seq![
        ActionView::Lock,
        req.search(base, size),
        ActionView::Return { value: (-12isize) },
    ]);
}

/// When the descriptor names no file, the call returns `-EBADF`. By then
/// the mapping has been committed, and the call ends without an action
/// that would take it back.
pub proof fn lemma_bad_descriptor(req: MmapRequest, base: usize, size: usize, start: usize)
    requires
        base + size <= usize::MAX,
    ensures
        run(
            req,
            seq![
                EventView::Locked { base, size },
                EventView::AreaFound { start: Some(start) },
                EventView::Mapped { ok: true },
                EventView::Resolved { ok: false },
            ],
        ) == (
            MmapStage::Done,
            seq![
                ActionView::Lock,
                req.search(base, size),
                req.commit(start),
                ActionView::ResolveFd { fd: req.fd },
                ActionView::Return { value: (-9isize) },
            ],
        ),
{
    let events = smooth_events(base, size, start, Seq::empty());
    let actions = smooth_actions(req, base, size, start, Seq::empty());
    lemma_first_failure(req, base, size, start, Seq::empty(), 3);
    assert(events.take(3).push(failure_after(3).0) =~= seq![
        EventView::Locked { base, size },
        EventView::AreaFound { start: Some(start) },
        EventView::Mapped { ok: true },
        EventView::Resolved { ok: false },
    ]);
    assert(actions.take(4).push(fail(SysError::InvalidDescriptor)) =~= seq![
        ActionView::Lock,
        req.search(base, size),
        req.commit(start),
        ActionView::ResolveFd { fd: req.fd },
        ActionView::Return { value: (-9isize) },
    ]);
}

/// The stage of a call tells how many actions it has taken.
pub proof fn lemma_stage_of_length(req: MmapRequest, events: Seq<EventView>)
    ensures
        ({
            let (stage, actions) = run(req, events);
            match stage {
                MmapStage::Locking => actions.len() == 1,
                MmapStage::Searching => actions.len() == 2,
                MmapStage::Committing { .. } => actions.len() == 3,
                MmapStage::Resolving { .. } => actions.len() == 4,
                MmapStage::Reading { .. } => actions.len() == 5,
                MmapStage::Writing { .. } => actions.len() == 6,
                MmapStage::Done => 3 <= actions.len() <= 7,
            }
        }),
    decreases events.len(),
{
    if events.len() > 0 {
        lemma_stage_of_length(req, events.drop_last());
    }
}

/// Whatever the events, a call is finished exactly when its last action
/// was a return, and it returns once. It asks for at most one mapping, as
/// its third action, and writes at most once, as its sixth.
pub proof fn lemma_run_shape(req: MmapRequest, events: Seq<EventView>)
    ensures
        ({
            let (stage, actions) = run(req, events);
            &&& 1 <= actions.len() <= 7
            &&& actions.len() <= events.len() + 1
            &&& (stage == MmapStage::Done) == (actions.last() is Return)
            &&& forall|i: int| 0 <= i < actions.len() - 1 ==> !(#[trigger] actions[i] is Return)
            &&& forall|i: int| 0 <= i < actions.len() && #[trigger] actions[i] is MapAlloc ==> i == 2
            &&& forall|i: int| 0 <= i < actions.len() && #[trigger] actions[i] is Write ==> i == 5
        }),
    decreases events.len(),
{
    if events.len() > 0 {
        lemma_run_shape(req, events.drop_last());
        lemma_stage_of_length(req, events.drop_last());
    }
}

/// The mapping bits and the offset of a request decide nothing: two
/// requests that differ only in them take the same actions.
pub proof fn lemma_flags_and_offset_unused(a: MmapRequest, b: MmapRequest, events: Seq<EventView>)
    requires
        a.addr == b.addr,
        a.length == b.length,
        a.prot == b.prot,
        a.fd == b.fd,
    ensures
        run(a, events) == run(b, events),
    decreases events.len(),
{
    if events.len() > 0 {
        lemma_flags_and_offset_unused(a, b, events.drop_last());
    }
}

} // verus!
