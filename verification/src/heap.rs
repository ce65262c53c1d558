//! The allocator: `malloc`, `calloc`, `realloc`, `reallocarray` and `free`.
//!
//! Every block comes from its own anonymous memory mapping. Its first
//! [`HEADER_SIZE`] bytes are the header, whose first word records the size of
//! the whole mapping; the caller gets the address just past the header, which
//! keeps the 16-byte alignment of the (page-aligned) mapping. The `mmap`
//! system call reports failure as an address in the last [`MAX_ERRNO`] bytes
//! of the address space (`-errno`, among them `MAP_FAILED`).
//!
//! Memory itself is out of reach here, so each operation is a state machine: it starts with the call (`malloc`,
//! `free`, ...), which gives a phase and a first action, and every answer to
//! an action ([`AllocEvent`]) is fed to [`AllocPhase::advance`], until the
//! action is [`AllocAction::Finish`], which holds the pointer to hand back
//! (0 is the null pointer).
use vstd::prelude::*;

verus! {

/// The address the C library gives back when a mapping fails (`(void *)-1`).
pub const MAP_FAILED: usize = usize::MAX;

/// The largest error number that a system call returns, negated, in place of a result.
pub const MAX_ERRNO: usize = 4095;

/// Size of the header in front of every payload, in bytes: the size word,
/// padded to the 16-byte alignment that `malloc` guarantees.
pub const HEADER_SIZE: usize = 16;

/// The alignment of every payload handed out from an aligned mapping.
pub const MALLOC_ALIGN: usize = 16;

/// Size of the header, in bytes.
pub open spec fn header_len() -> int {
    HEADER_SIZE as int
}

/// What `mmap` returned is an error (`-errno`), not an address.
pub open spec fn is_map_error(addr: usize) -> bool {
    addr > usize::MAX - MAX_ERRNO
}

/// What to do with a freshly mapped block once its header is written.
#[derive(Clone, Copy, Debug, PartialEq, Eq)]
pub enum AfterMap {
    /// Hand the block to the caller.
    Hand,
    /// Zero `len` bytes of the payload, then hand it over.
    ZeroFill { len: usize },
    /// Copy `len` bytes from the payload at `old` into it, release `old`,
    /// then hand it over.
    MoveFrom { old: usize, len: usize },
}

/// Where an allocator operation stands.
#[derive(Clone, Copy, Debug, PartialEq, Eq)]
pub enum AllocPhase {
    /// Waiting for a mapping of `total` bytes.
    Mapping { total: usize, then: AfterMap },
    /// Waiting for the header of the block whose payload is at `payload` to be written.
    WritingHeader { payload: usize, then: AfterMap },
    /// Waiting for the payload at `payload` to be zeroed.
    Zeroing { payload: usize },
    /// Waiting for the old payload at `old` to be copied into the one at `new`.
    Copying { old: usize, new: usize },
    /// Waiting for the header of the payload at `ptr`, to release its block;
    /// `result` is handed back afterwards.
    ReadingForFree { ptr: usize, result: usize },
    /// Waiting for a block to be unmapped; `result` is handed back afterwards.
    Unmapping { result: usize },
    /// Waiting for the header of the payload at `ptr`, which is to be resized
    /// to `size` bytes.
    ReadingForResize { ptr: usize, size: usize },
    /// The operation is over.
    Finished,
}

/// What the allocator asks of the system next.
#[derive(Clone, Copy, Debug, PartialEq, Eq)]
pub enum AllocAction {
    /// Map `len` bytes of fresh memory; answer [`AllocEvent::Mapped`].
    Mmap { len: usize },
    /// Write a header recording `total` at address `at`; answer [`AllocEvent::Done`].
    WriteHeader { at: usize, total: usize },
    /// Read the header at address `at`; answer [`AllocEvent::HeaderRead`].
    ReadHeader { at: usize },
    /// Set `len` bytes from address `at` to zero; answer [`AllocEvent::Done`].
    Zero { at: usize, len: usize },
    /// Copy `len` bytes from address `from` to address `to`; answer [`AllocEvent::Done`].
    CopyBytes { from: usize, to: usize, len: usize },
    /// Unmap `len` bytes at address `at`; answer [`AllocEvent::Done`].
    Munmap { at: usize, len: usize },
    /// The operation is over: return `ptr` to the caller.
    Finish { ptr: usize },
}

/// The answer to an action.
#[derive(Clone, Copy, Debug, PartialEq, Eq)]
pub enum AllocEvent {
    /// The mapping starts at `addr`, or `addr` is an error (see [`is_map_error`]).
    Mapped { addr: usize },
    /// The header read holds `total`.
    HeaderRead { total: usize },
    /// The action was carried out.
    Done,
}

/// Size of the mapping for a request of `size` bytes: at least one byte of
/// payload plus the header, or `None` when that overflows.
pub open spec fn block_total(size: usize) -> Option<usize> {
    let payload: int = if size == 0 {
        1
    } else {
        size as int
    };
    if payload + header_len() <= usize::MAX {
        Some((payload + header_len()) as usize)
    } else {
        None
    }
}

/// `nmemb * size`, or `None` when it overflows.
pub open spec fn array_size(nmemb: usize, size: usize) -> Option<usize> {
    if nmemb * size <= usize::MAX {
        Some((nmemb * size) as usize)
    } else {
        None
    }
}

/// The operation ends at once, handing back `ptr`.
pub open spec fn finish_with(ptr: usize) -> (AllocPhase, AllocAction) {
    (AllocPhase::Finished, AllocAction::Finish { ptr })
}

/// Start getting a block for `size` bytes, to be followed by `then`.
pub open spec fn start_block_model(size: usize, then: AfterMap) -> (AllocPhase, AllocAction) {
    match block_total(size) {
        Some(total) => (AllocPhase::Mapping { total, then }, AllocAction::Mmap { len: total }),
        None => finish_with(0),
    }
}

/// Start releasing the block of the payload at `ptr`, then hand back `result`.
pub open spec fn release_model(ptr: usize, result: usize) -> (AllocPhase, AllocAction) {
    if ptr == 0 {
        finish_with(result)
    } else {
        (
            AllocPhase::ReadingForFree { ptr, result },
            AllocAction::ReadHeader { at: (ptr - header_len()) as usize },
        )
    }
}

/// How `malloc(size)` starts.
pub open spec fn malloc_model(size: usize) -> (AllocPhase, AllocAction) {
    start_block_model(size, AfterMap::Hand)
}

/// How `calloc(nmemb, size)` starts.
pub open spec fn calloc_model(nmemb: usize, size: usize) -> (AllocPhase, AllocAction) {
    match array_size(nmemb, size) {
        Some(total) => start_block_model(total, AfterMap::ZeroFill { len: total }),
        None => finish_with(0),
    }
}

/// How `free(ptr)` starts.
pub open spec fn free_model(ptr: usize) -> (AllocPhase, AllocAction) {
    release_model(ptr, 0)
}

/// How `realloc(ptr, size)` starts.
pub open spec fn realloc_model(ptr: usize, size: usize) -> (AllocPhase, AllocAction) {
    if ptr == 0 {
        malloc_model(size)
    } else if size == 0 {
        release_model(ptr, 0)
    } else {
        (
            AllocPhase::ReadingForResize { ptr, size },
            AllocAction::ReadHeader { at: (ptr - header_len()) as usize },
        )
    }
}

/// How `reallocarray(ptr, nmemb, size)` starts.
pub open spec fn reallocarray_model(ptr: usize, nmemb: usize, size: usize) -> (
    AllocPhase,
    AllocAction,
) {
    match array_size(nmemb, size) {
        Some(total) => realloc_model(ptr, total),
        None => finish_with(0),
    }
}

/// The next phase and action, given the answer `ev` to the last action.
pub open spec fn advance_model(phase: AllocPhase, ev: AllocEvent) -> (AllocPhase, AllocAction) {
    match phase {
        AllocPhase::Mapping { total, then } => match ev {
            AllocEvent::Mapped { addr } => if is_map_error(addr) {
                finish_with(0)
            } else {
                (
                    AllocPhase::WritingHeader { payload: (addr + header_len()) as usize, then },
                    AllocAction::WriteHeader { at: addr, total },
                )
            },
            _ => finish_with(0),
        },
        AllocPhase::WritingHeader { payload, then } => match then {
            AfterMap::Hand => finish_with(payload),
            AfterMap::ZeroFill { len } => (
                AllocPhase::Zeroing { payload },
                AllocAction::Zero { at: payload, len },
            ),
            AfterMap::MoveFrom { old, len } => (
                AllocPhase::Copying { old, new: payload },
                AllocAction::CopyBytes { from: old, to: payload, len },
            ),
        },
        AllocPhase::Zeroing { payload } => finish_with(payload),
        AllocPhase::Copying { old, new } => release_model(old, new),
        AllocPhase::ReadingForFree { ptr, result } => match ev {
            AllocEvent::HeaderRead { total } => (
                AllocPhase::Unmapping { result },
                AllocAction::Munmap { at: (ptr - header_len()) as usize, len: total },
            ),
            _ => finish_with(0),
        },
        AllocPhase::Unmapping { result } => finish_with(result),
        AllocPhase::ReadingForResize { ptr, size } => match ev {
            AllocEvent::HeaderRead { total } => {
                let old_payload = total - header_len();
                let len = if old_payload < size {
                    old_payload as usize
                } else {
                    size
                };
                start_block_model(size, AfterMap::MoveFrom { old: ptr, len })
            },
            _ => finish_with(0),
        },
        AllocPhase::Finished => finish_with(0),
    }
}

/// A payload address that a block of this allocator can have: not null and
/// with room for the header in front of it.
pub open spec fn is_payload(ptr: usize) -> bool {
    ptr != 0 && ptr >= header_len()
}

/// A pointer that `free` and `realloc` accept: null or a payload address.
pub open spec fn freeable(ptr: usize) -> bool {
    ptr == 0 || is_payload(ptr)
}

impl AfterMap {
    /// The follow-up refers only to payload addresses.
    pub open spec fn wf(self) -> bool {
        match self {
            AfterMap::MoveFrom { old, len } => is_payload(old),
            _ => true,
        }
    }
}

impl AllocPhase {
    /// The phase refers only to payload addresses.
    pub open spec fn wf(self) -> bool {
        match self {
            AllocPhase::Mapping { total, then } => then.wf(),
            AllocPhase::WritingHeader { payload, then } => then.wf(),
            AllocPhase::Copying { old, new } => is_payload(old),
            AllocPhase::ReadingForFree { ptr, result } => is_payload(ptr),
            AllocPhase::ReadingForResize { ptr, size } => is_payload(ptr),
            _ => true,
        }
    }

    /// `ev` answers the action that led to this phase; a header read back for
    /// a resize records at least the header itself.
    pub open spec fn accepts(self, ev: AllocEvent) -> bool {
        match self {
            AllocPhase::Mapping { .. } => ev is Mapped,
            AllocPhase::ReadingForFree { .. } => ev is HeaderRead,
            AllocPhase::ReadingForResize { .. } => match ev {
                AllocEvent::HeaderRead { total } => total >= header_len(),
                _ => false,
            },
            AllocPhase::Finished => false,
            _ => ev is Done,
        }
    }

    /// Takes the answer `ev` to the last action and gives the next phase and action.
    pub fn advance(self, ev: AllocEvent) -> (r: (AllocPhase, AllocAction))
        requires
            self.wf(),
            self.accepts(ev),
        ensures
            r == advance_model(self, ev),
            r.0.wf(),
    {
        let header = HEADER_SIZE;
        match self {
            AllocPhase::Mapping { total, then } => match ev {
                AllocEvent::Mapped { addr } => if addr > usize::MAX - MAX_ERRNO {
                    (AllocPhase::Finished, AllocAction::Finish { ptr: 0 })
                } else {
                    (
                        AllocPhase::WritingHeader { payload: addr + header, then },
                        AllocAction::WriteHeader { at: addr, total },
                    )
                },
                _ => (AllocPhase::Finished, AllocAction::Finish { ptr: 0 }),
            },
            AllocPhase::WritingHeader { payload, then } => match then {
                AfterMap::Hand => (AllocPhase::Finished, AllocAction::Finish { ptr: payload }),
                AfterMap::ZeroFill { len } => (
                    AllocPhase::Zeroing { payload },
                    AllocAction::Zero { at: payload, len },
                ),
                AfterMap::MoveFrom { old, len } => (
                    AllocPhase::Copying { old, new: payload },
                    AllocAction::CopyBytes { from: old, to: payload, len },
                ),
            },
            AllocPhase::Zeroing { payload } => (
                AllocPhase::Finished,
                AllocAction::Finish { ptr: payload },
            ),
            AllocPhase::Copying { old, new } => release(old, new),
            AllocPhase::ReadingForFree { ptr, result } => match ev {
                AllocEvent::HeaderRead { total } => (
                    AllocPhase::Unmapping { result },
                    AllocAction::Munmap { at: ptr - header, len: total },
                ),
                _ => (AllocPhase::Finished, AllocAction::Finish { ptr: 0 }),
            },
            AllocPhase::Unmapping { result } => (
                AllocPhase::Finished,
                AllocAction::Finish { ptr: result },
            ),
            AllocPhase::ReadingForResize { ptr, size } => match ev {
                AllocEvent::HeaderRead { total } => {
                    let old_payload = total - header;
                    let len = if old_payload < size {
                        old_payload
                    } else {
                        size
                    };
                    start_block(size, AfterMap::MoveFrom { old: ptr, len })
                },
                _ => (AllocPhase::Finished, AllocAction::Finish { ptr: 0 }),
            },
            AllocPhase::Finished => (AllocPhase::Finished, AllocAction::Finish { ptr: 0 }),
        }
    }
}

/// Starts getting a block for `size` bytes, to be followed by `then`.
fn start_block(size: usize, then: AfterMap) -> (r: (AllocPhase, AllocAction))
    requires
        then.wf(),
    ensures
        r == start_block_model(size, then),
        r.0.wf(),
{
    let size = if size == 0 {
        1
    } else {
        size
    };
    let header = HEADER_SIZE;
    match size.checked_add(header) {
        Some(total) => (AllocPhase::Mapping { total, then }, AllocAction::Mmap { len: total }),
        None => (AllocPhase::Finished, AllocAction::Finish { ptr: 0 }),
    }
}

/// Starts releasing the block of the payload at `ptr`, handing back `result` afterwards.
fn release(ptr: usize, result: usize) -> (r: (AllocPhase, AllocAction))
    requires
        freeable(ptr),
    ensures
        r == release_model(ptr, result),
        r.0.wf(),
{
    if ptr == 0 {
        return (AllocPhase::Finished, AllocAction::Finish { ptr: result });
    }
    let header = HEADER_SIZE;
    (AllocPhase::ReadingForFree { ptr, result }, AllocAction::ReadHeader { at: ptr - header })
}

/// `malloc(size)`: a block with room for `size` bytes (at least one), or null
/// when the size with the header overflows or the mapping fails.
pub fn malloc(size: usize) -> (r: (AllocPhase, AllocAction))
    ensures
        r == malloc_model(size),
        r.0.wf(),
{
    start_block(size, AfterMap::Hand)
}

/// `calloc(nmemb, size)`: a block of `nmemb * size` bytes, all zero, or null
/// when the product overflows or the allocation fails.
pub fn calloc(nmemb: usize, size: usize) -> (r: (AllocPhase, AllocAction))
    ensures
        r == calloc_model(nmemb, size),
        r.0.wf(),
{
    match nmemb.checked_mul(size) {
        Some(total) => start_block(total, AfterMap::ZeroFill { len: total }),
        None => (AllocPhase::Finished, AllocAction::Finish { ptr: 0 }),
    }
}

/// `free(ptr)`: releases the block of `ptr`; a null pointer is ignored.
pub fn free(ptr: usize) -> (r: (AllocPhase, AllocAction))
    requires
        freeable(ptr),
    ensures
        r == free_model(ptr),
        r.0.wf(),
{
    release(ptr, 0)
}

/// `realloc(ptr, size)`: `malloc(size)` for a null `ptr`; for `size` 0 the
/// block is released and null returned; otherwise a new block of `size`
/// bytes receives the first `min(old payload, size)` bytes of the old one,
/// which is then released. On failure null is returned and the old block kept.
pub fn realloc(ptr: usize, size: usize) -> (r: (AllocPhase, AllocAction))
    requires
        freeable(ptr),
    ensures
        r == realloc_model(ptr, size),
        r.0.wf(),
{
    if ptr == 0 {
        return malloc(size);
    }
    if size == 0 {
        return release(ptr, 0);
    }
    let header = HEADER_SIZE;
    (AllocPhase::ReadingForResize { ptr, size }, AllocAction::ReadHeader { at: ptr - header })
}

/// `reallocarray(ptr, nmemb, size)`: `realloc(ptr, nmemb * size)`, or null
/// when the product overflows.
pub fn reallocarray(ptr: usize, nmemb: usize, size: usize) -> (r: (AllocPhase, AllocAction))
    requires
        freeable(ptr),
    ensures
        r == reallocarray_model(ptr, nmemb, size),
        r.0.wf(),
{
    match nmemb.checked_mul(size) {
        Some(total) => realloc(ptr, total),
        None => (AllocPhase::Finished, AllocAction::Finish { ptr: 0 }),
    }
}

/// How far a phase is from the end of its operation.
pub open spec fn phase_rank(phase: AllocPhase) -> nat {
    match phase {
        AllocPhase::ReadingForResize { .. } => 6,
        AllocPhase::Mapping { .. } => 5,
        AllocPhase::WritingHeader { .. } => 4,
        AllocPhase::Copying { .. } => 3,
        AllocPhase::ReadingForFree { .. } => 2,
        AllocPhase::Zeroing { .. } => 1,
        AllocPhase::Unmapping { .. } => 1,
        AllocPhase::Finished => 0,
    }
}

/// Every answer moves an operation closer to its end, so each operation
/// finishes after at most six answers; and the operation is finished exactly
/// when the action is `Finish`.
pub proof fn lemma_advance_progresses(phase: AllocPhase, ev: AllocEvent)
    requires
        phase.wf(),
        phase.accepts(ev),
    ensures
        phase_rank(advance_model(phase, ev).0) < phase_rank(phase),
        advance_model(phase, ev).0 is Finished <==> advance_model(phase, ev).1 is Finish,
{
}

/// Starting any call gives a well-formed phase that is finished exactly when
/// the action is `Finish`, and is at most six answers away from the end.
pub proof fn lemma_start_consistent(size: usize, then: AfterMap, ptr: usize, result: usize)
    requires
        then.wf(),
        freeable(ptr),
    ensures
        start_block_model(size, then).0 is Finished <==> start_block_model(size, then).1 is Finish,
        release_model(ptr, result).0 is Finished <==> release_model(ptr, result).1 is Finish,
        phase_rank(start_block_model(size, then).0) <= 6,
        phase_rank(release_model(ptr, result).0) <= 6,
{
}

/// A mapping that fails, whatever error it reports, ends the operation with a
/// null pointer and nothing written.
pub proof fn lemma_failed_mapping_gives_null(total: usize, then: AfterMap, addr: usize)
    requires
        is_map_error(addr),
    ensures
        advance_model(AllocPhase::Mapping { total, then }, AllocEvent::Mapped { addr })
            == finish_with(0),
        is_map_error(MAP_FAILED),
{
}

/// A successful mapping at a 16-byte aligned address gives a payload that is
/// 16-byte aligned, past the header and inside the mapping.
pub proof fn lemma_payload_aligned(total: usize, then: AfterMap, addr: usize)
    requires
        !is_map_error(addr),
        addr % MALLOC_ALIGN == 0,
    ensures
        ({
            let (p, a) = advance_model(AllocPhase::Mapping { total, then }, AllocEvent::Mapped { addr });
            &&& p matches AllocPhase::WritingHeader { payload, .. } && payload == addr + HEADER_SIZE
                && payload % MALLOC_ALIGN == 0
            &&& a == AllocAction::WriteHeader { at: addr, total }
        }),
{
}

/// `free` of a null pointer does nothing; `realloc` of a null pointer is
/// `malloc`; `realloc` to size 0 is `free` and hands back null;
/// `reallocarray` is `realloc` of the product when it does not overflow, and
/// null when it does; `calloc` whose product overflows is null.
pub proof fn lemma_call_equivalences(ptr: usize, nmemb: usize, size: usize)
    requires
        is_payload(ptr),
    ensures
        free_model(0) == finish_with(0),
        realloc_model(0, size) == malloc_model(size),
        realloc_model(ptr, 0) == free_model(ptr),
        nmemb * size <= usize::MAX ==> reallocarray_model(ptr, nmemb, size) == realloc_model(
            ptr,
            (nmemb * size) as usize,
        ),
        nmemb * size <= usize::MAX ==> reallocarray_model(0, nmemb, size) == malloc_model(
            (nmemb * size) as usize,
        ),
        nmemb * size > usize::MAX ==> reallocarray_model(ptr, nmemb, size) == finish_with(0),
        nmemb * size > usize::MAX ==> calloc_model(nmemb, size) == finish_with(0),
{
}

/// `malloc` maps `max(size, 1)` bytes plus the header, writes the header at
/// the start of the mapping and hands back the address just past it; `free`
/// of that address reads the header at the start of the mapping and, given
/// the size written there, unmaps exactly the mapping that `malloc` made.
pub proof fn lemma_free_releases_malloc_block(size: usize, addr: usize)
    requires
        (if size == 0 { 1 } else { size as int }) + 16 <= usize::MAX,
        !is_map_error(addr),
        addr != 0,
    ensures
        ({
            let total = ((if size == 0 { 1 } else { size as int }) + 16) as usize;
            let ptr = (addr + 16) as usize;
            let (p1, a1) = malloc_model(size);
            let (p2, a2) = advance_model(p1, AllocEvent::Mapped { addr });
            let (p3, a3) = advance_model(p2, AllocEvent::Done);
            let (q1, b1) = free_model(ptr);
            let (q2, b2) = advance_model(q1, AllocEvent::HeaderRead { total });
            let (q3, b3) = advance_model(q2, AllocEvent::Done);
            &&& a1 == AllocAction::Mmap { len: total }
            &&& p1.accepts(AllocEvent::Mapped { addr })
            &&& a2 == AllocAction::WriteHeader { at: addr, total }
            &&& a3 == AllocAction::Finish { ptr }
            &&& p3 is Finished
            &&& is_payload(ptr)
            &&& b1 == AllocAction::ReadHeader { at: addr }
            &&& b2 == AllocAction::Munmap { at: addr, len: total }
            &&& b3 == AllocAction::Finish { ptr: 0 }
            &&& q3 is Finished
        }),
{
}

/// `malloc` hands back null or the address just past the header of the
/// mapping it got, so blocks from different mappings never share a pointer.
pub proof fn lemma_malloc_null_or_unique(size: usize, addr1: usize, addr2: usize)
    requires
    ensures
        ({
            let (p1, a1) = malloc_model(size);
            let r1 = advance_model(advance_model(p1, AllocEvent::Mapped { addr: addr1 }).0, AllocEvent::Done).1;
            let r2 = advance_model(advance_model(p1, AllocEvent::Mapped { addr: addr2 }).0, AllocEvent::Done).1;
            let fits = (if size == 0 { 1 } else { size as int }) + 16 <= usize::MAX;
            &&& fits && !is_map_error(addr1) ==> r1 == AllocAction::Finish {
                ptr: (addr1 + 16) as usize,
            }
            &&& fits && is_map_error(addr1) ==> advance_model(
                p1,
                AllocEvent::Mapped { addr: addr1 },
            ).1 == AllocAction::Finish { ptr: 0 }
            &&& fits && !is_map_error(addr1) && !is_map_error(addr2) && addr1 != addr2 ==> r1 != r2
        }),
{
}

/// `calloc` of a product that fits maps a block for it, writes the header,
/// zeroes exactly `nmemb * size` bytes of the payload and hands back the payload.
pub proof fn lemma_calloc_zeroes_payload(nmemb: usize, size: usize, addr: usize)
    requires
        nmemb * size <= usize::MAX,
        (if nmemb * size == 0 { 1 } else { nmemb * size }) + 16 <= usize::MAX,
        !is_map_error(addr),
    ensures
        ({
            let n = (nmemb * size) as usize;
            let total = ((if n == 0 { 1 } else { n as int }) + 16) as usize;
            let ptr = (addr + 16) as usize;
            let (p1, a1) = calloc_model(nmemb, size);
            let (p2, a2) = advance_model(p1, AllocEvent::Mapped { addr });
            let (p3, a3) = advance_model(p2, AllocEvent::Done);
            let (p4, a4) = advance_model(p3, AllocEvent::Done);
            &&& n == nmemb * size
            &&& a1 == AllocAction::Mmap { len: total }
            &&& a2 == AllocAction::WriteHeader { at: addr, total }
            &&& a3 == AllocAction::Zero { at: ptr, len: n }
            &&& a4 == AllocAction::Finish { ptr }
            &&& p4 is Finished
        }),
{
}

/// `realloc` of a block to a nonzero size reads the old header, maps a new
/// block, writes its header, copies `min(old payload, size)` bytes from the
/// old payload to the new one, releases the old block (unmapping it with the
/// size its header records) and hands back the new payload.
pub proof fn lemma_realloc_moves_contents(
    ptr: usize,
    size: usize,
    old_total: usize,
    addr: usize,
    again: usize,
)
    requires
        is_payload(ptr),
        size != 0,
        size + 16 <= usize::MAX,
        old_total >= 16,
        !is_map_error(addr),
    ensures
        ({
            let total = (size + 16) as usize;
            let new = (addr + 16) as usize;
            let old_payload = old_total - 16;
            let copy_len = if old_payload < size { old_payload } else { size as int };
            let (p1, a1) = realloc_model(ptr, size);
            let (p2, a2) = advance_model(p1, AllocEvent::HeaderRead { total: old_total });
            let (p3, a3) = advance_model(p2, AllocEvent::Mapped { addr });
            let (p4, a4) = advance_model(p3, AllocEvent::Done);
            let (p5, a5) = advance_model(p4, AllocEvent::Done);
            let (p6, a6) = advance_model(p5, AllocEvent::HeaderRead { total: again });
            let (p7, a7) = advance_model(p6, AllocEvent::Done);
            &&& a1 == AllocAction::ReadHeader { at: (ptr - 16) as usize }
            &&& a2 == AllocAction::Mmap { len: total }
            &&& a3 == AllocAction::WriteHeader { at: addr, total }
            &&& a4 == AllocAction::CopyBytes { from: ptr, to: new, len: copy_len as usize }
            &&& a5 == AllocAction::ReadHeader { at: (ptr - 16) as usize }
            &&& a6 == AllocAction::Munmap { at: (ptr - 16) as usize, len: again }
            &&& a7 == AllocAction::Finish { ptr: new }
            &&& p7 is Finished
        }),
{
}

/// `malloc` asks for a mapping of `max(size, 1)` bytes plus the 16-byte
/// header whenever that sum fits in a `usize`, and hands back null at once,
/// asking for nothing, only when it does not.
pub proof fn lemma_malloc_asks_for_mapping(size: usize)
    ensures
        ({
            let total: int = (if size == 0 { 1 } else { size as int }) + 16;
            &&& total <= usize::MAX ==> malloc_model(size) == (
                AllocPhase::Mapping { total: total as usize, then: AfterMap::Hand },
                AllocAction::Mmap { len: total as usize },
            )
            &&& total > usize::MAX ==> malloc_model(size) == (
                AllocPhase::Finished,
                AllocAction::Finish { ptr: 0 },
            )
        }),
{
}

/// `calloc` asks for a mapping for `nmemb * size` bytes (at least one) plus
/// the 16-byte header, to be zeroed over `nmemb * size` bytes, whenever the
/// product and that sum fit in a `usize`; otherwise it hands back null at once.
pub proof fn lemma_calloc_asks_for_mapping(nmemb: usize, size: usize)
    ensures
        ({
            let n: int = nmemb * size;
            let total: int = (if n == 0 { 1 } else { n }) + 16;
            &&& n <= usize::MAX && total <= usize::MAX ==> calloc_model(nmemb, size) == (
                AllocPhase::Mapping {
                    total: total as usize,
                    then: AfterMap::ZeroFill { len: n as usize },
                },
                AllocAction::Mmap { len: total as usize },
            )
            &&& (n > usize::MAX || total > usize::MAX) ==> calloc_model(nmemb, size) == (
                AllocPhase::Finished,
                AllocAction::Finish { ptr: 0 },
            )
        }),
{
}

/// `realloc` of a block to a nonzero size first reads the block's header;
/// when the new size with the header overflows it then hands back null,
/// keeping the old block, and otherwise asks for a mapping of `size + 16` bytes.
pub proof fn lemma_realloc_asks_for_mapping(ptr: usize, size: usize, old_total: usize)
    requires
        is_payload(ptr),
        size != 0,
        old_total >= 16,
    ensures
        realloc_model(ptr, size).1 == (AllocAction::ReadHeader { at: (ptr - 16) as usize }),
        size + 16 > usize::MAX ==> advance_model(
            realloc_model(ptr, size).0,
            AllocEvent::HeaderRead { total: old_total },
        ) == (AllocPhase::Finished, AllocAction::Finish { ptr: 0 }),
        size + 16 <= usize::MAX ==> advance_model(
            realloc_model(ptr, size).0,
            AllocEvent::HeaderRead { total: old_total },
        ).1 == (AllocAction::Mmap { len: (size + 16) as usize }),
{
}

} // verus!
