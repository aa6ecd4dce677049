//! The flash capability and the page-buffered write path on top of it.
//!
//! A flash device programs and erases whole pages.  `Flash` is what a
//! hardware binding has to supply; `Flash::write_bytes` turns a write of any
//! length into page-aligned read, overlay and flush steps through the
//! device's one staging buffer.

use crate::wire::{copy_into, repeated, splice};
use core::ops::RangeInclusive;
use vstd::prelude::*;

verus! {

/// `RangeInclusive::start` of the standard library: on a range that no
/// iteration has used up, it hands out the lower bound that the range was
/// made with.  Believed, not proved.
pub assume_specification<Idx>[ RangeInclusive::<Idx>::start ](r: &RangeInclusive<Idx>) -> (ret:
    &Idx)
    ensures
        !r@.exhausted ==> *ret == r@.start,
;

/// `RangeInclusive::end` of the standard library: on a range that no
/// iteration has used up, it hands out the upper bound that the range was
/// made with.  Believed, not proved.
pub assume_specification<Idx>[ RangeInclusive::<Idx>::end ](r: &RangeInclusive<Idx>) -> (ret: &Idx)
    ensures
        !r@.exhausted ==> *ret == r@.end,
;

/// Why a flash operation failed.
#[derive(Debug, Clone, Copy, PartialEq, Eq, Structural)]
pub enum FlashError {
    /// The erase target does not sit on a page boundary, so erasing it would
    /// destroy data that the request did not name.
    UnsafeErase,
    /// The hardware did not behave as expected.
    HardwareError,
    /// Reading back after programming returned something else.
    WriteError,
    /// Reading back after an erase showed that the page is not erased.
    EraseError,
    /// The address is not a valid one for the operation.
    InvalidAddress,
}

/// The value of every byte of an erased page.
pub const ERASED: u8 = 0xFF;

/// Whether `n` is a power of two.
pub open spec fn is_power_of_two(n: u32) -> bool {
    n != 0 && n & ((n - 1) as u32) == 0
}

/// `address` rounded down to a multiple of `page_size`.
pub open spec fn page_of(address: int, page_size: int) -> int {
    address - address % page_size
}

/// Whether `after` holds what `before` holds in every cell but the `len`
/// cells from index `at` on.
pub open spec fn same_outside(before: Seq<u8>, after: Seq<u8>, at: int, len: int) -> bool {
    &&& after.len() == before.len()
    &&& forall|i: int|
        0 <= i < before.len() && !(at <= i < at + len) ==> #[trigger] after[i] == before[i]
}

/// What a flash device is, seen from outside: its geometry, what its cells
/// hold, and what is staged in its page buffer.
pub struct FlashState {
    /// Bytes per page.
    pub page_size: u32,
    /// The first valid address.
    pub start: u32,
    /// The cells: `memory[i]` is the byte at address `start + i`.
    pub memory: Seq<u8>,
    /// The address of the page that the buffer stands for, if any.
    pub staged: Option<u32>,
    /// The page buffer.
    pub buffer: Seq<u8>,
    /// How many pages have been read into the buffer so far.
    pub page_reads: nat,
    /// How many times the buffer has been flushed so far.
    pub flushes: nat,
    /// How many page reads and flushes the device will still carry out
    /// without a fault, at the least.  A device that can promise nothing has
    /// none.
    pub reserve: nat,
    /// How many page reads and flushes have failed so far.
    pub faults: nat,
    /// The fault of the page read or flush that failed last, if one has.
    pub last_fault: Option<FlashError>,
}

impl FlashState {
    /// The last valid address.
    pub open spec fn end(self) -> int {
        self.start + self.memory.len() - 1
    }

    /// Whether the `len` bytes from `address` on all lie inside the window.
    pub open spec fn holds(self, address: int, len: int) -> bool {
        self.start <= address && address + len <= self.start + self.memory.len()
    }

    /// Whether `page` is the address of a page that lies inside the window.
    pub open spec fn holds_page(self, page: int) -> bool {
        page % (self.page_size as int) == 0 && self.holds(page, self.page_size as int)
    }

    /// The `len` bytes that the cells hold from `address` on.
    pub open spec fn bytes_at(self, address: int, len: int) -> Seq<u8> {
        self.memory.subrange(address - self.start, address - self.start + len)
    }

    /// The geometry is sound: a power-of-two page size, a window that is not
    /// empty, ends inside the 32-bit address space and has a size that fits
    /// in 32 bits, a buffer of one page, and a staged page inside the window.
    pub open spec fn wf(self) -> bool {
        &&& is_power_of_two(self.page_size)
        &&& 0 < self.memory.len() <= u32::MAX
        &&& self.end() <= u32::MAX
        &&& self.buffer.len() == self.page_size
        &&& (self.staged matches Some(p) ==> self.holds_page(p as int))
    }

    /// What the cells will hold once the staged page is flushed: the cells,
    /// with the staged page's bytes taken from the buffer.
    pub open spec fn contents(self) -> Seq<u8> {
        match self.staged {
            Some(p) => splice(self.memory, p - self.start, self.buffer),
            None => self.memory,
        }
    }

    /// Whether `other` has the geometry of `self`.
    pub open spec fn same_device(self, other: FlashState) -> bool {
        &&& other.page_size == self.page_size
        &&& other.start == self.start
        &&& other.memory.len() == self.memory.len()
    }

    /// Whether the cells of `after` hold what the cells of `self` hold
    /// everywhere outside the page that is staged in `self`.
    pub open spec fn same_outside_staged(self, after: FlashState) -> bool {
        match self.staged {
            Some(p) => same_outside(
                self.memory,
                after.memory,
                p - self.start,
                self.page_size as int,
            ),
            None => after.memory == self.memory,
        }
    }

    /// Whether every byte of the page at `page` is erased.
    pub open spec fn page_is_erased(self, page: int) -> bool {
        self.bytes_at(page, self.page_size as int) == repeated(ERASED, self.page_size as nat)
    }
}

/// The part of a write that lands in one page.
#[derive(Clone, Copy, Debug, PartialEq, Eq)]
pub struct PageSpan {
    /// Where in the page buffer the part begins.
    pub buffer_offset: usize,
    /// Where in the written bytes the part begins.
    pub source_offset: usize,
    /// How many bytes the part has.
    pub count: usize,
}

/// The first address that both the write `address..=last` and the page at
/// `page` cover, if they meet at all.
pub open spec fn span_first(address: int, page: int) -> int {
    if page < address {
        address
    } else {
        page
    }
}

/// The last address that both the write `address..=last` and the page at
/// `page` cover, if they meet at all.
pub open spec fn span_last(last: int, page: int, page_size: int) -> int {
    if last < page + page_size - 1 {
        last
    } else {
        page + page_size - 1
    }
}

/// The part of the write `address..=last` that lands in the page of
/// `page_size` bytes at `page`: nothing where the two do not meet.
pub open spec fn page_span(address: int, last: int, page: int, page_size: int) -> PageSpan {
    let first = span_first(address, page);
    let end = span_last(last, page, page_size);
    if first <= end {
        PageSpan {
            buffer_offset: (first - page) as usize,
            source_offset: (first - address) as usize,
            count: (end - first + 1) as usize,
        }
    } else {
        PageSpan { buffer_offset: 0, source_offset: 0, count: 0 }
    }
}

/// Computes the part of the write `address..=last` that lands in the page of
/// `page_size` bytes at `page`.
pub fn overlay_span(address: u32, last: u32, page: u32, page_size: u32) -> (span: PageSpan)
    ensures
        span == page_span(address as int, last as int, page as int, page_size as int),
        span.buffer_offset + span.count <= page_size,
        address <= last ==> span.source_offset + span.count <= last - address + 1,
{
    let first: u64 = if page < address {
        address as u64
    } else {
        page as u64
    };
    let page_last: u64 = page as u64 + page_size as u64;
    let end_excl: u64 = if (last as u64) + 1 < page_last {
        last as u64 + 1
    } else {
        page_last
    };
    if first < end_excl {
        PageSpan {
            buffer_offset: (first - page as u64) as usize,
            source_offset: (first - address as u64) as usize,
            count: (end_excl - first) as usize,
        }
    } else {
        PageSpan { buffer_offset: 0, source_offset: 0, count: 0 }
    }
}

/// The part that lands in a page, told from the page's side: where the page
/// starts before the write, the part begins `address - page` bytes into the
/// buffer and runs to the end of the page or of the write, whichever comes
/// first; otherwise it begins at the start of the buffer, `page - address`
/// bytes into the write, and runs to the end of the write or of the page.
pub proof fn lemma_page_span(address: int, len: int, page: int, page_size: int)
    requires
        0 <= address,
        0 < len,
        address + len - 1 <= u32::MAX,
        0 <= page <= address + len - 1,
        0 < page_size <= u32::MAX,
        address < page + page_size,
    ensures
        page < address ==> page_span(address, address + len - 1, page, page_size) == (PageSpan {
            buffer_offset: (address - page) as usize,
            source_offset: 0,
            count: vstd::math::min(page_size - (address - page), len) as usize,
        }),
        page >= address ==> page_span(address, address + len - 1, page, page_size) == (PageSpan {
            buffer_offset: 0,
            source_offset: (page - address) as usize,
            count: vstd::math::min(len - (page - address), page_size) as usize,
        }),
{
}

/// How many pages the write of `len` bytes at `address` touches.
pub open spec fn pages_touched(address: int, len: int, page_size: int) -> int {
    (page_of(address + len - 1, page_size) - page_of(address, page_size)) / page_size + 1
}

/// Whether a different page than that of `address` is staged, so that a
/// write at `address` has to flush it first.
pub open spec fn other_page_staged(state: FlashState, address: int) -> bool {
    state.staged is Some && state.staged != Some(page_of(address, state.page_size as int) as u32)
}

/// Whether the page of `address` is staged already, so that a write at
/// `address` need not read it.
pub open spec fn page_already_staged(state: FlashState, address: int) -> bool {
    state.staged == Some(page_of(address, state.page_size as int) as u32)
}

/// Whether `after` has no fault on record that `before` has not.
pub open spec fn no_new_fault(before: FlashState, after: FlashState) -> bool {
    after.faults == before.faults && after.last_fault == before.last_fault
}

/// Whether `after` has one fault more on record than `before`, and that one
/// is the fault of `res`.
pub open spec fn one_new_fault(
    before: FlashState,
    after: FlashState,
    res: Result<(), FlashError>,
) -> bool {
    res is Err && after.faults == before.faults + 1 && after.last_fault == Some(res->Err_0)
}

/// Whether `after` and `res` agree on whether a page read or flush failed:
/// none did where `res` is `Ok`, and otherwise one did, with the fault that
/// `res` names.
pub open spec fn fault_told(
    before: FlashState,
    after: FlashState,
    res: Result<(), FlashError>,
) -> bool {
    if res is Ok {
        no_new_fault(before, after)
    } else {
        one_new_fault(before, after, res)
    }
}

/// Whether the device owes the write of `len` bytes at `address` success:
/// the write is not empty and ends inside the 32-bit address space, every
/// page that it touches lies inside the window, and the device has two page
/// operations in reserve for each touched page and one more for a page that
/// may have to be flushed first.
pub open spec fn write_owed(before: FlashState, address: int, len: int) -> bool {
    &&& 0 < len
    &&& address + len - 1 <= u32::MAX
    &&& before.start <= page_of(address, before.page_size as int)
    &&& page_of(address + len - 1, before.page_size as int) + before.page_size <= before.start
        + before.memory.len()
    &&& before.reserve >= 2 * pages_touched(address, len, before.page_size as int) + 1
}

/// Whether the cell at index `at` lies in a page that the write of `len`
/// bytes at `address` touches, or in the page that is staged before the
/// write.
pub open spec fn in_reach_of_write(before: FlashState, address: int, len: int, at: int) -> bool {
    let cell = before.start + at;
    let page_size = before.page_size as int;
    ||| page_of(address, page_size) <= cell < page_of(address + len - 1, page_size) + page_size
    ||| (before.staged is Some && before.staged->0 <= cell < before.staged->0 + page_size)
}

/// Whether `memory` holds what the cells of `before` hold in every cell out
/// of reach of the write of `len` bytes at `address`.
#[verifier::opaque]
pub open spec fn same_out_of_reach(
    before: FlashState,
    memory: Seq<u8>,
    address: int,
    len: int,
) -> bool {
    forall|at: int|
        0 <= at < before.memory.len() && !in_reach_of_write(before, address, len, at)
            ==> #[trigger] memory[at] == before.memory[at]
}

/// Whether a write of `bytes` at `address` that has stopped at the page at
/// `spoiled` with `kept` bytes written can have left `memory` behind.
///
/// The page at which a write stops is the page that was staged before the
/// write, with nothing written yet, or a page that the write touches, with
/// the bytes below that page written and the bytes from that page on not.
/// Outside that one page the cells hold what was to be flushed before the
/// write, with the written bytes laid over it: pages flushed before keep
/// their new bytes, and pages not yet reached keep their old ones.
#[verifier::opaque]
pub open spec fn stopped_at(
    before: FlashState,
    memory: Seq<u8>,
    address: int,
    bytes: Seq<u8>,
    kept: int,
    spoiled: int,
) -> bool {
    let page_size = before.page_size as int;
    &&& 0 <= kept < bytes.len()
    &&& same_outside(
        splice(before.contents(), address - before.start, bytes.subrange(0, kept)),
        memory,
        spoiled - before.start,
        page_size,
    )
    &&& {
        ||| kept == 0 && before.staged is Some && before.staged->0 == spoiled
        ||| {
            &&& spoiled % page_size == 0
            &&& page_of(address, page_size) <= spoiled <= page_of(
                address + bytes.len() - 1,
                page_size,
            )
            &&& kept == span_first(address, spoiled) - address
        }
    }
}

/// Whether `after` and `res` are what writing `bytes` at `address` makes of
/// the device `before`.
///
/// The device keeps its geometry.  An empty write succeeds and changes
/// nothing.  A write that would run past the last 32-bit address fails with
/// `InvalidAddress` and changes nothing.  A write that the device owes
/// success succeeds.  A write succeeds only if no page read or flush failed;
/// one that fails has stopped at the first page read or flush that failed,
/// hands back that fault, and leaves the pages flushed before with their new
/// bytes and the pages not yet reached with their old ones.  No other write,
/// whether it succeeds or fails, changes a cell outside the pages that it
/// touches and the page that was staged before.  A write that succeeds lies inside the window;
/// afterwards the cells hold what was to be flushed before, with `bytes` laid
/// over it at `address`, the last page of the write is staged and flushed,
/// each touched page has been flushed once, and each has been read once but
/// the first one where it was staged already.
pub open spec fn written(
    before: FlashState,
    after: FlashState,
    address: u32,
    bytes: Seq<u8>,
    res: Result<(), FlashError>,
) -> bool {
    &&& before.same_device(after)
    &&& bytes.len() == 0 ==> res is Ok && after == before
    &&& address + bytes.len() - 1 > u32::MAX ==> res == Err::<(), FlashError>(
        FlashError::InvalidAddress,
    ) && after == before
    &&& bytes.len() > 0 ==> same_out_of_reach(
        before,
        after.memory,
        address as int,
        bytes.len() as int,
    )
    &&& write_owed(before, address as int, bytes.len() as int) ==> res is Ok
    &&& bytes.len() > 0 && address + bytes.len() - 1 <= u32::MAX ==> fault_told(before, after, res)
        && after.reserve + 2 * pages_touched(
        address as int,
        bytes.len() as int,
        before.page_size as int,
    ) + 1 >= before.reserve
    &&& res is Err && bytes.len() > 0 && address + bytes.len() - 1 <= u32::MAX ==> exists|
        kept: int,
        spoiled: int,
    | #[trigger] stopped_at(before, after.memory, address as int, bytes, kept, spoiled)
    &&& res is Ok && bytes.len() > 0 ==> {
        let touched = pages_touched(address as int, bytes.len() as int, before.page_size as int);
        &&& before.holds(address as int, bytes.len() as int)
        &&& after.memory == splice(before.contents(), address - before.start, bytes)
        &&& after.contents() == after.memory
        &&& after.staged == Some(
            page_of(address + bytes.len() - 1, before.page_size as int) as u32,
        )
        &&& after.flushes == before.flushes + touched + (if other_page_staged(
            before,
            address as int,
        ) {
            1int
        } else {
            0int
        })
        &&& after.page_reads == before.page_reads + touched - (if page_already_staged(
            before,
            address as int,
        ) {
            1int
        } else {
            0int
        })
    }
}

/// A flash device with one page buffer.
///
/// The contracts of the required methods are what the write path relies on;
/// a binding has to meet them.  Each says what holds when the hardware did
/// its work, and that the device keeps its geometry and stays usable when it
/// did not.  Success is owed only as far as the device says that it has page
/// operations in reserve; a device that can promise nothing says that it has
/// none.  A page read or flush that fails goes on the device's record, so
/// that a caller can tell which fault a longer operation stopped at.
pub trait Flash {
    /// The device as the contracts speak of it.
    spec fn view(&self) -> FlashState;

    /// What the binding needs to hold of itself between calls.
    spec fn inv(&self) -> bool;

    /// The fault with which reading `len` bytes at `address` ends in the
    /// device's present state, if it ends with one.
    spec fn read_fault(&self, address: u32, len: nat) -> Option<FlashError>;

    /// A usable device has a sound geometry.
    proof fn lemma_inv_wf(&self)
        requires
            self.inv(),
        ensures
            self@.wf(),
    ;

    /// The page size in bytes.
    fn page_size(&self) -> (size: u32)
        requires
            self.inv(),
        ensures
            size == self@.page_size,
    ;

    /// The valid addresses, first and last included.
    fn address_range(&self) -> (range: RangeInclusive<u32>)
        requires
            self.inv(),
        ensures
            range@.start == self@.start,
            range@.end == self@.end(),
            !range@.exhausted,
    ;

    /// The page buffer, for the caller to change.
    fn page_buffer(&mut self) -> (buffer: &mut [u8])
        requires
            old(self).inv(),
        ensures
            buffer@ == old(self)@.buffer,
            final(self)@ == (FlashState { buffer: final(buffer)@, ..old(self)@ }),
            final(buffer)@.len() == buffer@.len() ==> final(self).inv(),
    ;

    /// The address of the page that was last read into the buffer.
    fn current_page(&self) -> (page: &Option<u32>)
        requires
            self.inv(),
        ensures
            *page == self@.staged,
    ;

    /// Unlocks the flash for erasing and programming.
    fn unlock_flash(&mut self) -> (res: Result<(), FlashError>)
        requires
            old(self).inv(),
        ensures
            final(self).inv(),
            final(self)@ == old(self)@,
    ;

    /// Locks the flash against erasing and programming.
    fn lock_flash(&mut self) -> (res: Result<(), FlashError>)
        requires
            old(self).inv(),
        ensures
            final(self).inv(),
            final(self)@ == old(self)@,
    ;

    /// Whether the flash is still busy with an operation.
    fn is_operation_pending(&self) -> (pending: bool)
        requires
            self.inv(),
    ;

    /// Waits until the flash is no longer busy.
    fn busy_wait(&self)
        requires
            self.inv(),
    ;

    /// Erases the page at `page_address`, without asking whether that is
    /// needed.  An address off a page boundary is refused as `UnsafeErase`
    /// and nothing is erased.
    fn erase_page(&mut self, page_address: u32) -> (res: Result<(), FlashError>)
        requires
            old(self).inv(),
        ensures
            final(self).inv(),
            old(self)@.same_device(final(self)@),
            final(self)@.staged == old(self)@.staged,
            final(self)@.buffer == old(self)@.buffer,
            final(self)@.page_reads == old(self)@.page_reads,
            final(self)@.flushes == old(self)@.flushes,
            no_new_fault(old(self)@, final(self)@),
            same_outside(
                old(self)@.memory,
                final(self)@.memory,
                page_address - old(self)@.start,
                old(self)@.page_size as int,
            ),
            page_address % old(self)@.page_size != 0 ==> res == Err::<(), FlashError>(
                FlashError::UnsafeErase,
            ) && final(self)@ == old(self)@,
            res is Ok ==> {
                &&& old(self)@.holds_page(page_address as int)
                &&& final(self)@.memory == splice(
                    old(self)@.memory,
                    page_address - old(self)@.start,
                    repeated(ERASED, old(self)@.page_size as nat),
                )
            },
    ;

    /// Whether the page at `page_address` is erased.  A page that the device
    /// reports as erased is erased.
    fn is_page_erased(&mut self, page_address: u32) -> (erased: bool)
        requires
            old(self).inv(),
        ensures
            final(self).inv(),
            final(self)@ == old(self)@,
            erased ==> old(self)@.holds_page(page_address as int) && old(self)@.page_is_erased(
                page_address as int,
            ),
    ;

    /// Reads the whole page at `page_address` into the buffer.  A device with
    /// a page operation in reserve reads every page of the window; a read
    /// that fails goes on record with its fault.
    fn read_page(&mut self, page_address: u32) -> (res: Result<(), FlashError>)
        requires
            old(self).inv(),
        ensures
            final(self).inv(),
            old(self)@.same_device(final(self)@),
            final(self)@.memory == old(self)@.memory,
            final(self)@.flushes == old(self)@.flushes,
            old(self)@.reserve > 0 && old(self)@.holds_page(page_address as int) ==> res is Ok,
            final(self)@.reserve + 1 >= old(self)@.reserve,
            fault_told(old(self)@, final(self)@, res),
            res is Ok ==> {
                &&& old(self)@.holds_page(page_address as int)
                &&& final(self)@.staged == Some(page_address)
                &&& final(self)@.buffer == old(self)@.bytes_at(
                    page_address as int,
                    old(self)@.page_size as int,
                )
                &&& final(self)@.page_reads == old(self)@.page_reads + 1
            },
    ;

    /// Programs the staged page from the buffer.
    fn write_page(&mut self) -> (res: Result<(), FlashError>)
        requires
            old(self).inv(),
        ensures
            final(self).inv(),
            old(self)@.same_device(final(self)@),
            final(self)@.staged == old(self)@.staged,
            final(self)@.buffer == old(self)@.buffer,
            final(self)@.page_reads == old(self)@.page_reads,
            final(self)@.flushes == old(self)@.flushes,
            no_new_fault(old(self)@, final(self)@),
            old(self)@.same_outside_staged(final(self)@),
            res is Ok ==> old(self)@.staged is Some && final(self)@.memory == old(self)@.contents(),
    ;

    /// The address of the page that holds `address`.
    fn page_address(&self, address: u32) -> (page: u32)
        requires
            self.inv(),
        ensures
            page == page_of(address as int, self@.page_size as int),
    {
        let size = self.page_size();
        proof {
            self.lemma_inv_wf();
            lemma_page_mask(address, size);
        }
        address & !(size - 1)
    }

    /// Saves the buffer to the staged page, erasing and programming only
    /// where that is needed.  A device with a page operation in reserve
    /// flushes; a flush that fails goes on record with its fault.
    fn flush_page(&mut self) -> (res: Result<(), FlashError>)
        requires
            old(self).inv(),
        ensures
            final(self).inv(),
            old(self)@.same_device(final(self)@),
            final(self)@.staged == old(self)@.staged,
            final(self)@.buffer == old(self)@.buffer,
            final(self)@.page_reads == old(self)@.page_reads,
            old(self)@.same_outside_staged(final(self)@),
            old(self)@.reserve > 0 ==> res is Ok,
            final(self)@.reserve + 1 >= old(self)@.reserve,
            fault_told(old(self)@, final(self)@, res),
            res is Ok ==> {
                &&& final(self)@.memory == old(self)@.contents()
                &&& final(self)@.flushes == old(self)@.flushes + 1
            },
    ;

    /// Makes `page` the staged page.  Another page that is staged is flushed
    /// first; `page` is read into the buffer unless it is staged already.
    /// What the cells will hold after the next flush stays as it is.
    ///
    /// Where `page` is staged already, nothing is asked of the device: the
    /// call succeeds and leaves the device as it is.  Otherwise the device
    /// decides, and it owes success where `page` is a page of the window and
    /// it has two page operations in reserve.  When its flush or its read
    /// fails, that fault is handed back, nothing more is asked of the
    /// device, and no cell outside the page that was staged has changed.
    fn stage_page(&mut self, page: u32) -> (res: Result<(), FlashError>)
        requires
            old(self).inv(),
        ensures
            final(self).inv(),
            old(self)@.same_device(final(self)@),
            old(self)@.same_outside_staged(final(self)@),
            old(self)@.staged == Some(page) ==> res is Ok && final(self)@ == old(self)@,
            old(self)@.staged is None ==> final(self)@.memory == old(self)@.memory
                && final(self)@.flushes == old(self)@.flushes,
            old(self)@.reserve >= 2 && old(self)@.holds_page(page as int) ==> res is Ok,
            final(self)@.reserve + 2 >= old(self)@.reserve,
            fault_told(old(self)@, final(self)@, res),
            res is Ok ==> {
                &&& final(self)@.memory == (if old(self)@.staged == Some(page) {
                    old(self)@.memory
                } else {
                    old(self)@.contents()
                })
                &&& final(self)@.staged == Some(page)
                &&& final(self)@.holds_page(page as int)
                &&& final(self)@.contents() == old(self)@.contents()
                &&& final(self)@.flushes == old(self)@.flushes + (if old(self)@.staged is Some
                    && old(self)@.staged != Some(page) {
                    1int
                } else {
                    0int
                })
                &&& final(self)@.page_reads == old(self)@.page_reads + (if old(self)@.staged
                    == Some(page) {
                    0int
                } else {
                    1int
                })
            },
    {
        proof {
            self.lemma_inv_wf();
        }
        let ghost before = self@;
        let staged = *self.current_page();
        match staged {
            Some(current) => {
                if current != page {
                    self.flush_page()?;
                    proof {
                        assert(self@.contents() =~= before.contents());
                    }
                    let ghost flushed = self@;
                    self.read_page(page)?;
                    proof {
                        self.lemma_inv_wf();
                        assert(self@.contents() =~= flushed.memory);
                    }
                }
            },
            None => {
                self.read_page(page)?;
                proof {
                    self.lemma_inv_wf();
                    assert(self@.contents() =~= before.memory);
                }
            },
        }
        Ok(())
    }

    /// Writes `bytes` to the flash at `address`.
    ///
    /// Each page that the write touches is read into the buffer, overlaid
    /// with its part of `bytes`, and flushed when the write moves on to the
    /// next page or ends.  A page that is already staged is not read again.
    /// An empty write touches nothing.  A write that would run past the last
    /// 32-bit address is refused before anything is touched.  A write whose
    /// pages lie inside the window succeeds where the device has two page
    /// operations in reserve for each of them and one more.  When the device
    /// fails, the write stops at that page read or flush and hands back its
    /// fault: pages flushed before stay flushed, and pages not yet reached
    /// stay as they were.
    #[verifier::rlimit(50)]
    fn write_bytes(&mut self, address: u32, bytes: &[u8]) -> (res: Result<(), FlashError>)
        requires
            old(self).inv(),
        ensures
            final(self).inv(),
            written(old(self)@, final(self)@, address, bytes@, res),
    {
        let len = bytes.len();
        if len == 0 {
            return Ok(());
        }
        if len - 1 > (u32::MAX - address) as usize {
            proof {
                lemma_reach_start(self@, address as int, len as int);
            }
            return Err(FlashError::InvalidAddress);
        }
        let last: u32 = address + (len - 1) as u32;
        let page_size = self.page_size();
        let start_page = self.page_address(address);
        let end_page = self.page_address(last);
        let ghost before = self@;
        let ghost base = before.contents();
        let ghost origin = before.start as int;
        let ghost touched = pages_touched(address as int, len as int, page_size as int);
        let ghost extra: int = if other_page_staged(before, address as int) {
            1
        } else {
            0
        };
        let ghost saved: int = if page_already_staged(before, address as int) {
            1
        } else {
            0
        };
        let ghost owed = write_owed(before, address as int, len as int);
        let ghost mut turns: int = 0;
        let ghost mut kept: int = 0;
        let ghost mut spoiled: int = if before.staged is Some {
            before.staged->0 as int
        } else {
            start_page as int
        };
        proof {
            self.lemma_inv_wf();
            lemma_page_of(address as int, page_size as int);
            lemma_page_of(last as int, page_size as int);
            lemma_pages_of_write(address as int, last as int, page_size as int);
            lemma_pages_apart(start_page as int, end_page as int, page_size as int, touched - 1);
            lemma_reach_start(before, address as int, len as int);
            lemma_stopped_start(before, address as int, bytes@);
            assert(bytes@.subrange(0, 0) =~= Seq::<u8>::empty());
            assert(base =~= splice(base, address - origin, bytes@.subrange(0, 0)));
        }
        let mut page = start_page;
        loop
            invariant_except_break
                self@.contents() == splice(
                    base,
                    address - origin,
                    bytes@.subrange(0, span_first(address as int, page as int) - address),
                ),
                turns > 0 ==> (self@.staged matches Some(c) && c == page - page_size),
                turns == 0 ==> self@ == before && page == start_page,
                no_new_fault(before, self@),
                self@.reserve + 2 * turns >= before.reserve,
                turns > 0 ==> self@.flushes == before.flushes + extra + turns - 1,
                turns > 0 ==> self@.page_reads == before.page_reads + turns - saved,
            invariant
                self.inv(),
                before.wf(),
                before.same_device(self@),
                before == old(self)@,
                base == before.contents(),
                origin == before.start,
                len == bytes@.len(),
                len > 0,
                last == address + len - 1,
                page_size == before.page_size,
                0 < page_size,
                start_page == page_of(address as int, page_size as int),
                end_page == page_of(last as int, page_size as int),
                touched == pages_touched(address as int, len as int, page_size as int),
                extra == (if before.staged is Some && before.staged != Some(start_page) {
                    1int
                } else {
                    0int
                }),
                saved == (if before.staged == Some(start_page) {
                    1int
                } else {
                    0int
                }),
                start_page <= address < start_page + page_size,
                end_page <= last < end_page + page_size,
                start_page <= page <= end_page,
                0 <= turns < touched,
                pages_apart(page as int, end_page as int, page_size as int, touched - 1 - turns),
                turns > 0 ==> before.holds(address as int, page - address),
                same_out_of_reach(before, self@.memory, address as int, len as int),
                self@.staged is Some ==> self@.staged == before.staged || start_page
                    <= self@.staged->0 <= end_page,
                owed == write_owed(before, address as int, len as int),
                owed ==> before.holds_page(page as int),
                page % page_size == 0,
                stopped_at(before, self@.memory, address as int, bytes@, kept, spoiled),
                self@.staged is Some ==> self@.staged->0 == spoiled,
            ensures
                no_new_fault(before, self@),
                self@.reserve + 2 * touched >= before.reserve,
                self@.contents() == splice(base, address - origin, bytes@),
                before.holds(address as int, len as int),
                self@.staged == Some(end_page),
                self@.flushes == before.flushes + extra + touched - 1,
                self@.page_reads == before.page_reads + touched - saved,
            decreases touched - turns,
        {
            let ghost at_head = self@;
            let staged = self.stage_page(page);
            proof {
                self.lemma_inv_wf();
                lemma_reach_kept(before, at_head, self@, address as int, len as int);
                lemma_stopped_kept(before, at_head, self@, address as int, bytes@, kept, spoiled);
            }
            staged?;
            proof {
                if at_head.staged != Some(page) {
                    lemma_stopped_staged(
                        before,
                        self@.memory,
                        address as int,
                        bytes@,
                        page as int,
                    );
                    kept = span_first(address as int, page as int) - address;
                    spoiled = page as int;
                }
            }
            let ghost staged_state = self@;
            let span = overlay_span(address, last, page, page_size);
            let buffer = self.page_buffer();
            copy_into(
                buffer,
                span.buffer_offset,
                &bytes[span.source_offset..span.source_offset + span.count],
            );
            proof {
                let done = span_first(address as int, page as int) - address;
                assert(span.source_offset == done);
                assert(span.buffer_offset == address - origin + done - (page - origin));
                lemma_overlay_in_page(
                    base,
                    staged_state.memory,
                    staged_state.buffer,
                    page - origin,
                    address - origin,
                    bytes@,
                    done,
                    span.count as int,
                );
                lemma_pages_apart_step(
                    page as int,
                    end_page as int,
                    page_size as int,
                    touched - 1 - turns,
                );
            }
            if page == end_page {
                proof {
                    assert(bytes@.subrange(0, len as int) =~= bytes@);
                }
                break ;
            }
            page = page + page_size;
            proof {
                turns = turns + 1;
            }
        }
        let ghost overlaid = self@;
        let flushed = self.flush_page();
        proof {
            lemma_reach_kept(before, overlaid, self@, address as int, len as int);
            lemma_stopped_kept(before, overlaid, self@, address as int, bytes@, kept, spoiled);
        }
        flushed?;
        proof {
            assert(self@.contents() =~= self@.memory);
        }
        Ok(())
    }

    /// Reads the bytes from `address` on into `bytes`, as many as `bytes`
    /// takes.
    fn read_bytes(&self, address: u32, bytes: &mut [u8]) -> (res: Result<(), FlashError>)
        requires
            self.inv(),
        ensures
            final(bytes)@.len() == old(bytes)@.len(),
            match self.read_fault(address, old(bytes)@.len()) {
                Some(fault) => res == Err::<(), FlashError>(fault),
                None => res is Ok,
            },
            res is Ok ==> {
                &&& self@.holds(address as int, old(bytes)@.len() as int)
                &&& final(bytes)@ == self@.bytes_at(address as int, old(bytes)@.len() as int)
            },
    ;
}

/// Before anything is asked of the device, a write has stopped nowhere
/// worse than at the page that is staged, or at its first page, with
/// nothing written.
pub proof fn lemma_stopped_start(before: FlashState, address: int, bytes: Seq<u8>)
    requires
        before.wf(),
        0 <= address,
        0 < bytes.len(),
    ensures
        stopped_at(
            before,
            before.memory,
            address,
            bytes,
            0,
            if before.staged is Some {
                before.staged->0 as int
            } else {
                page_of(address, before.page_size as int)
            },
        ),
{
    reveal(stopped_at);
    let page_size = before.page_size as int;
    lemma_page_of(address, page_size);
    lemma_page_of(address + bytes.len() - 1, page_size);
    lemma_pages_of_write(address, address + bytes.len() - 1, page_size);
    let shown = splice(before.contents(), address - before.start, bytes.subrange(0, 0));
    assert(shown =~= before.contents());
}

/// A step that changes cells of the staged page only, taken while the page
/// at which the write would stop is staged, leaves the write stopped there.
pub proof fn lemma_stopped_kept(
    before: FlashState,
    middle: FlashState,
    after: FlashState,
    address: int,
    bytes: Seq<u8>,
    kept: int,
    spoiled: int,
)
    requires
        before.same_device(middle),
        stopped_at(before, middle.memory, address, bytes, kept, spoiled),
        middle.same_outside_staged(after),
        middle.staged is Some ==> middle.staged->0 == spoiled,
    ensures
        stopped_at(before, after.memory, address, bytes, kept, spoiled),
{
    reveal(stopped_at);
    let shown = splice(before.contents(), address - before.start, bytes.subrange(0, kept));
    assert forall|i: int|
        0 <= i < shown.len() && !(spoiled - before.start <= i < spoiled - before.start
            + before.page_size) implies #[trigger] after.memory[i] == shown[i] by {
        assert(after.memory[i] == middle.memory[i]);
    }
}

/// Once a page that the write touches is staged from cells that hold the
/// bytes below it, the write would stop at that page with those bytes
/// written.
pub proof fn lemma_stopped_staged(
    before: FlashState,
    memory: Seq<u8>,
    address: int,
    bytes: Seq<u8>,
    page: int,
)
    requires
        0 < before.page_size,
        0 < bytes.len(),
        page % (before.page_size as int) == 0,
        page_of(address, before.page_size as int) <= page <= page_of(
            address + bytes.len() - 1,
            before.page_size as int,
        ),
        page <= address + bytes.len() - 1,
        memory == splice(
            before.contents(),
            address - before.start,
            bytes.subrange(0, span_first(address, page) - address),
        ),
    ensures
        stopped_at(before, memory, address, bytes, span_first(address, page) - address, page),
{
    reveal(stopped_at);
}

/// What a write that has stopped leaves behind, cell by cell: outside the
/// page at which it stopped, the first `kept` bytes are written and every
/// other cell holds what was to be flushed before the write.
pub proof fn lemma_stopped_cells(
    before: FlashState,
    memory: Seq<u8>,
    address: int,
    bytes: Seq<u8>,
    kept: int,
    spoiled: int,
    at: int,
)
    requires
        stopped_at(before, memory, address, bytes, kept, spoiled),
        0 <= at < before.memory.len(),
        !(spoiled - before.start <= at < spoiled - before.start + before.page_size),
    ensures
        0 <= kept < bytes.len(),
        memory.len() == before.memory.len(),
        address - before.start <= at < address - before.start + kept ==> memory[at] == bytes[at
            - (address - before.start)],
        !(address - before.start <= at < address - before.start + kept) ==> memory[at]
            == before.contents()[at],
{
    reveal(stopped_at);
    let shown = splice(before.contents(), address - before.start, bytes.subrange(0, kept));
    assert(memory[at] == shown[at]);
}

/// Before a write, every cell holds what it holds.
pub proof fn lemma_reach_start(before: FlashState, address: int, len: int)
    ensures
        same_out_of_reach(before, before.memory, address, len),
{
    reveal(same_out_of_reach);
}

/// A step that changes cells of the staged page only, taken while the page
/// of the write's start, the page of its end, one between them or the page
/// staged before the write is staged, changes no cell out of reach of the
/// write.
pub proof fn lemma_reach_kept(
    before: FlashState,
    middle: FlashState,
    after: FlashState,
    address: int,
    len: int,
)
    requires
        before.same_device(middle),
        same_out_of_reach(before, middle.memory, address, len),
        middle.same_outside_staged(after),
        middle.staged is Some ==> middle.staged == before.staged || page_of(
            address,
            before.page_size as int,
        ) <= middle.staged->0 <= page_of(address + len - 1, before.page_size as int),
    ensures
        same_out_of_reach(before, after.memory, address, len),
{
    reveal(same_out_of_reach);
    assert forall|at: int|
        0 <= at < before.memory.len() && !in_reach_of_write(
            before,
            address,
            len,
            at,
        ) implies #[trigger] after.memory[at] == before.memory[at] by {
        assert(after.memory[at] == middle.memory[at]);
    }
}

/// A write, whether it succeeds or fails, changes no cell outside the pages
/// that it touches and the page that was staged before.
pub proof fn lemma_write_keeps_out_of_reach(
    before: FlashState,
    after: FlashState,
    address: u32,
    bytes: Seq<u8>,
    res: Result<(), FlashError>,
    at: int,
)
    requires
        written(before, after, address, bytes, res),
        0 <= at < before.memory.len(),
        bytes.len() == 0 || !in_reach_of_write(before, address as int, bytes.len() as int, at),
    ensures
        after.memory[at] == before.memory[at],
{
    reveal(same_out_of_reach);
}

/// One step of a write: when the cells with the staged page laid over them
/// show the first `done` bytes of the write, then laying the next `count`
/// bytes over the staged page shows the first `done + count` bytes.
pub proof fn lemma_overlay_in_page(
    base: Seq<u8>,
    memory: Seq<u8>,
    buffer: Seq<u8>,
    page_at: int,
    at: int,
    bytes: Seq<u8>,
    done: int,
    count: int,
)
    requires
        base.len() == memory.len(),
        0 <= page_at,
        page_at + buffer.len() <= memory.len(),
        0 <= done,
        0 <= count,
        done + count <= bytes.len(),
        page_at <= at + done,
        at + done + count <= page_at + buffer.len(),
        splice(memory, page_at, buffer) == splice(base, at, bytes.subrange(0, done)),
    ensures
        splice(
            memory,
            page_at,
            splice(buffer, at + done - page_at, bytes.subrange(done, done + count)),
        ) == splice(base, at, bytes.subrange(0, done + count)),
{
    let overlaid = splice(buffer, at + done - page_at, bytes.subrange(done, done + count));
    let shown = splice(memory, page_at, overlaid);
    let wanted = splice(base, at, bytes.subrange(0, done + count));
    assert forall|i: int| 0 <= i < wanted.len() implies shown[i] == wanted[i] by {
        let before = splice(memory, page_at, buffer)[i];
        assert(before == splice(base, at, bytes.subrange(0, done))[i]);
        let slot = i - page_at;
        if 0 <= slot < buffer.len() {
            if at + done - page_at <= slot < at + done - page_at + count {
                assert(overlaid[slot] == bytes.subrange(done, done + count)[slot - (at + done
                    - page_at)]);
            } else {
                assert(overlaid[slot] == buffer[slot]);
            }
        }
    }
    assert(shown =~= wanted);
}

/// A write that succeeds changes the written bytes and no others: inside
/// the written range the cells hold the new bytes, outside it they hold what
/// they held before, or what was waiting in the page buffer to be flushed.
pub proof fn lemma_write_preserves_data(
    before: FlashState,
    after: FlashState,
    address: u32,
    bytes: Seq<u8>,
    at: int,
)
    requires
        before.wf(),
        bytes.len() > 0,
        written(before, after, address, bytes, Ok(())),
        0 <= at < before.memory.len(),
    ensures
        after.memory.len() == before.memory.len(),
        address - before.start <= at < address - before.start + bytes.len() ==> after.memory[at]
            == bytes[at - (address - before.start)],
        !(address - before.start <= at < address - before.start + bytes.len()) ==> after.memory[at]
            == before.contents()[at],
        before.staged is None ==> before.contents()[at] == before.memory[at],
        before.staged is Some && !(before.staged->0 - before.start <= at < before.staged->0
            - before.start + before.page_size) ==> before.contents()[at] == before.memory[at],
        before.staged is Some && before.staged->0 - before.start <= at < before.staged->0
            - before.start + before.page_size ==> before.contents()[at] == before.buffer[at - (
        before.staged->0 - before.start)],
{
}

/// After a write that succeeds, the cells at the written address hold the
/// written bytes.
pub proof fn lemma_read_after_write(
    before: FlashState,
    after: FlashState,
    address: u32,
    bytes: Seq<u8>,
)
    requires
        before.wf(),
        bytes.len() > 0,
        written(before, after, address, bytes, Ok(())),
    ensures
        after.holds(address as int, bytes.len() as int),
        after.bytes_at(address as int, bytes.len() as int) == bytes,
{
    assert(after.bytes_at(address as int, bytes.len() as int) =~= bytes);
}

/// Writing to a device the bytes that it holds, with nothing waiting to be
/// flushed, leaves the cells as they are.
pub proof fn lemma_write_same_bytes(before: FlashState, after: FlashState, address: u32, len: nat)
    requires
        before.wf(),
        len > 0,
        before.holds(address as int, len as int),
        before.contents() == before.memory,
        written(before, after, address, before.bytes_at(address as int, len as int), Ok(())),
    ensures
        after.memory == before.memory,
{
    assert(after.memory =~= before.memory);
}

/// What follows from a power-of-two page size: masking the low bits of an
/// address rounds it down to its page.
pub proof fn lemma_page_mask(address: u32, page_size: u32)
    requires
        is_power_of_two(page_size),
    ensures
        address & !((page_size - 1) as u32) == page_of(address as int, page_size as int),
{
    lemma_power_of_two_cases(page_size);
    lemma_low_bits(address);
    lemma_mask_parts(address, page_size);
}

/// There are 32 powers of two among the 32-bit numbers.
proof fn lemma_power_of_two_cases(n: u32)
    by (bit_vector)
    requires
        n != 0 && n & ((n - 1) as u32) == 0,
    ensures
        n == 0x1 || n == 0x2 || n == 0x4 || n == 0x8 || n == 0x10 || n == 0x20 || n == 0x40 || n
            == 0x80 || n == 0x100 || n == 0x200 || n == 0x400 || n == 0x800 || n == 0x1000 || n
            == 0x2000 || n == 0x4000 || n == 0x8000 || n == 0x10000 || n == 0x20000 || n == 0x40000
            || n == 0x80000 || n == 0x100000 || n == 0x200000 || n == 0x400000 || n == 0x800000 || n
            == 0x1000000 || n == 0x2000000 || n == 0x4000000 || n == 0x8000000 || n == 0x10000000
            || n == 0x20000000 || n == 0x40000000 || n == 0x80000000,
{
}

/// The remainder by a power of two is what the low bits hold.
proof fn lemma_low_bits(a: u32)
    by (bit_vector)
    ensures
        a % 0x1u32 == a & 0x0u32,
        a % 0x2u32 == a & 0x1u32,
        a % 0x4u32 == a & 0x3u32,
        a % 0x8u32 == a & 0x7u32,
        a % 0x10u32 == a & 0xfu32,
        a % 0x20u32 == a & 0x1fu32,
        a % 0x40u32 == a & 0x3fu32,
        a % 0x80u32 == a & 0x7fu32,
        a % 0x100u32 == a & 0xffu32,
        a % 0x200u32 == a & 0x1ffu32,
        a % 0x400u32 == a & 0x3ffu32,
        a % 0x800u32 == a & 0x7ffu32,
        a % 0x1000u32 == a & 0xfffu32,
        a % 0x2000u32 == a & 0x1fffu32,
        a % 0x4000u32 == a & 0x3fffu32,
        a % 0x8000u32 == a & 0x7fffu32,
        a % 0x10000u32 == a & 0xffffu32,
        a % 0x20000u32 == a & 0x1ffffu32,
        a % 0x40000u32 == a & 0x3ffffu32,
        a % 0x80000u32 == a & 0x7ffffu32,
        a % 0x100000u32 == a & 0xfffffu32,
        a % 0x200000u32 == a & 0x1fffffu32,
        a % 0x400000u32 == a & 0x3fffffu32,
        a % 0x800000u32 == a & 0x7fffffu32,
        a % 0x1000000u32 == a & 0xffffffu32,
        a % 0x2000000u32 == a & 0x1ffffffu32,
        a % 0x4000000u32 == a & 0x3ffffffu32,
        a % 0x8000000u32 == a & 0x7ffffffu32,
        a % 0x10000000u32 == a & 0xfffffffu32,
        a % 0x20000000u32 == a & 0x1fffffffu32,
        a % 0x40000000u32 == a & 0x3fffffffu32,
        a % 0x80000000u32 == a & 0x7fffffffu32,
{
}

/// A number is the sum of what a mask keeps and what it drops.
proof fn lemma_mask_parts(a: u32, n: u32)
    by (bit_vector)
    requires
        n != 0,
    ensures
        (a & !((n - 1) as u32)) + (a & ((n - 1) as u32)) == a,
{
}

/// An address lies in its page, and a page address is a multiple of the page
/// size.
pub proof fn lemma_page_of(address: int, page_size: int)
    requires
        0 <= address,
        0 < page_size,
    ensures
        0 <= page_of(address, page_size) <= address < page_of(address, page_size) + page_size,
        page_of(address, page_size) % page_size == 0,
{
    vstd::arithmetic::div_mod::lemma_fundamental_div_mod(address, page_size);
    vstd::arithmetic::div_mod::lemma_mod_bound(address, page_size);
    vstd::arithmetic::div_mod::lemma_mod_multiples_basic(address / page_size, page_size);
    vstd::arithmetic::mul::lemma_mul_is_commutative(address / page_size, page_size);
}

/// Whether the page at `later` lies `steps` whole pages after the page at
/// `page`.
#[verifier::opaque]
pub open spec fn pages_apart(page: int, later: int, page_size: int, steps: int) -> bool {
    0 <= steps && later == page + steps * page_size
}

/// The last page of a write lies as many pages after its first page as the
/// write touches pages, less one.
pub proof fn lemma_pages_of_write(address: int, last: int, page_size: int)
    requires
        0 <= address <= last,
        0 < page_size,
    ensures
        page_of(address, page_size) <= page_of(last, page_size),
        pages_touched(address, last - address + 1, page_size) >= 1,
        page_of(last, page_size) == page_of(address, page_size) + (pages_touched(
            address,
            last - address + 1,
            page_size,
        ) - 1) * page_size,
{
    let first_page = page_of(address, page_size);
    let last_page = page_of(last, page_size);
    lemma_page_of(address, page_size);
    lemma_page_of(last, page_size);
    if last_page < first_page {
        lemma_next_page(last_page, first_page, page_size);
    }
    vstd::arithmetic::div_mod::lemma_fundamental_div_mod(first_page, page_size);
    vstd::arithmetic::div_mod::lemma_fundamental_div_mod(last_page, page_size);
    let p = first_page / page_size;
    let q = last_page / page_size;
    assert(last_page - first_page == page_size * (q - p)) by (nonlinear_arith)
        requires
            first_page == page_size * p,
            last_page == page_size * q,
    ;
    vstd::arithmetic::div_mod::lemma_div_multiples_vanish(q - p, page_size);
    vstd::arithmetic::mul::lemma_mul_is_commutative(q - p, page_size);
    assert(0 <= q - p) by (nonlinear_arith)
        requires
            0 <= page_size * (q - p),
            0 < page_size,
    ;
}

/// Two pages of which one lies `steps` page sizes after the other are that
/// many pages apart.
pub proof fn lemma_pages_apart(page: int, later: int, page_size: int, steps: int)
    requires
        0 <= steps,
        later == page + steps * page_size,
    ensures
        pages_apart(page, later, page_size, steps),
{
    reveal(pages_apart);
}

/// From a page that is some pages before another, the next page is one page
/// nearer; only a page that is no page before another is that page.
pub proof fn lemma_pages_apart_step(page: int, later: int, page_size: int, steps: int)
    requires
        0 < page_size,
        pages_apart(page, later, page_size, steps),
    ensures
        page <= later,
        page == later <==> steps == 0,
        steps > 0 ==> page + page_size <= later && pages_apart(
            page + page_size,
            later,
            page_size,
            steps - 1,
        ),
        page % page_size == 0 ==> (page + page_size) % page_size == 0,
{
    reveal(pages_apart);
    vstd::arithmetic::div_mod::lemma_mod_add_multiples_vanish(page, page_size);
    assert(steps > 0 ==> steps * page_size >= page_size) by (nonlinear_arith)
        requires
            0 < page_size,
    ;
    assert(steps * page_size == (steps - 1) * page_size + page_size) by (nonlinear_arith);
    assert(steps == 0 ==> steps * page_size == 0) by (nonlinear_arith);
}

/// Of two page addresses, the higher one is at least one page further on,
/// and one page further on from a page address is a page address again.
pub proof fn lemma_next_page(page: int, later: int, page_size: int)
    requires
        0 < page_size,
        0 <= page,
        page % page_size == 0,
        later % page_size == 0,
        page < later,
    ensures
        page + page_size <= later,
        (page + page_size) % page_size == 0,
{
    vstd::arithmetic::div_mod::lemma_fundamental_div_mod(page, page_size);
    vstd::arithmetic::div_mod::lemma_fundamental_div_mod(later, page_size);
    let p = page / page_size;
    let q = later / page_size;
    assert(page == page_size * p);
    assert(later == page_size * q);
    assert(p < q) by (nonlinear_arith)
        requires
            page_size * p < page_size * q,
            0 < page_size,
    ;
    assert(page_size * (p + 1) <= page_size * q) by (nonlinear_arith)
        requires
            p + 1 <= q,
            0 < page_size,
    ;
    assert(page_size * (p + 1) == page_size * p + page_size) by (nonlinear_arith);
    vstd::arithmetic::div_mod::lemma_mod_multiples_basic(p + 1, page_size);
    vstd::arithmetic::mul::lemma_mul_is_commutative(p + 1, page_size);
}

} // verus!
