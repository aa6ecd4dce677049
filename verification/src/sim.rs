//! A flash device held in memory.
//!
//! `MemFlash` behaves as NOR flash does: erasing a page sets all its bits,
//! programming can only clear bits, and both are refused while the device is
//! locked.  It counts what is done to it, so that a caller can see how many
//! page operations a write has cost, and stops working rather than let a
//! counter wrap.  One page can be worn out, after which it no longer erases.

use crate::flash::{Flash, FlashError, FlashState, ERASED};
use crate::wire::{repeated, splice};
use core::ops::RangeInclusive;
use vstd::prelude::*;

verus! {

/// A flash device held in memory.
pub struct MemFlash {
    page_size: u32,
    start: u32,
    memory: Vec<u8>,
    buffer: Vec<u8>,
    current: Option<u32>,
    unlocked: bool,
    worn: Option<u32>,
    faults: Ghost<nat>,
    last_fault: Ghost<Option<FlashError>>,
    page_reads: u64,
    flushes: u64,
    erases: u64,
    programs: u64,
}

/// Whether a device of `len` bytes at `start` with pages of `page_size`
/// bytes can exist.
pub open spec fn geometry_ok(start: u32, page_size: u32, len: nat) -> bool {
    &&& crate::flash::is_power_of_two(page_size)
    &&& 0 < len <= u32::MAX
    &&& start + len - 1 <= u32::MAX
}

/// Whether programming `wanted` over `cells` gives `wanted`: programming
/// clears bits and sets none.
pub open spec fn programmable(cells: Seq<u8>, wanted: Seq<u8>) -> bool {
    forall|j: int| 0 <= j < wanted.len() ==> cells[j] & #[trigger] wanted[j] == wanted[j]
}

/// Anything can be programmed over erased cells.
pub proof fn lemma_erased_is_programmable(wanted: Seq<u8>)
    ensures
        programmable(repeated(ERASED, wanted.len()), wanted),
{
    assert forall|j: int| 0 <= j < wanted.len() implies repeated(ERASED, wanted.len())[j]
        & #[trigger] wanted[j] == wanted[j] by {
        let w = wanted[j];
        assert(0xFFu8 & w == w) by (bit_vector);
    }
}

/// The least of four numbers.
pub open spec fn least(a: int, b: int, c: int, d: int) -> int {
    vstd::math::min(vstd::math::min(a, b), vstd::math::min(c, d))
}

/// How many page operations a simulator has in reserve: none once a page is
/// worn out, and otherwise as many as the fullest of its four counters has
/// room for.
pub open spec fn reserve_of(
    worn: Option<u32>,
    page_reads: nat,
    flushes: nat,
    erases: nat,
    programs: nat,
) -> nat {
    if worn is Some {
        0
    } else {
        least(
            u64::MAX - page_reads,
            u64::MAX - flushes,
            u64::MAX - erases,
            u64::MAX - programs,
        ) as nat
    }
}

impl MemFlash {
    /// A locked device whose cells hold `image`, the first byte at address
    /// `start`, with nothing staged and all counters at zero; or nothing
    /// where such a device cannot exist.
    pub fn new(start: u32, page_size: u32, image: Vec<u8>) -> (made: Option<MemFlash>)
        ensures
            made is Some <==> geometry_ok(start, page_size, image@.len()),
            made matches Some(flash) ==> {
                &&& flash.inv()
                &&& flash@ == (FlashState {
                    page_size,
                    start,
                    memory: image@,
                    staged: None,
                    buffer: repeated(ERASED, page_size as nat),
                    page_reads: 0,
                    flushes: 0,
                    reserve: u64::MAX as nat,
                    faults: 0,
                    last_fault: None,
                })
                &&& flash.erases() == 0
                &&& flash.programs() == 0
                &&& flash.worn() is None
                &&& !flash.unlocked()
            },
    {
        if page_size == 0 || page_size & (page_size - 1) != 0 {
            return None;
        }
        let len = image.len();
        if len == 0 || len > u32::MAX as usize || len - 1 > (u32::MAX - start) as usize {
            return None;
        }
        let mut buffer: Vec<u8> = Vec::new();
        let mut i: u32 = 0;
        while i < page_size
            invariant
                i <= page_size,
                buffer@ == repeated(ERASED, i as nat),
            decreases page_size - i,
        {
            buffer.push(ERASED);
            i += 1;
            assert(buffer@ =~= repeated(ERASED, i as nat));
        }
        Some(
            MemFlash {
                page_size,
                start,
                memory: image,
                buffer,
                current: None,
                unlocked: false,
                worn: None,
                faults: Ghost(0),
                last_fault: Ghost(None),
                page_reads: 0,
                flushes: 0,
                erases: 0,
                programs: 0,
            },
        )
    }

    /// How many page erases the device has done.
    pub closed spec fn erases(&self) -> nat {
        self.erases as nat
    }

    /// How many page programs the device has done.
    pub closed spec fn programs(&self) -> nat {
        self.programs as nat
    }

    /// Whether the device accepts erasing and programming.
    pub closed spec fn unlocked(&self) -> bool {
        self.unlocked
    }

    /// The address of the page that no longer erases, if there is one.
    pub closed spec fn worn(&self) -> Option<u32> {
        self.worn
    }

    /// How erasing the page at `page_address` ends: an address off a page
    /// boundary is unsafe, a page outside the window is invalid, a locked
    /// device or a full counter is a hardware fault, and a worn page does
    /// not erase.
    pub open spec fn erase_outcome(&self, page_address: u32) -> Result<(), FlashError> {
        if page_address % self@.page_size != 0 {
            Err(FlashError::UnsafeErase)
        } else if !self@.holds_page(page_address as int) {
            Err(FlashError::InvalidAddress)
        } else if !self.unlocked() || self.erases() == u64::MAX {
            Err(FlashError::HardwareError)
        } else if self.worn() == Some(page_address) {
            Err(FlashError::EraseError)
        } else {
            Ok(())
        }
    }

    /// How reading the page at `page_address` into the buffer ends: what is
    /// no page of the window is invalid, and a full counter is a hardware
    /// fault.
    pub open spec fn read_page_outcome(&self, page_address: u32) -> Result<(), FlashError> {
        if !self@.holds_page(page_address as int) {
            Err(FlashError::InvalidAddress)
        } else if self@.page_reads == u64::MAX {
            Err(FlashError::HardwareError)
        } else {
            Ok(())
        }
    }

    /// How programming the staged page ends: with nothing staged there is no
    /// valid address, a locked device or a full counter is a hardware fault,
    /// and a page with a cleared bit that the buffer wants set reads back
    /// wrong.
    pub open spec fn program_outcome(&self) -> Result<(), FlashError> {
        if self@.staged is None {
            Err(FlashError::InvalidAddress)
        } else if !self.unlocked() || self.programs() == u64::MAX {
            Err(FlashError::HardwareError)
        } else if !programmable(
            self@.bytes_at(self@.staged->0 as int, self@.page_size as int),
            self@.buffer,
        ) {
            Err(FlashError::WriteError)
        } else {
            Ok(())
        }
    }

    /// Whether a flush has to program the staged page: the buffer holds
    /// something else than the page.
    pub open spec fn flush_programs(&self) -> bool {
        self@.staged is Some && self@.contents() != self@.memory
    }

    /// Whether a flush has to erase the staged page first: the buffer wants
    /// a bit set that the page has cleared.
    pub open spec fn flush_erases(&self) -> bool {
        self.flush_programs() && !programmable(
            self@.bytes_at(self@.staged->0 as int, self@.page_size as int),
            self@.buffer,
        )
    }

    /// How flushing the buffer ends.  Nothing staged, or a buffer that holds
    /// what the page holds, needs no work.  Otherwise the page is programmed,
    /// after an erase where the buffer wants a cleared bit set; the flush
    /// unlocks the device for that itself.
    pub open spec fn flush_outcome(&self) -> Result<(), FlashError> {
        if self@.flushes == u64::MAX {
            Err(FlashError::HardwareError)
        } else if !self.flush_programs() {
            Ok(())
        } else if !self.flush_erases() {
            if self.programs() == u64::MAX {
                Err(FlashError::HardwareError)
            } else {
                Ok(())
            }
        } else if self.erases() == u64::MAX {
            Err(FlashError::HardwareError)
        } else if self.worn() == self@.staged {
            Err(FlashError::EraseError)
        } else if self.programs() == u64::MAX {
            Err(FlashError::HardwareError)
        } else {
            Ok(())
        }
    }

    /// What the simulator has in reserve is what its counters and its worn
    /// page leave.
    pub proof fn lemma_reserve(&self)
        ensures
            self@.reserve == reserve_of(
                self.worn(),
                self@.page_reads,
                self@.flushes,
                self.erases(),
                self.programs(),
            ),
    {
    }

    /// The simulator owes a write success where the write is not empty,
    /// every page that it touches lies inside the window, no page is worn
    /// out, and each counter has room for two counts for each touched page
    /// and one more.
    pub proof fn lemma_write_is_owed(&self, address: u32, len: nat)
        requires
            self.inv(),
            0 < len,
            address + len - 1 <= u32::MAX,
            self@.start <= crate::flash::page_of(address as int, self@.page_size as int),
            crate::flash::page_of(address + len - 1, self@.page_size as int) + self@.page_size
                <= self@.start + self@.memory.len(),
            self.worn() is None,
            self@.page_reads + 2 * crate::flash::pages_touched(
                address as int,
                len as int,
                self@.page_size as int,
            ) + 1 <= u64::MAX,
            self@.flushes + 2 * crate::flash::pages_touched(
                address as int,
                len as int,
                self@.page_size as int,
            ) + 1 <= u64::MAX,
            self.erases() + 2 * crate::flash::pages_touched(
                address as int,
                len as int,
                self@.page_size as int,
            ) + 1 <= u64::MAX,
            self.programs() + 2 * crate::flash::pages_touched(
                address as int,
                len as int,
                self@.page_size as int,
            ) + 1 <= u64::MAX,
        ensures
            crate::flash::write_owed(self@, address as int, len as int),
    {
    }

    /// Wears out the page at `page_address`: from now on erasing it fails,
    /// and the device has no page operation in reserve.  A page that was
    /// worn out before is as good as new again.
    pub fn wear_out(&mut self, page_address: u32)
        requires
            old(self).inv(),
        ensures
            final(self).inv(),
            final(self)@ == (FlashState { reserve: 0, ..old(self)@ }),
            final(self).worn() == Some(page_address),
            final(self).unlocked() == old(self).unlocked(),
            final(self).erases() == old(self).erases(),
            final(self).programs() == old(self).programs(),
    {
        self.worn = Some(page_address);
    }

    /// What the cells hold, the byte at the first valid address first.
    pub fn memory(&self) -> (cells: &[u8])
        ensures
            cells@ == self@.memory,
    {
        self.memory.as_slice()
    }

    /// How many pages have been read into the buffer.
    pub fn read_count(&self) -> (count: u64)
        ensures
            count == self@.page_reads,
    {
        self.page_reads
    }

    /// How many times the buffer has been flushed.
    pub fn flush_count(&self) -> (count: u64)
        ensures
            count == self@.flushes,
    {
        self.flushes
    }

    /// How many pages have been erased.
    pub fn erase_count(&self) -> (count: u64)
        ensures
            count == self.erases(),
    {
        self.erases
    }

    /// How many pages have been programmed.
    pub fn program_count(&self) -> (count: u64)
        ensures
            count == self.programs(),
    {
        self.programs
    }

    /// Reads the page at `page_address` into the buffer, and leaves it to
    /// the caller to put a fault on record.
    fn read_page_unrecorded(&mut self, page_address: u32) -> (res: Result<(), FlashError>)
        requires
            old(self).inv(),
        ensures
            final(self).inv(),
            res == old(self).read_page_outcome(page_address),
            final(self).page_size == old(self).page_size,
            final(self).start == old(self).start,
            final(self).memory == old(self).memory,
            final(self).unlocked == old(self).unlocked,
            final(self).worn == old(self).worn,
            final(self).faults == old(self).faults,
            final(self).last_fault == old(self).last_fault,
            final(self).flushes == old(self).flushes,
            final(self).erases == old(self).erases,
            final(self).programs == old(self).programs,
            res is Err ==> final(self).current == old(self).current && final(self).buffer == old(
                self,
            ).buffer && final(self).page_reads == old(self).page_reads,
            res is Ok ==> final(self).current == Some(page_address) && final(self).page_reads
                == old(self).page_reads + 1 && final(self).buffer@ == old(self)@.bytes_at(
                page_address as int,
                old(self).page_size as int,
            ),
    {
        if !self.is_page(page_address) {
            return Err(FlashError::InvalidAddress);
        }
        if self.page_reads == u64::MAX {
            return Err(FlashError::HardwareError);
        }
        let base: usize = (page_address - self.start) as usize;
        let size: usize = self.page_size as usize;
        let total = self.memory.len();
        let mut i: usize = 0;
        while i < size
            invariant
                i <= size,
                size == self.page_size,
                base == page_address - self.start,
                total == self.memory@.len(),
                base + size <= total,
                self.buffer@.len() == size,
                forall|j: int| 0 <= j < i ==> #[trigger] self.buffer@[j] == self.memory@[base + j],
                self.page_size == old(self).page_size,
                self.start == old(self).start,
                self.memory == old(self).memory,
                self.current == old(self).current,
                self.unlocked == old(self).unlocked,
                self.faults == old(self).faults,
                self.last_fault == old(self).last_fault,
                self.worn == old(self).worn,
                self.page_reads == old(self).page_reads,
                self.flushes == old(self).flushes,
                self.erases == old(self).erases,
                self.programs == old(self).programs,
            decreases size - i,
        {
            self.buffer[i] = self.memory[base + i];
            i += 1;
        }
        self.current = Some(page_address);
        self.page_reads = self.page_reads + 1;
        proof {
            assert(self.buffer@ =~= old(self)@.bytes_at(page_address as int, size as int));
        }
        Ok(())
    }


    /// Saves the buffer to the staged page, and leaves it to the caller to
    /// put a fault on record.
    fn flush_page_unrecorded(&mut self) -> (res: Result<(), FlashError>)
        requires
            old(self).inv(),
        ensures
            final(self).inv(),
            old(self)@.same_device(final(self)@),
            final(self)@.staged == old(self)@.staged,
            final(self)@.buffer == old(self)@.buffer,
            final(self)@.page_reads == old(self)@.page_reads,
            final(self)@.faults == old(self)@.faults,
            final(self)@.last_fault == old(self)@.last_fault,
            old(self)@.same_outside_staged(final(self)@),
            res is Ok ==> final(self)@.memory == old(self)@.contents() && final(self)@.flushes
                == old(self)@.flushes + 1,
            !final(self).unlocked(),
            final(self).worn() == old(self).worn(),
            res == old(self).flush_outcome(),
            res is Ok ==> final(self).programs() == old(self).programs() + (if old(
                self,
            ).flush_programs() {
                1int
            } else {
                0int
            }),
            res is Ok ==> final(self).erases() == old(self).erases() + (if old(self).flush_erases() {
                1int
            } else {
                0int
            }),
    {
        self.unlocked = false;
        if self.flushes == u64::MAX {
            return Err(FlashError::HardwareError);
        }
        let page = match self.current {
            Some(page) => page,
            None => {
                self.flushes = self.flushes + 1;
                return Ok(());
            },
        };
        let base: usize = (page - self.start) as usize;
        let size: usize = self.page_size as usize;
        let total = self.memory.len();
        let ghost cells = self@.bytes_at(page as int, size as int);
        let mut same = true;
        let mut fits = true;
        let mut i: usize = 0;
        while i < size
            invariant
                i <= size,
                size == self.page_size,
                base == page - self.start,
                total == self.memory@.len(),
                base + size <= total,
                self.buffer@.len() == size,
                cells == self.memory@.subrange(base as int, base + size),
                same <==> forall|j: int|
                    0 <= j < i ==> self.memory@[base + j] == #[trigger] self.buffer@[j],
                fits <==> forall|j: int|
                    0 <= j < i ==> cells[j] & #[trigger] self.buffer@[j] == self.buffer@[j],
            decreases size - i,
        {
            let cell = self.memory[base + i];
            let wanted = self.buffer[i];
            assert(cell == cells[i as int]);
            if cell != wanted {
                same = false;
            }
            if cell & wanted != wanted {
                fits = false;
            }
            i += 1;
        }
        if same {
            proof {
                assert(self.memory@ =~= self@.contents());
            }
            self.flushes = self.flushes + 1;
            return Ok(());
        }
        proof {
            assert(self@.contents() != self@.memory) by {
                let j = choose|j: int|
                    0 <= j < size && self.memory@[base + j] != #[trigger] self.buffer@[j];
                assert(self@.contents()[base + j] == self.buffer@[j]);
            }
        }
        self.unlocked = true;
        let ghost wanted = self@.contents();
        if !fits {
            match self.erase_page(page) {
                Ok(()) => {},
                Err(fault) => {
                    self.unlocked = false;
                    return Err(fault);
                },
            }
            proof {
                assert(self@.contents() =~= wanted);
                assert(self@.bytes_at(page as int, size as int) =~= repeated(ERASED, size as nat));
                lemma_erased_is_programmable(self.buffer@);
            }
        }
        let programmed = self.write_page();
        self.unlocked = false;
        match programmed {
            Ok(()) => {
                self.flushes = self.flushes + 1;
                Ok(())
            },
            Err(fault) => Err(fault),
        }
    }


    /// Whether `page` is the address of a page inside the window.
    fn is_page(&self, page: u32) -> (yes: bool)
        requires
            self.inv(),
        ensures
            yes == self@.holds_page(page as int),
    {
        page % self.page_size == 0 && page >= self.start && (page - self.start) as u64
            + self.page_size as u64 <= self.memory.len() as u64
    }
}

impl Flash for MemFlash {
    closed spec fn view(&self) -> FlashState {
        FlashState {
            page_size: self.page_size,
            start: self.start,
            memory: self.memory@,
            staged: self.current,
            buffer: self.buffer@,
            page_reads: self.page_reads as nat,
            flushes: self.flushes as nat,
            reserve: reserve_of(
                self.worn,
                self.page_reads as nat,
                self.flushes as nat,
                self.erases as nat,
                self.programs as nat,
            ),
            faults: self.faults@,
            last_fault: self.last_fault@,
        }
    }

    closed spec fn inv(&self) -> bool {
        self@.wf()
    }

    /// Reading fails on addresses outside the window, and only there.
    open spec fn read_fault(&self, address: u32, len: nat) -> Option<FlashError> {
        if self@.holds(address as int, len as int) {
            None
        } else {
            Some(FlashError::InvalidAddress)
        }
    }

    proof fn lemma_inv_wf(&self) {
    }

    fn page_size(&self) -> (size: u32) {
        self.page_size
    }

    fn address_range(&self) -> (range: RangeInclusive<u32>) {
        let last: u32 = self.start + (self.memory.len() - 1) as u32;
        RangeInclusive::new(self.start, last)
    }

    fn page_buffer(&mut self) -> (buffer: &mut [u8]) {
        self.buffer.as_mut_slice()
    }

    fn current_page(&self) -> (page: &Option<u32>) {
        &self.current
    }

    fn unlock_flash(&mut self) -> (res: Result<(), FlashError>)
        ensures
            res is Ok,
            final(self).unlocked(),
            final(self).worn() == old(self).worn(),
            final(self).erases() == old(self).erases(),
            final(self).programs() == old(self).programs(),
    {
        self.unlocked = true;
        Ok(())
    }

    fn lock_flash(&mut self) -> (res: Result<(), FlashError>)
        ensures
            res is Ok,
            !final(self).unlocked(),
            final(self).worn() == old(self).worn(),
            final(self).erases() == old(self).erases(),
            final(self).programs() == old(self).programs(),
    {
        self.unlocked = false;
        Ok(())
    }

    fn is_operation_pending(&self) -> (pending: bool)
        ensures
            !pending,
    {
        false
    }

    fn busy_wait(&self) {
    }

    fn erase_page(&mut self, page_address: u32) -> (res: Result<(), FlashError>)
        ensures
            final(self).unlocked() == old(self).unlocked(),
            final(self).worn() == old(self).worn(),
            final(self).programs() == old(self).programs(),
            res is Ok ==> final(self).erases() == old(self).erases() + 1,
            res is Err ==> final(self)@ == old(self)@ && final(self).erases() == old(self).erases(),
            res == old(self).erase_outcome(page_address),
    {
        if page_address % self.page_size != 0 {
            return Err(FlashError::UnsafeErase);
        }
        if !self.is_page(page_address) {
            return Err(FlashError::InvalidAddress);
        }
        if !self.unlocked || self.erases == u64::MAX {
            return Err(FlashError::HardwareError);
        }
        if self.worn == Some(page_address) {
            return Err(FlashError::EraseError);
        }
        let base: usize = (page_address - self.start) as usize;
        let size: usize = self.page_size as usize;
        let total = self.memory.len();
        let mut i: usize = 0;
        while i < size
            invariant
                i <= size,
                size == self.page_size,
                total == self.memory@.len(),
                base + size <= total,
                self.memory@ == splice(old(self).memory@, base as int, repeated(ERASED, i as nat)),
                self.page_size == old(self).page_size,
                self.start == old(self).start,
                self.buffer == old(self).buffer,
                self.current == old(self).current,
                self.unlocked == old(self).unlocked,
                self.faults == old(self).faults,
                self.last_fault == old(self).last_fault,
                self.worn == old(self).worn,
                self.page_reads == old(self).page_reads,
                self.flushes == old(self).flushes,
                self.erases == old(self).erases,
                self.programs == old(self).programs,
            decreases size - i,
        {
            self.memory[base + i] = ERASED;
            i += 1;
            assert(self.memory@ =~= splice(
                old(self).memory@,
                base as int,
                repeated(ERASED, i as nat),
            ));
        }
        self.erases = self.erases + 1;
        Ok(())
    }

    fn is_page_erased(&mut self, page_address: u32) -> (erased: bool)
        ensures
            erased <==> old(self)@.holds_page(page_address as int) && old(self)@.page_is_erased(
                page_address as int,
            ),
            final(self).unlocked() == old(self).unlocked(),
            final(self).worn() == old(self).worn(),
            final(self).erases() == old(self).erases(),
            final(self).programs() == old(self).programs(),
    {
        if !self.is_page(page_address) {
            return false;
        }
        let base: usize = (page_address - self.start) as usize;
        let size: usize = self.page_size as usize;
        let total = self.memory.len();
        let mut i: usize = 0;
        while i < size
            invariant
                i <= size,
                size == self.page_size,
                base == page_address - self.start,
                total == self.memory@.len(),
                base + size <= total,
                forall|j: int| base <= j < base + i ==> self.memory@[j] == ERASED,
                *self == *old(self),
                self.inv(),
            decreases size - i,
        {
            if self.memory[base + i] != ERASED {
                proof {
                    let page = self@.bytes_at(page_address as int, size as int);
                    assert(page[i as int] != ERASED);
                    assert(repeated(ERASED, size as nat)[i as int] == ERASED);
                }
                return false;
            }
            i += 1;
        }
        proof {
            assert(self@.bytes_at(page_address as int, size as int) =~= repeated(
                ERASED,
                size as nat,
            ));
        }
        true
    }

    fn read_page(&mut self, page_address: u32) -> (res: Result<(), FlashError>)
        ensures
            final(self).unlocked() == old(self).unlocked(),
            final(self).worn() == old(self).worn(),
            final(self).erases() == old(self).erases(),
            final(self).programs() == old(self).programs(),
            res is Err ==> final(self)@ == (FlashState {
                faults: old(self)@.faults + 1,
                last_fault: Some(res->Err_0),
                ..old(self)@
            }),
            res == old(self).read_page_outcome(page_address),
    {
        let res = self.read_page_unrecorded(page_address);
        if let Err(fault) = res {
            self.faults = Ghost(self.faults@ + 1);
            self.last_fault = Ghost(Some(fault));
        }
        res
    }

    fn write_page(&mut self) -> (res: Result<(), FlashError>)
        ensures
            final(self).unlocked() == old(self).unlocked(),
            final(self).worn() == old(self).worn(),
            final(self).erases() == old(self).erases(),
            res is Ok ==> final(self).programs() == old(self).programs() + 1,
            old(self)@.staged is None || !old(self).unlocked() || old(self).programs() == u64::MAX
                ==> final(self)@ == old(self)@ && final(self).programs() == old(self).programs(),
            res == old(self).program_outcome(),
    {
        let page = match self.current {
            Some(page) => page,
            None => {
                return Err(FlashError::InvalidAddress);
            },
        };
        if !self.unlocked || self.programs == u64::MAX {
            return Err(FlashError::HardwareError);
        }
        let base: usize = (page - self.start) as usize;
        let size: usize = self.page_size as usize;
        let total = self.memory.len();
        let ghost cells = self@.bytes_at(page as int, size as int);
        let mut clean = true;
        let mut i: usize = 0;
        while i < size
            invariant
                i <= size,
                size == self.page_size,
                base == page - self.start,
                total == self.memory@.len(),
                base + size <= total,
                self.buffer@.len() == size,
                self.memory@.len() == old(self).memory@.len(),
                cells == old(self).memory@.subrange(base as int, base + size),
                clean <==> forall|j: int|
                    0 <= j < i ==> cells[j] & #[trigger] self.buffer@[j] == self.buffer@[j],
                clean ==> forall|j: int|
                    0 <= j < i ==> self.memory@[base + j] == #[trigger] self.buffer@[j],
                forall|j: int|
                    0 <= j < self.memory@.len() && !(base <= j < base + i) ==> self.memory@[j]
                        == old(self).memory@[j],
                self.page_size == old(self).page_size,
                self.start == old(self).start,
                self.buffer == old(self).buffer,
                self.current == old(self).current,
                self.unlocked == old(self).unlocked,
                self.faults == old(self).faults,
                self.last_fault == old(self).last_fault,
                self.worn == old(self).worn,
                self.page_reads == old(self).page_reads,
                self.flushes == old(self).flushes,
                self.erases == old(self).erases,
                self.programs == old(self).programs,
            decreases size - i,
        {
            let cell = self.memory[base + i];
            let wanted = self.buffer[i];
            let programmed = cell & wanted;
            assert(cell == cells[i as int]);
            let ghost was_clean = clean;
            self.memory[base + i] = programmed;
            if programmed != wanted {
                clean = false;
            }
            assert(wanted == self.buffer@[i as int]);
            assert(clean <==> was_clean && (cells[i as int] & self.buffer@[i as int]
                == self.buffer@[i as int]));
            i += 1;
        }
        self.programs = self.programs + 1;
        if !clean {
            return Err(FlashError::WriteError);
        }
        proof {
            assert(self.memory@ =~= old(self)@.contents());
        }
        Ok(())
    }

    fn flush_page(&mut self) -> (res: Result<(), FlashError>)
        ensures
            !final(self).unlocked(),
            final(self).worn() == old(self).worn(),
            res == old(self).flush_outcome(),
            res is Ok ==> final(self).programs() == old(self).programs() + (if old(
                self,
            ).flush_programs() {
                1int
            } else {
                0int
            }),
            res is Ok ==> final(self).erases() == old(self).erases() + (if old(self).flush_erases() {
                1int
            } else {
                0int
            }),
    {
        let res = self.flush_page_unrecorded();
        if let Err(fault) = res {
            self.faults = Ghost(self.faults@ + 1);
            self.last_fault = Ghost(Some(fault));
        }
        res
    }

    fn read_bytes(&self, address: u32, bytes: &mut [u8]) -> (res: Result<(), FlashError>) {
        let len = bytes.len();
        if address < self.start || len > self.memory.len() || (address - self.start) as usize
            > self.memory.len() - len {
            return Err(FlashError::InvalidAddress);
        }
        let base: usize = (address - self.start) as usize;
        let total = self.memory.len();
        let mut i: usize = 0;
        while i < len
            invariant
                i <= len,
                total == self.memory@.len(),
                len == bytes@.len(),
                len == old(bytes)@.len(),
                base == address - self.start,
                base + len <= total,
                forall|j: int| 0 <= j < i ==> #[trigger] bytes@[j] == self.memory@[base + j],
            decreases len - i,
        {
            bytes[i] = self.memory[base + i];
            i += 1;
        }
        proof {
            assert(bytes@ =~= self@.bytes_at(address as int, len as int));
        }
        Ok(())
    }
}

} // verus!
