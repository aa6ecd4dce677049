//! The transfer block: the 512-byte record in which firmware travels through
//! the volume's dynamic file, 256 payload bytes at a time.
//!
//! A sector is accepted as a transfer block when it is exactly 512 bytes
//! long, carries the three magic numbers, names an accepted family and a
//! payload of at most 256 bytes.  Anything else is not a transfer block, and
//! is no error: hosts write other sectors to the volume all the time.

use crate::flash::{written, Flash, FlashError};
use crate::geometry::{BLOCK_SIZE, UF2_BLOCK_SIZE};
use crate::records::PackingError;
use crate::wire::{copy_into, le32, le32_value, lemma_le32_injective, lemma_le32_read_back,
    lemma_le32_write_back, read_array, read_le32, splice, write_le32, zeros};
use vstd::prelude::*;

verus! {

/// The first magic number, at the start of a block.
pub const UF2_MAGIC_START0: u32 = 0x0A324655;

/// The second magic number, behind the first.
pub const UF2_MAGIC_START1: u32 = 0x9E5D5157;

/// The magic number at the end of a block.
pub const UF2_MAGIC_END: u32 = 0x0AB16F30;

/// Bytes of the data field of a block.
pub const UF2_DATA_SIZE: usize = 476;

/// A transfer block.
#[derive(Clone, Copy, Debug, PartialEq, Eq)]
pub struct TransferBlock {
    /// The first magic number.
    pub magic_start_0: u32,
    /// The second magic number.
    pub magic_start_1: u32,
    /// Flag bits.
    pub flags: u32,
    /// The flash address that the payload belongs to.
    pub target_address: u32,
    /// Bytes of the data field that are payload.
    pub payload_size: u32,
    /// The number of this block in its file, counted from zero.
    pub block_number: u32,
    /// Blocks in the file.
    pub number_of_blocks: u32,
    /// The family that the firmware is for, or the size of the file.
    pub file_size_or_family_id: u32,
    /// The payload, then padding.
    pub data: [u8; 476],
    /// The final magic number.
    pub magic_end: u32,
}

/// Whether firmware for the family `id` is taken.  Every family is.
pub open spec fn family_accepted(id: u32) -> bool {
    true
}

/// Whether `block` is for a family whose firmware is taken.
pub fn uf2_family_is_correct(block: &TransferBlock) -> (correct: bool)
    ensures
        correct == family_accepted(block.file_size_or_family_id),
{
    true
}

impl TransferBlock {
    /// The number of bytes that a block packs to.
    pub const BYTES: usize = 512;

    /// The 512 bytes of the block.
    pub open spec fn packed(self) -> Seq<u8> {
        le32(self.magic_start_0) + le32(self.magic_start_1) + le32(self.flags) + le32(
            self.target_address,
        ) + le32(self.payload_size) + le32(self.block_number) + le32(self.number_of_blocks) + le32(
            self.file_size_or_family_id,
        ) + self.data@ + le32(self.magic_end)
    }

    /// Whether the block carries the magic numbers, an accepted family and a
    /// payload of at most 256 bytes.
    pub open spec fn is_valid(self) -> bool {
        &&& self.magic_start_0 == UF2_MAGIC_START0
        &&& self.magic_start_1 == UF2_MAGIC_START1
        &&& self.magic_end == UF2_MAGIC_END
        &&& family_accepted(self.file_size_or_family_id)
        &&& self.payload_size <= UF2_BLOCK_SIZE
    }

    /// The payload: the first `payload_size` bytes of the data field.
    pub open spec fn payload(self) -> Seq<u8> {
        self.data@.subrange(0, self.payload_size as int)
    }

    /// Where each field stands among the 512 bytes.
    pub proof fn lemma_layout(self)
        ensures
            self.packed().len() == Self::BYTES,
            self.packed().subrange(0, 4) == le32(self.magic_start_0),
            self.packed().subrange(4, 8) == le32(self.magic_start_1),
            self.packed().subrange(8, 12) == le32(self.flags),
            self.packed().subrange(12, 16) == le32(self.target_address),
            self.packed().subrange(16, 20) == le32(self.payload_size),
            self.packed().subrange(20, 24) == le32(self.block_number),
            self.packed().subrange(24, 28) == le32(self.number_of_blocks),
            self.packed().subrange(28, 32) == le32(self.file_size_or_family_id),
            self.packed().subrange(32, 508) == self.data@,
            self.packed().subrange(508, 512) == le32(self.magic_end),
    {
        crate::wire::lemma_le_len();
        let p = self.packed();
        assert(p.subrange(0, 4) =~= le32(self.magic_start_0));
        assert(p.subrange(4, 8) =~= le32(self.magic_start_1));
        assert(p.subrange(8, 12) =~= le32(self.flags));
        assert(p.subrange(12, 16) =~= le32(self.target_address));
        assert(p.subrange(16, 20) =~= le32(self.payload_size));
        assert(p.subrange(20, 24) =~= le32(self.block_number));
        assert(p.subrange(24, 28) =~= le32(self.number_of_blocks));
        assert(p.subrange(28, 32) =~= le32(self.file_size_or_family_id));
        assert(p.subrange(32, 508) =~= self.data@);
        assert(p.subrange(508, 512) =~= le32(self.magic_end));
    }

    /// Unpacking inverts packing: blocks with the same bytes agree in every
    /// field.
    pub proof fn lemma_round_trip(self, other: TransferBlock)
        requires
            self.packed() == other.packed(),
        ensures
            self == other,
    {
        self.lemma_layout();
        other.lemma_layout();
        lemma_le32_injective(self.magic_start_0, other.magic_start_0);
        lemma_le32_injective(self.magic_start_1, other.magic_start_1);
        lemma_le32_injective(self.flags, other.flags);
        lemma_le32_injective(self.target_address, other.target_address);
        lemma_le32_injective(self.payload_size, other.payload_size);
        lemma_le32_injective(self.block_number, other.block_number);
        lemma_le32_injective(self.number_of_blocks, other.number_of_blocks);
        lemma_le32_injective(self.file_size_or_family_id, other.file_size_or_family_id);
        lemma_le32_injective(self.magic_end, other.magic_end);
        assert(self.data =~= other.data);
    }

    /// Packing and then unpacking gives the block back: whatever unpacks
    /// from a buffer into which `self` was packed is `self`.
    pub proof fn lemma_pack_then_unpack(self, buffer: Seq<u8>, unpacked: TransferBlock)
        requires
            buffer.len() >= Self::BYTES,
            unpacked.packed() == splice(buffer, 0, self.packed()).subrange(0, Self::BYTES as int),
        ensures
            unpacked == self,
    {
        self.lemma_layout();
        assert(splice(buffer, 0, self.packed()).subrange(0, Self::BYTES as int)
            =~= self.packed());
        self.lemma_round_trip(unpacked);
    }

    /// Writes the block into the first 512 bytes of `bytes` and leaves the
    /// rest as it is; refuses a shorter buffer, which it leaves untouched.
    pub fn pack(&self, bytes: &mut [u8]) -> (res: Result<(), PackingError>)
        ensures
            old(bytes)@.len() < Self::BYTES ==> res == Err::<(), PackingError>(
                PackingError::InsufficientBytes,
            ) && final(bytes)@ == old(bytes)@,
            old(bytes)@.len() >= Self::BYTES ==> res is Ok && final(bytes)@ == splice(
                old(bytes)@,
                0,
                self.packed(),
            ),
    {
        if bytes.len() < Self::BYTES {
            return Err(PackingError::InsufficientBytes);
        }
        write_le32(bytes, 0, self.magic_start_0);
        write_le32(bytes, 4, self.magic_start_1);
        write_le32(bytes, 8, self.flags);
        write_le32(bytes, 12, self.target_address);
        write_le32(bytes, 16, self.payload_size);
        write_le32(bytes, 20, self.block_number);
        write_le32(bytes, 24, self.number_of_blocks);
        write_le32(bytes, 28, self.file_size_or_family_id);
        copy_into(bytes, 32, &self.data);
        write_le32(bytes, 508, self.magic_end);
        proof {
            self.lemma_layout();
            assert(bytes@ =~= splice(old(bytes)@, 0, self.packed()));
        }
        Ok(())
    }

    /// Reads a block from the first 512 bytes of `bytes`, whatever they
    /// hold; refuses a shorter buffer.
    pub fn unpack(bytes: &[u8]) -> (res: Result<TransferBlock, PackingError>)
        ensures
            bytes@.len() < Self::BYTES ==> res == Err::<TransferBlock, PackingError>(
                PackingError::InsufficientBytes,
            ),
            bytes@.len() >= Self::BYTES ==> res is Ok && res->Ok_0.packed() == bytes@.subrange(
                0,
                Self::BYTES as int,
            ),
    {
        if bytes.len() < Self::BYTES {
            return Err(PackingError::InsufficientBytes);
        }
        let block = TransferBlock {
            magic_start_0: read_le32(bytes, 0),
            magic_start_1: read_le32(bytes, 4),
            flags: read_le32(bytes, 8),
            target_address: read_le32(bytes, 12),
            payload_size: read_le32(bytes, 16),
            block_number: read_le32(bytes, 20),
            number_of_blocks: read_le32(bytes, 24),
            file_size_or_family_id: read_le32(bytes, 28),
            data: read_array::<476>(bytes, 32),
            magic_end: read_le32(bytes, 508),
        };
        proof {
            lemma_le32_write_back(bytes@.subrange(0, 4));
            lemma_le32_write_back(bytes@.subrange(4, 8));
            lemma_le32_write_back(bytes@.subrange(8, 12));
            lemma_le32_write_back(bytes@.subrange(12, 16));
            lemma_le32_write_back(bytes@.subrange(16, 20));
            lemma_le32_write_back(bytes@.subrange(20, 24));
            lemma_le32_write_back(bytes@.subrange(24, 28));
            lemma_le32_write_back(bytes@.subrange(28, 32));
            lemma_le32_write_back(bytes@.subrange(508, 512));
            block.lemma_layout();
            assert(block.packed() =~= bytes@.subrange(0, Self::BYTES as int));
        }
        Ok(block)
    }
}

impl Default for TransferBlock {
    /// The block with the magic numbers in place and every other byte zero.
    fn default() -> (block: TransferBlock)
        ensures
            block.magic_start_0 == UF2_MAGIC_START0,
            block.magic_start_1 == UF2_MAGIC_START1,
            block.flags == 0,
            block.target_address == 0,
            block.payload_size == 0,
            block.block_number == 0,
            block.number_of_blocks == 0,
            block.file_size_or_family_id == 0,
            block.data@ == zeros(UF2_DATA_SIZE as nat),
            block.magic_end == UF2_MAGIC_END,
    {
        let block = TransferBlock {
            magic_start_0: UF2_MAGIC_START0,
            magic_start_1: UF2_MAGIC_START1,
            flags: 0,
            target_address: 0,
            payload_size: 0,
            block_number: 0,
            number_of_blocks: 0,
            file_size_or_family_id: 0,
            data: [0u8; 476],
            magic_end: UF2_MAGIC_END,
        };
        assert(block.data@ =~= zeros(UF2_DATA_SIZE as nat));
        block
    }
}

/// Whether `sector` is taken as a transfer block.
pub open spec fn accepts(sector: Seq<u8>) -> bool {
    &&& sector.len() == BLOCK_SIZE
    &&& le32_value(sector.subrange(0, 4)) == UF2_MAGIC_START0
    &&& le32_value(sector.subrange(4, 8)) == UF2_MAGIC_START1
    &&& le32_value(sector.subrange(508, 512)) == UF2_MAGIC_END
    &&& family_accepted(le32_value(sector.subrange(28, 32)))
    &&& le32_value(sector.subrange(16, 20)) <= UF2_BLOCK_SIZE
}

/// The flash address that the transfer block `sector` names.
pub open spec fn target_of(sector: Seq<u8>) -> u32 {
    le32_value(sector.subrange(12, 16))
}

/// The payload that the transfer block `sector` carries.
pub open spec fn payload_of(sector: Seq<u8>) -> Seq<u8> {
    sector.subrange(32, 32 + le32_value(sector.subrange(16, 20)))
}

/// How many transfer blocks it takes to show a flash window of
/// `window_size` bytes.
pub open spec fn blocks_in_window(window_size: nat) -> int {
    (window_size + UF2_BLOCK_SIZE - 1) / (UF2_BLOCK_SIZE as int)
}

/// The sector that shows the 256 bytes `payload` found at `address` in a
/// flash window of `window_size` bytes that starts at `window_start`: the
/// magic numbers, the address, a payload size of 256, the number of the
/// block counted from the start of the window, the number of blocks that
/// show the whole window, and the payload.
pub open spec fn transfer_sector(
    address: u32,
    window_start: u32,
    window_size: nat,
    payload: Seq<u8>,
) -> Seq<u8> {
    le32(UF2_MAGIC_START0) + le32(UF2_MAGIC_START1) + le32(0) + le32(address) + le32(
        UF2_BLOCK_SIZE as u32,
    ) + le32(((address - window_start) / (UF2_BLOCK_SIZE as int)) as u32) + le32(
        blocks_in_window(window_size) as u32,
    ) + le32(0) + payload + zeros((UF2_DATA_SIZE - UF2_BLOCK_SIZE) as nat) + le32(UF2_MAGIC_END)
}

/// How showing the 256 bytes at `address` of the flash ends: with
/// `InvalidAddress` where they do not all lie inside the window, with the
/// fault of the read where the flash cannot be read there, and well
/// otherwise.
pub open spec fn encode_outcome<F: Flash>(flash: &F, address: u32) -> Result<(), FlashError> {
    if !flash@.holds(address as int, UF2_BLOCK_SIZE as int) {
        Err(FlashError::InvalidAddress)
    } else {
        match flash.read_fault(address, UF2_BLOCK_SIZE as nat) {
            Some(fault) => Err(fault),
            None => Ok(()),
        }
    }
}

/// The sector that shows the 256 bytes at `address` of the flash.
pub open spec fn flash_sector<F: Flash>(flash: &F, address: u32) -> Seq<u8> {
    transfer_sector(
        address,
        flash@.start,
        flash@.memory.len(),
        flash@.bytes_at(address as int, UF2_BLOCK_SIZE as int),
    )
}

/// Takes `sector` as a transfer block, or finds that it is none.
pub fn decode(sector: &[u8]) -> (res: Option<TransferBlock>)
    ensures
        res is Some <==> accepts(sector@),
        res matches Some(block) ==> {
            &&& block.packed() == sector@
            &&& block.is_valid()
            &&& block.target_address == target_of(sector@)
            &&& block.payload() == payload_of(sector@)
        },
{
    if sector.len() != BLOCK_SIZE {
        return None;
    }
    let block = match TransferBlock::unpack(sector) {
        Ok(block) => block,
        Err(_) => {
            return None;
        },
    };
    proof {
        block.lemma_layout();
        assert(sector@.subrange(0, 512) =~= sector@);
        lemma_le32_read_back(block.magic_start_0);
        lemma_le32_read_back(block.magic_start_1);
        lemma_le32_read_back(block.target_address);
        lemma_le32_read_back(block.payload_size);
        lemma_le32_read_back(block.file_size_or_family_id);
        lemma_le32_read_back(block.magic_end);
    }
    if block.magic_start_0 != UF2_MAGIC_START0 || block.magic_start_1 != UF2_MAGIC_START1
        || block.magic_end != UF2_MAGIC_END {
        return None;
    }
    if !uf2_family_is_correct(&block) {
        return None;
    }
    if block.payload_size > UF2_BLOCK_SIZE as u32 {
        return None;
    }
    proof {
        assert(block.payload() =~= payload_of(sector@));
    }
    Some(block)
}

/// Takes `sector` as a transfer block and writes its payload to the flash at
/// the address that it names.  A sector that is no transfer block is
/// dropped: nothing is written, and nothing is wrong.
pub fn decode_into<F: Flash>(flash: &mut F, sector: &[u8]) -> (res: Result<(), FlashError>)
    requires
        old(flash).inv(),
    ensures
        final(flash).inv(),
        accepts(sector@) ==> written(
            old(flash)@,
            final(flash)@,
            target_of(sector@),
            payload_of(sector@),
            res,
        ),
        !accepts(sector@) ==> res is Ok && *final(flash) == *old(flash),
{
    let block = match decode(sector) {
        Some(block) => block,
        None => {
            return Ok(());
        },
    };
    let data = block.data.as_slice();
    flash.write_bytes(block.target_address, &data[0..block.payload_size as usize])
}

/// Writes into `sector` the transfer block that shows the 256 bytes
/// `payload` found at `address` in a flash window of `window_size` bytes that
/// starts at `window_start`.
pub fn encode(
    address: u32,
    window_start: u32,
    window_size: u32,
    payload: &[u8],
    sector: &mut [u8],
)
    requires
        window_start <= address,
        payload@.len() == UF2_BLOCK_SIZE,
        old(sector)@.len() == BLOCK_SIZE,
    ensures
        final(sector)@ == transfer_sector(address, window_start, window_size as nat, payload@),
{
    let mut block = TransferBlock::default();
    let mut data = [0u8; 476];
    copy_into(&mut data, 0, payload);
    block.data = data;
    block.payload_size = UF2_BLOCK_SIZE as u32;
    block.target_address = address;
    block.block_number = (address - window_start) / UF2_BLOCK_SIZE as u32;
    block.number_of_blocks = ((window_size as u64 + (UF2_BLOCK_SIZE as u64 - 1))
        / UF2_BLOCK_SIZE as u64) as u32;
    let _ = block.pack(sector);
    proof {
        block.lemma_layout();
        assert(block.data@ =~= payload@ + zeros((UF2_DATA_SIZE - UF2_BLOCK_SIZE) as nat));
        assert(sector@ =~= transfer_sector(
            address,
            window_start,
            window_size as nat,
            payload@,
        ));
    }
}

/// Reads the 256 bytes at `address` from the flash and writes the transfer
/// block that shows them into `sector`.  Where the bytes do not all lie
/// inside the window, or the flash cannot be read there, `sector` stays as
/// it is.
pub fn encode_from<F: Flash>(flash: &F, address: u32, sector: &mut [u8]) -> (res: Result<
    (),
    FlashError,
>)
    requires
        flash.inv(),
        old(sector)@.len() == BLOCK_SIZE,
    ensures
        res == encode_outcome(flash, address),
        res is Ok ==> final(sector)@ == flash_sector(flash, address),
        res is Err ==> final(sector)@ == old(sector)@,
{
    proof {
        flash.lemma_inv_wf();
    }
    let range = flash.address_range();
    let start = *range.start();
    let end = *range.end();
    if address < start || end - start < UF2_BLOCK_SIZE as u32 - 1 || address - start > end - start
        - (UF2_BLOCK_SIZE as u32 - 1) {
        return Err(FlashError::InvalidAddress);
    }
    let mut payload = [0u8; 256];
    match flash.read_bytes(address, &mut payload) {
        Ok(()) => {
            encode(address, start, end - start + 1, &payload, sector);
            Ok(())
        },
        Err(fault) => Err(fault),
    }
}

/// Showing the flash and taking the block back agree: the sector that
/// `encode` writes for an address is accepted, names that address, and
/// carries the payload it was made from.
pub proof fn lemma_encode_then_decode(
    address: u32,
    window_start: u32,
    window_size: nat,
    payload: Seq<u8>,
)
    requires
        payload.len() == UF2_BLOCK_SIZE,
    ensures
        accepts(transfer_sector(address, window_start, window_size, payload)),
        target_of(transfer_sector(address, window_start, window_size, payload)) == address,
        payload_of(transfer_sector(address, window_start, window_size, payload)) == payload,
{
    let s = transfer_sector(address, window_start, window_size, payload);
    crate::wire::lemma_le_len();
    lemma_le32_read_back(UF2_MAGIC_START0);
    lemma_le32_read_back(UF2_MAGIC_START1);
    lemma_le32_read_back(UF2_MAGIC_END);
    lemma_le32_read_back(address);
    lemma_le32_read_back(UF2_BLOCK_SIZE as u32);
    lemma_le32_read_back(0);
    assert(s.subrange(0, 4) =~= le32(UF2_MAGIC_START0));
    assert(s.subrange(4, 8) =~= le32(UF2_MAGIC_START1));
    assert(s.subrange(12, 16) =~= le32(address));
    assert(s.subrange(16, 20) =~= le32(UF2_BLOCK_SIZE as u32));
    assert(s.subrange(28, 32) =~= le32(0));
    assert(s.subrange(508, 512) =~= le32(UF2_MAGIC_END));
    assert(s.subrange(32, 288) =~= payload);
}

/// The header of a sector that shows flash tells where the block belongs:
/// its number is the count of whole blocks between the start of the window
/// and its address, and the number of blocks is that of the whole window.
pub proof fn lemma_transfer_sector_header(
    address: u32,
    window_start: u32,
    window_size: nat,
    payload: Seq<u8>,
)
    requires
        payload.len() == UF2_BLOCK_SIZE,
        window_start <= address,
        window_size <= u32::MAX,
    ensures
        transfer_sector(address, window_start, window_size, payload).len() == BLOCK_SIZE,
        le32_value(transfer_sector(address, window_start, window_size, payload).subrange(20, 24))
            == (address - window_start) / 256,
        le32_value(transfer_sector(address, window_start, window_size, payload).subrange(24, 28))
            == blocks_in_window(window_size),
{
    let s = transfer_sector(address, window_start, window_size, payload);
    let number = ((address - window_start) / 256) as u32;
    let blocks = blocks_in_window(window_size) as u32;
    crate::wire::lemma_le_len();
    lemma_le32_read_back(number);
    lemma_le32_read_back(blocks);
    assert(s.subrange(20, 24) =~= le32(number));
    assert(s.subrange(24, 28) =~= le32(blocks));
}

} // verus!
