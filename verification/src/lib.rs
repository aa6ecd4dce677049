//! A flash-backed FAT16 volume that exists only while it is being read.
//!
//! The crate presents a small window of raw flash memory as a legacy FAT16
//! drive.  Every sector of the drive is computed on demand from a fixed file
//! catalog and the live flash content; firmware images reach the flash as
//! 512-byte transfer blocks written into the drive's one dynamic file, through
//! a page-buffered write path.
//!
//! Each public function states what it returns or changes, and what holds
//! across several functions is proved in public proof functions beside them.

pub mod catalog;
pub mod flash;
pub mod geometry;
pub mod ghost_fat;
pub mod records;
pub mod sim;
pub mod transfer;
pub mod volume;
pub mod wire;

pub use catalog::{fat_files, FatFile, FatFileContent};
pub use flash::{Flash, FlashError};
pub use ghost_fat::GhostFat;
pub use records::{fat_boot_block, DirectoryEntry, FatBootBlock, PackingError};
pub use sim::MemFlash;
pub use transfer::TransferBlock;
