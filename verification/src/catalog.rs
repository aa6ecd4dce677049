//! The catalog: the fixed list of files that the volume shows.  A file is
//! either a static text of at most 255 bytes or the live image of the flash.
//! The order of the catalog is the order of the directory and of the
//! clusters.

use crate::geometry::{BLOCK_SIZE, FIRST_CLUSTER, UF2_INDEX};
use crate::transfer::blocks_in_window;
use crate::wire::{padded, space_padded, ASCII_SPACE};
use vstd::prelude::*;
use vstd::string::StringSliceAdditionalSpecFns;

verus! {

/// Bytes of a static file.
pub const STATIC_SIZE: usize = 255;

/// What a file of the catalog holds.
pub enum FatFileContent {
    /// A text, filled up with spaces.
    Static([u8; 255]),
    /// The live image of the flash, one transfer block per cluster.
    Uf2,
}

/// A file of the catalog.
pub struct FatFile {
    /// The 8.3 name, space-padded, without the dot.
    pub name: [u8; 11],
    /// What the file holds.
    pub content: FatFileContent,
}

impl FatFile {
    /// The static file with the given name and text, each cut to its field's
    /// length or filled up with spaces.
    pub fn with_content(name: &[u8], content: &[u8]) -> (file: FatFile)
        ensures
            file.is_static_of(name@, content@),
    {
        FatFile {
            name: space_padded::<11>(name),
            content: FatFileContent::Static(space_padded::<255>(content)),
        }
    }

    /// Whether the file is the static file made from `name` and `content`.
    pub open spec fn is_static_of(self, name: Seq<u8>, content: Seq<u8>) -> bool {
        &&& self.name@ == padded(name, 11, ASCII_SPACE)
        &&& self.content matches FatFileContent::Static(text)
        &&& text@ == padded(content, STATIC_SIZE as nat, ASCII_SPACE)
    }

    /// Whether the file is the flash image under the name `name`.
    pub open spec fn is_image_of(self, name: Seq<u8>) -> bool {
        &&& self.name@ == padded(name, 11, ASCII_SPACE)
        &&& self.content is Uf2
    }

    /// The size of the file in bytes, on a flash window of `window_size`
    /// bytes: what a static file holds, or the size of the window.
    pub open spec fn size(self, window_size: nat) -> nat {
        match self.content {
            FatFileContent::Static(text) => STATIC_SIZE as nat,
            FatFileContent::Uf2 => window_size,
        }
    }

    /// How many bytes of the volume the file takes, on a flash window of
    /// `window_size` bytes: a static file its text, the flash image one
    /// transfer block of 512 bytes for each 256 bytes of the window.
    pub open spec fn stored_size(self, window_size: nat) -> nat {
        match self.content {
            FatFileContent::Static(text) => STATIC_SIZE as nat,
            FatFileContent::Uf2 => (blocks_in_window(window_size) * BLOCK_SIZE) as nat,
        }
    }

    /// How many clusters the file takes, on a flash window of `window_size`
    /// bytes: a static file as many as its text needs, which is one, and the
    /// flash image one for each transfer block that shows the window.
    pub open spec fn clusters(self, window_size: nat) -> int {
        match self.content {
            FatFileContent::Static(text) => cluster_count(STATIC_SIZE as nat),
            FatFileContent::Uf2 => blocks_in_window(window_size),
        }
    }
}

/// The number of the first cluster of the file in catalog slot `slot`.
pub open spec fn first_cluster(slot: int) -> int {
    FIRST_CLUSTER + slot
}

/// How many clusters a file of `size` bytes takes.
pub open spec fn cluster_count(size: nat) -> int {
    (size + BLOCK_SIZE - 1) / (BLOCK_SIZE as int)
}

/// Whether `files` has the shape that the volume is built on: static files
/// in all slots before the slot of the flash image.
pub open spec fn catalog_shape(files: [FatFile; 3]) -> bool {
    &&& files[UF2_INDEX as int].content is Uf2
    &&& forall|slot: int| 0 <= slot < UF2_INDEX ==> (#[trigger] files[slot]).content is Static
}

/// Whether `files` is the catalog of this volume: an information text, an
/// index page that redirects, and the flash image.
pub open spec fn is_volume_catalog(files: [FatFile; 3]) -> bool {
    &&& files[0].is_static_of(
        "INFO_UF2TXT".spec_bytes(),
        "UF2 Bootloader 1.2.3\r\nModel: BluePill\r\nBoard-ID: xyz_123\r\n".spec_bytes(),
    )
    &&& files[1].is_static_of(
        "INDEX   HTM".spec_bytes(),
        "<!doctype html>\n<html><body><script>\nlocation.replace(INDEX_URL);\n</script></body></html>\n".spec_bytes(),
    )
    &&& files[2].is_image_of("CURRENT UF2".spec_bytes())
}

/// The catalog of this volume.
pub fn fat_files() -> (files: [FatFile; 3])
    ensures
        is_volume_catalog(files),
        catalog_shape(files),
{
    let info = FatFile::with_content(
        "INFO_UF2TXT".as_bytes(),
        "UF2 Bootloader 1.2.3\r\nModel: BluePill\r\nBoard-ID: xyz_123\r\n".as_bytes(),
    );
    let index = FatFile::with_content(
        "INDEX   HTM".as_bytes(),
        "<!doctype html>\n<html><body><script>\nlocation.replace(INDEX_URL);\n</script></body></html>\n".as_bytes(),
    );
    let current_uf2 = FatFile {
        name: space_padded::<11>("CURRENT UF2".as_bytes()),
        content: FatFileContent::Uf2,
    };
    [info, index, current_uf2]
}

} // verus!
