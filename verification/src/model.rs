//! The map model: plain immutable data describing layers, chunks and
//! tilesets, built by the caller from whatever source parser is used.

use vstd::prelude::*;

verus! {

/// Chunks of an infinite layer are this many cells wide.
pub const CHUNK_WIDTH: u32 = 16;

/// Chunks of an infinite layer are this many cells high.
pub const CHUNK_HEIGHT: u32 = 16;

/// One tile reference: the name of the owning tileset and the tile's
/// zero-based local index within it.
#[derive(Clone, Debug)]
pub struct Tile {
    pub tileset: String,
    pub index: u32,
}

/// One fixed-size chunk of an infinite layer. `cells` holds the
/// `CHUNK_WIDTH * CHUNK_HEIGHT` grid column by column: the cell at local
/// `(x, y)` is `cells[x * CHUNK_HEIGHT + y]`, and its world tile coordinates
/// are `(base_x + x, base_y + y)`.
#[derive(Debug)]
pub struct Chunk {
    pub base_x: i32,
    pub base_y: i32,
    pub cells: Vec<Option<Tile>>,
}

/// The content of a layer: a finite grid, a sparse set of chunks, or a
/// non-tile layer that takes no part in the conversion.
#[derive(Debug)]
pub enum LayerContent {
    /// A rectangular grid, column by column: the cell at `(x, y)` is
    /// `cells[x * height + y]` for `0 <= x < width`, `0 <= y < height`.
    Finite { width: u32, height: u32, cells: Vec<Option<Tile>> },
    /// Chunks in the iteration order the source model exposes.
    Infinite { chunks: Vec<Chunk> },
    /// An object, image or group layer: skipped entirely.
    Other,
}

/// One layer: its name (used verbatim as the output resource identifier),
/// its uniform pixel offset, and its content.
#[derive(Debug)]
pub struct Layer {
    pub name: String,
    pub offset_x: i32,
    pub offset_y: i32,
    pub content: LayerContent,
}

/// One tileset: its name (used verbatim as the output resource identifier
/// and as the tile-image reference), its tile geometry, and its distinct
/// tile identities in their native iteration order.
#[derive(Debug)]
pub struct Tileset {
    pub name: String,
    pub tile_width: u32,
    pub tile_height: u32,
    pub tile_ids: Vec<u32>,
}

/// The whole map model handed to the two emitters.
#[derive(Debug)]
pub struct TileMap {
    pub tile_width: u32,
    pub tile_height: u32,
    pub tilesets: Vec<Tileset>,
    pub layers: Vec<Layer>,
}

impl Chunk {
    /// The chunk holds its full fixed-size grid, and every world tile
    /// coordinate it covers fits a 32-bit signed integer.
    pub open spec fn wf(self) -> bool {
        &&& self.cells@.len() == 256
        &&& self.base_x <= 0x7fff_fff0
        &&& self.base_y <= 0x7fff_fff0
    }
}

impl LayerContent {
    pub open spec fn wf(self) -> bool {
        match self {
            LayerContent::Finite { width, height, cells } => {
                &&& cells@.len() == (width as int) * (height as int)
                &&& width <= 0x7fff_ffff
                &&& height <= 0x7fff_ffff
            },
            LayerContent::Infinite { chunks } => forall|i: int|
                0 <= i < chunks@.len() ==> (#[trigger] chunks@[i]).wf(),
            LayerContent::Other => true,
        }
    }
}

impl Layer {
    pub open spec fn wf(self) -> bool {
        self.content.wf()
    }
}

impl TileMap {
    /// The map's global tile size is positive, and every layer is
    /// well-formed.
    pub open spec fn wf(self) -> bool {
        &&& 1 <= self.tile_width <= 0x7fff_ffff
        &&& 1 <= self.tile_height <= 0x7fff_ffff
        &&& forall|i: int| 0 <= i < self.layers@.len() ==> (#[trigger] self.layers@[i]).wf()
    }
}

} // verus!
