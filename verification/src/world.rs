//! The voxel payload that the server streams to clients.

use vstd::prelude::*;

verus! {

pub const CHUNK_WIDTH: usize = 16;

pub const CHUNK_LENGTH: usize = 16;

pub const CHUNK_HEIGHT: usize = 16;

/// Number of blocks in one chunk.
pub const CHUNK_VOLUME: usize = CHUNK_WIDTH * CHUNK_LENGTH * CHUNK_HEIGHT;

#[derive(Clone, Copy, Debug, PartialEq, Eq, Structural)]
pub enum BlockId {
    Air,
    Grass,
}

/// A cube of blocks at chunk coordinates `(x, y, z)`.
#[derive(Clone, Debug, PartialEq, Eq)]
pub struct Chunk {
    pub x: u32,
    pub y: u32,
    pub z: u32,
    pub blocks: [BlockId; CHUNK_VOLUME],
}

/// The mathematical content of a [`Chunk`].
pub struct ChunkView {
    pub x: u32,
    pub y: u32,
    pub z: u32,
    pub blocks: Seq<BlockId>,
}

impl View for Chunk {
    type V = ChunkView;

    open spec fn view(&self) -> ChunkView {
        ChunkView { x: self.x, y: self.y, z: self.z, blocks: self.blocks@ }
    }
}

impl Chunk {
    /// A chunk at `(x, y, z)` whose every block is `fill`.
    pub fn filled(x: u32, y: u32, z: u32, fill: BlockId) -> (chunk: Chunk)
        ensures
            chunk@.x == x,
            chunk@.y == y,
            chunk@.z == z,
            chunk@.blocks.len() == CHUNK_VOLUME,
            forall|i: int| 0 <= i < CHUNK_VOLUME ==> chunk@.blocks[i] == fill,
    {
        Chunk { x, y, z, blocks: [fill; CHUNK_VOLUME] }
    }
}

} // verus!
