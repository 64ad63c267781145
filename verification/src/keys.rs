//! Chunk keys: the configured extent of the world, the keys that a loader
//! covers, the order in which they are walked, and the keys next to a key.

use crate::face::Direction;
use crate::vec3::IVec3;
use crate::vec3::UVec3;
use vstd::prelude::*;

verus! {

/// The key `key` as the hash table holds it.
pub open spec fn key_tuple(key: IVec3) -> (i32, i32, i32) {
    (key.x, key.y, key.z)
}

/// The key one chunk further in direction `d`, if the key space reaches
/// that far.
pub open spec fn neighbor_key(key: IVec3, d: Direction) -> Option<IVec3> {
    let (dx, dy, dz) = d.step();
    if i32::MIN <= key.x + dx <= i32::MAX && i32::MIN <= key.y + dy <= i32::MAX && i32::MIN
        <= key.z + dz <= i32::MAX {
        Some(IVec3 { x: (key.x + dx) as i32, y: (key.y + dy) as i32, z: (key.z + dz) as i32 })
    } else {
        None
    }
}

/// What is configured of the world: how many chunks it is high, and the
/// extent of every chunk in blocks.
#[derive(Clone, Copy, Debug, PartialEq, Eq, Structural)]
pub struct ChunkWorldConfig {
    /// The number of layers of chunks: keys have `y` from 0 up to, and
    /// without, this number.
    pub y_chunks: i32,
    /// The extent of every chunk in blocks.
    pub chunk_size: UVec3,
}

impl ChunkWorldConfig {
    /// The place of the chunk with key `key` in the world, in blocks: the
    /// key times the extent of a chunk, axis by axis.
    pub fn origin_of(&self, key: IVec3) -> (origin: (i64, i64, i64))
        ensures
            origin.0 == key.x * self.chunk_size.x,
            origin.1 == key.y * self.chunk_size.y,
            origin.2 == key.z * self.chunk_size.z,
    {
        proof {
            lemma_product_fits(key.x, self.chunk_size.x);
            lemma_product_fits(key.y, self.chunk_size.y);
            lemma_product_fits(key.z, self.chunk_size.z);
        }
        (
            key.x as i64 * self.chunk_size.x as i64,
            key.y as i64 * self.chunk_size.y as i64,
            key.z as i64 * self.chunk_size.z as i64,
        )
    }

    /// The height of the world in blocks: the number of layers of chunks
    /// times the height of a chunk.
    pub fn max_height(&self) -> (height: i64)
        ensures
            height == self.y_chunks * self.chunk_size.y,
    {
        proof {
            lemma_product_fits(self.y_chunks, self.chunk_size.y);
        }
        self.y_chunks as i64 * self.chunk_size.y as i64
    }
}

/// The product of a signed and an unsigned number of 32 bits fits in 64
/// bits.
proof fn lemma_product_fits(a: i32, b: u32)
    ensures
        -0x8000_0000_0000_0000 <= a * b <= 0x7fff_ffff_ffff_ffff,
{
    assert(-0x8000_0000 * 0xffff_ffff <= a * b <= 0x7fff_ffff * 0xffff_ffff) by (nonlinear_arith)
        requires
            -0x8000_0000 <= a <= 0x7fff_ffff,
            0 <= b <= 0xffff_ffff,
    ;
}

/// The keys that a loader covers in the horizontal plane: `x` from `min_x`
/// up to, and without, `max_x`, and `z` likewise. Vertically a loader covers
/// every layer of the world.
#[derive(Clone, Copy, Debug, PartialEq, Eq, Structural)]
pub struct KeyRange {
    pub min_x: i32,
    pub max_x: i32,
    pub min_z: i32,
    pub max_z: i32,
}

impl KeyRange {
    /// Whether the range covers `key` in a world of `y_chunks` layers.
    pub open spec fn covers(self, key: IVec3, y_chunks: i32) -> bool {
        self.min_x <= key.x < self.max_x && 0 <= key.y < y_chunks && self.min_z <= key.z
            < self.max_z
    }
}

/// Whether `a` comes before `b` in the order in which ranges are walked:
/// by `x`, then by `y`, then by `z`.
pub open spec fn key_before(a: IVec3, b: IVec3) -> bool {
    walked_before(a, b.x as int, b.y as int, b.z as int)
}

/// Whether `a` comes before the place `(x, y, z)` of a walk by `x`, then by
/// `y`, then by `z`.
pub open spec fn walked_before(a: IVec3, x: int, y: int, z: int) -> bool {
    a.x < x || (a.x == x && (a.y < y || (a.y == y && a.z < z)))
}

} // verus!
