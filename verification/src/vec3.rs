//! Integer vectors: grid extents and chunk keys.

use vstd::arithmetic::div_mod::lemma_breakdown;
use vstd::arithmetic::div_mod::lemma_fundamental_div_mod;
use vstd::arithmetic::div_mod::lemma_fundamental_div_mod_converse;
use vstd::arithmetic::div_mod::lemma_mod_bound;
use vstd::prelude::*;

verus! {

/// A vector of three unsigned components: the extent of a grid in blocks.
#[derive(Clone, Copy, Debug, PartialEq, Eq, Hash, Structural)]
pub struct UVec3 {
    pub x: u32,
    pub y: u32,
    pub z: u32,
}

/// A vector of three signed components: the key of a chunk in the world
/// grid, one unit being one chunk's extent along that axis.
#[derive(Clone, Copy, Debug, PartialEq, Eq, Hash, Structural)]
pub struct IVec3 {
    pub x: i32,
    pub y: i32,
    pub z: i32,
}

impl UVec3 {
    /// The number of cells of a grid of this extent.
    pub open spec fn volume(self) -> int {
        self.x * self.y * self.z
    }

    /// Whether the cell `(x, y, z)` lies inside a grid of this extent.
    pub open spec fn contains(self, x: int, y: int, z: int) -> bool {
        0 <= x < self.x && 0 <= y < self.y && 0 <= z < self.z
    }

    /// The place of the cell `(x, y, z)` in row-major order: `x` runs
    /// slowest, `z` fastest.
    pub open spec fn index_of(self, x: int, y: int, z: int) -> int {
        x * (self.y * self.z) + y * self.z + z
    }

    /// The cell that stands at place `i` in row-major order.
    pub open spec fn coords_of(self, i: int) -> (int, int, int) {
        (
            (i / (self.y * self.z)) % (self.x as int),
            (i / (self.z as int)) % (self.y as int),
            i % (self.z as int),
        )
    }

    /// The vector with the given components.
    pub fn new(x: u32, y: u32, z: u32) -> (v: UVec3)
        ensures
            v == (UVec3 { x, y, z }),
    {
        UVec3 { x, y, z }
    }

    /// The number of cells of a grid of this extent, if a `usize` can hold it.
    pub fn checked_volume(&self) -> (v: Option<usize>)
        ensures
            match v {
                Some(n) => n == self.volume(),
                None => self.volume() > usize::MAX,
            },
    {
        assert(0 <= self.x * self.y <= 0xffff_ffff * 0xffff_ffff) by (nonlinear_arith);
        let xy: u64 = self.x as u64 * self.y as u64;
        assert(0 <= xy * self.z <= 0xffff_ffff * 0xffff_ffff * 0xffff_ffff) by (nonlinear_arith)
            requires
                0 <= xy <= 0xffff_ffff * 0xffff_ffff,
        ;
        let wide: u128 = xy as u128 * self.z as u128;
        if wide <= usize::MAX as u128 {
            Some(wide as usize)
        } else {
            None
        }
    }
}

impl UVec3 {
    /// The cell that stands at place `i` in row-major order.
    pub fn cell_at(&self, i: usize) -> (cell: (usize, usize, usize))
        requires
            i < self.volume() <= usize::MAX,
        ensures
            (cell.0 as int, cell.1 as int, cell.2 as int) == self.coords_of(i as int),
            self.contains(cell.0 as int, cell.1 as int, cell.2 as int),
            self.index_of(cell.0 as int, cell.1 as int, cell.2 as int) == i,
    {
        let sx: usize = self.x as usize;
        let sy: usize = self.y as usize;
        let sz: usize = self.z as usize;
        proof {
            lemma_cell_of_index(*self, i as int);
            assert(sx > 0 && sy > 0 && sz > 0 && 0 < sy * sz <= sx * sy * sz) by (nonlinear_arith)
                requires
                    0 <= i < sx * sy * sz,
            ;
        }
        let x = (i / (sy * sz)) % sx;
        let y = (i / sz) % sy;
        let z = i % sz;
        (x, y, z)
    }
}

impl UVec3 {
    /// The column `(x, z)` that stands at place `i` among the columns of the
    /// grid, which are ordered by `x` and then by `z`.
    pub fn column_at(&self, i: usize) -> (column: (usize, usize))
        requires
            i < self.x * self.z,
        ensures
            column.0 < self.x,
            column.1 < self.z,
            column.0 * self.z + column.1 == i,
    {
        let sz: usize = self.z as usize;
        assert(sz > 0 && self.x > 0) by (nonlinear_arith)
            requires
                0 <= i < self.x * sz,
        ;
        let x: usize = i / sz;
        let z: usize = i % sz;
        proof {
            lemma_fundamental_div_mod(i as int, sz as int);
            assert(x < self.x && x * sz + z == i) by (nonlinear_arith)
                requires
                    i == sz * x + z,
                    0 <= z < sz,
                    0 <= x,
                    i < self.x * sz,
            ;
        }
        (x, z)
    }
}

impl IVec3 {
    /// The vector with the given components.
    pub fn new(x: i32, y: i32, z: i32) -> (v: IVec3)
        ensures
            v == (IVec3 { x, y, z }),
    {
        IVec3 { x, y, z }
    }
}

/// A cell inside the grid has a place below the grid's volume, and the place
/// leads back to the cell.
pub proof fn lemma_index_of_cell(size: UVec3, x: int, y: int, z: int)
    requires
        size.contains(x, y, z),
    ensures
        0 <= size.index_of(x, y, z) < size.volume(),
        size.coords_of(size.index_of(x, y, z)) == (x, y, z),
{
    let sx = size.x as int;
    let sy = size.y as int;
    let sz = size.z as int;
    let plane = sy * sz;
    let rest = y * sz + z;
    let i = size.index_of(x, y, z);
    assert(0 <= rest < plane && 0 <= y * sz) by (nonlinear_arith)
        requires
            0 <= y < sy,
            0 <= z < sz,
            plane == sy * sz,
            rest == y * sz + z,
    ;
    assert(0 <= x * plane && x * plane + plane <= sx * plane) by (nonlinear_arith)
        requires
            0 <= x < sx,
            0 < plane,
    ;
    assert(size.volume() == sx * plane) by (nonlinear_arith)
        requires
            size.volume() == sx * sy * sz,
            plane == sy * sz,
    ;
    assert(i == x * plane + rest);
    lemma_fundamental_div_mod_converse(i, plane, x, rest);
    lemma_fundamental_div_mod_converse(x, sx, 0, x);
    assert(i == (x * sy + y) * sz + z) by (nonlinear_arith)
        requires
            i == x * plane + rest,
            plane == sy * sz,
            rest == y * sz + z,
    ;
    lemma_fundamental_div_mod_converse(i, sz, x * sy + y, z);
    lemma_fundamental_div_mod_converse(x * sy + y, sy, x, y);
}

/// A place below the grid's volume belongs to a cell inside the grid, and
/// the cell leads back to the place.
pub proof fn lemma_cell_of_index(size: UVec3, i: int)
    requires
        0 <= i < size.volume(),
    ensures
        size.contains(size.coords_of(i).0, size.coords_of(i).1, size.coords_of(i).2),
        size.index_of(size.coords_of(i).0, size.coords_of(i).1, size.coords_of(i).2) == i,
{
    let sx = size.x as int;
    let sy = size.y as int;
    let sz = size.z as int;
    let plane = sy * sz;
    assert(sx > 0 && sy > 0 && sz > 0 && plane > 0 && sx * plane == size.volume())
        by (nonlinear_arith)
        requires
            0 <= i < size.volume(),
            size.volume() == sx * sy * sz,
            plane == sy * sz,
            0 <= sx,
            0 <= sy,
            0 <= sz,
    ;
    let q = i / plane;
    lemma_fundamental_div_mod(i, plane);
    lemma_mod_bound(i, plane);
    assert(0 <= q < sx) by (nonlinear_arith)
        requires
            i == plane * q + i % plane,
            0 <= i % plane < plane,
            0 <= i < sx * plane,
    ;
    lemma_fundamental_div_mod_converse(q, sx, 0, q);
    lemma_mod_bound(i / sz, sy);
    lemma_mod_bound(i, sz);
    lemma_breakdown(i, sz, sy);
    let y = (i / sz) % sy;
    let z = i % sz;
    assert(i % (sz * sy) == sz * y + z);
    assert(sz * sy == plane && sz * y == y * sz && plane * q == q * plane) by (nonlinear_arith)
        requires
            plane == sy * sz,
    ;
}

} // verus!
