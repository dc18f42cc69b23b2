//! Coordinate systems of the tile world.
//!
//! A `TileCoordinates` addresses one cell of the unbounded integer lattice.
//! Tiles are grouped for storage into square chunks of `CHUNK_SIZE` tiles per
//! side: a `ChunkCoordinates` addresses one chunk, and a
//! `LocalTileCoordinates` addresses a cell inside its chunk.  The tile-to-chunk
//! conversion uses Euclidean (floor) division, not truncation, so tiles with
//! negative coordinates map to the correct chunk.

use vstd::prelude::*;

verus! {

/// Side length, in tiles, of one square storage chunk.
pub const CHUNK_SIZE: i32 = 32;

/// Address of one cell of the unbounded tile lattice.
#[derive(Default, Debug, Hash, Clone, Copy, PartialEq, Eq, Structural)]
pub struct TileCoordinates {
    pub x: i32,
    pub y: i32,
}

/// Address of a cell inside a single chunk; canonical values lie in
/// `[0, CHUNK_SIZE)` on both axes.
#[derive(Default, Debug, Hash, Clone, Copy, PartialEq, Eq, Structural)]
pub struct LocalTileCoordinates {
    pub x: i32,
    pub y: i32,
}

/// Address of one chunk; chunk `(1, 1)` is one chunk right and one chunk down.
#[derive(Default, Debug, Hash, Clone, Copy, PartialEq, Eq, Structural)]
pub struct ChunkCoordinates {
    pub x: i32,
    pub y: i32,
}

impl View for TileCoordinates {
    type V = (int, int);

    open spec fn view(&self) -> (int, int) {
        (self.x as int, self.y as int)
    }
}

impl View for LocalTileCoordinates {
    type V = (int, int);

    open spec fn view(&self) -> (int, int) {
        (self.x as int, self.y as int)
    }
}

impl View for ChunkCoordinates {
    type V = (int, int);

    open spec fn view(&self) -> (int, int) {
        (self.x as int, self.y as int)
    }
}

/// The chunk that holds a tile, on one axis: Euclidean (floor) division by
/// `CHUNK_SIZE`, so negative tiles map to negative chunks correctly.
pub open spec fn chunk_axis(v: int) -> int {
    v / (CHUNK_SIZE as int)
}

/// The position of a tile inside its chunk, on one axis: the Euclidean
/// remainder, always in `[0, CHUNK_SIZE)`.
pub open spec fn local_axis(v: int) -> int {
    v % (CHUNK_SIZE as int)
}

/// The chunk that holds the given tile.
pub fn tile_coord_to_chunk_coord(tile_coord: TileCoordinates) -> (r: ChunkCoordinates)
    ensures
        r@ == (chunk_axis(tile_coord@.0), chunk_axis(tile_coord@.1)),
{
    proof {
        lemma_chunk_axis_in_range(tile_coord@.0);
        lemma_chunk_axis_in_range(tile_coord@.1);
    }
    ChunkCoordinates {
        x: tile_coord.x.checked_div_euclid(CHUNK_SIZE).unwrap(),
        y: tile_coord.y.checked_div_euclid(CHUNK_SIZE).unwrap(),
    }
}

/// The position of the given tile inside the given chunk.  For the chunk that
/// actually holds the tile this is the canonical local coordinate in
/// `[0, CHUNK_SIZE)`; for any other chunk it is the plain offset.
pub fn tile_coord_to_local_tile_coord(
    tile_coord: TileCoordinates,
    chunk_coord: ChunkCoordinates,
) -> (r: LocalTileCoordinates)
    requires
        i32::MIN <= tile_coord@.0 - chunk_coord@.0 * CHUNK_SIZE <= i32::MAX,
        i32::MIN <= tile_coord@.1 - chunk_coord@.1 * CHUNK_SIZE <= i32::MAX,
    ensures
        r@ == (
            tile_coord@.0 - chunk_coord@.0 * CHUNK_SIZE,
            tile_coord@.1 - chunk_coord@.1 * CHUNK_SIZE,
        ),
{
    let x64: i64 = tile_coord.x as i64 - chunk_coord.x as i64 * CHUNK_SIZE as i64;
    let y64: i64 = tile_coord.y as i64 - chunk_coord.y as i64 * CHUNK_SIZE as i64;
    LocalTileCoordinates { x: x64 as i32, y: y64 as i32 }
}

/// The tile addressed by a local coordinate inside a chunk.
pub fn local_tile_coord_to_tile_coord(
    local_tile_coord: LocalTileCoordinates,
    chunk_coord: ChunkCoordinates,
) -> (r: TileCoordinates)
    requires
        i32::MIN <= local_tile_coord@.0 + chunk_coord@.0 * CHUNK_SIZE <= i32::MAX,
        i32::MIN <= local_tile_coord@.1 + chunk_coord@.1 * CHUNK_SIZE <= i32::MAX,
    ensures
        r@ == (
            local_tile_coord@.0 + chunk_coord@.0 * CHUNK_SIZE,
            local_tile_coord@.1 + chunk_coord@.1 * CHUNK_SIZE,
        ),
{
    let x64: i64 = local_tile_coord.x as i64 + chunk_coord.x as i64 * CHUNK_SIZE as i64;
    let y64: i64 = local_tile_coord.y as i64 + chunk_coord.y as i64 * CHUNK_SIZE as i64;
    TileCoordinates { x: x64 as i32, y: y64 as i32 }
}

/// The north-west corner tile of a chunk.
pub fn chunk_coord_to_tile_coord(chunk_coord: ChunkCoordinates) -> (r: TileCoordinates)
    requires
        i32::MIN <= chunk_coord@.0 * CHUNK_SIZE <= i32::MAX,
        i32::MIN <= chunk_coord@.1 * CHUNK_SIZE <= i32::MAX,
    ensures
        r@ == (chunk_coord@.0 * CHUNK_SIZE, chunk_coord@.1 * CHUNK_SIZE),
{
    let x64: i64 = chunk_coord.x as i64 * CHUNK_SIZE as i64;
    let y64: i64 = chunk_coord.y as i64 * CHUNK_SIZE as i64;
    TileCoordinates { x: x64 as i32, y: y64 as i32 }
}

/// Splitting an axis value into chunk and local parts loses nothing, and the
/// local part is canonical.
pub proof fn lemma_chunk_local_decompose(v: int)
    ensures
        chunk_axis(v) * CHUNK_SIZE + local_axis(v) == v,
        0 <= local_axis(v) < CHUNK_SIZE,
{
    vstd::arithmetic::div_mod::lemma_fundamental_div_mod(v, CHUNK_SIZE as int);
    vstd::arithmetic::div_mod::lemma_mod_bound(v, CHUNK_SIZE as int);
}

/// The chunk index of an `i32` axis value itself fits in `i32`.
proof fn lemma_chunk_axis_in_range(v: int)
    requires
        i32::MIN <= v <= i32::MAX,
    ensures
        i32::MIN <= chunk_axis(v) <= i32::MAX,
{
    lemma_chunk_local_decompose(v);
    assert(chunk_axis(v) * CHUNK_SIZE == v - local_axis(v));
    assert(i32::MIN <= chunk_axis(v) <= i32::MAX) by (nonlinear_arith)
        requires
            chunk_axis(v) * CHUNK_SIZE == v - local_axis(v),
            0 <= local_axis(v) < CHUNK_SIZE,
            CHUNK_SIZE == 32,
            i32::MIN <= v <= i32::MAX,
    {
    }
}

} // verus!
