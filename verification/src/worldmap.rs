//! Chunked storage of blocking structures, and the walkability queries the
//! pathfinding builder runs against it.
//!
//! Each generated chunk carries a registry of the structures standing on its
//! tiles.  A tile is walkable when its chunk has been generated and no
//! structure is registered on it; a tile whose chunk does not exist is treated
//! as blocked (fail-closed), so no generated route crosses unexplored space.
//!
//! Registries are association vectors whose earliest entry for a key wins, so
//! prepending an entry acts as an insert-or-replace.

use vstd::prelude::*;

use crate::tile::{
    chunk_axis, local_axis, ChunkCoordinates, LocalTileCoordinates, TileCoordinates,
    tile_coord_to_chunk_coord, tile_coord_to_local_tile_coord,
};

verus! {

/// First value bound to `k` in an association sequence, if any.
pub open spec fn assoc_find<K, V>(s: Seq<(K, V)>, k: K) -> Option<V>
    decreases s.len(),
{
    if s.len() == 0 {
        None
    } else if s[0].0 == k {
        Some(s[0].1)
    } else {
        assoc_find(s.drop_first(), k)
    }
}

/// Registry of the structures standing on one chunk, keyed by local tile.
/// The value is the structure's entity identifier.
#[derive(Debug, Clone)]
pub struct StructureManager {
    pub structures: Vec<(LocalTileCoordinates, u64)>,
}

impl StructureManager {
    /// The registry as an association sequence over mathematical coordinates.
    pub open spec fn entries(self) -> Seq<((int, int), u64)> {
        self.structures@.map_values(|p: (LocalTileCoordinates, u64)| (p.0@, p.1))
    }

    /// The structure registered on a local tile, if any.
    pub open spec fn structure_at(self, l: (int, int)) -> Option<u64> {
        assoc_find(self.entries(), l)
    }

    /// An empty registry: no structure on any tile.
    pub fn new() -> (r: StructureManager)
        ensures
            forall|l: (int, int)| r.structure_at(l) is None,
    {
        StructureManager { structures: Vec::new() }
    }

    /// Registers a structure on a local tile, replacing any structure already
    /// registered there.
    pub fn insert_structure(&mut self, local: LocalTileCoordinates, entity: u64)
        ensures
            forall|l: (int, int)|
                final(self).structure_at(l) == if l == local@ {
                    Some(entity)
                } else {
                    old(self).structure_at(l)
                },
    {
        let ghost pre = *self;
        self.structures.insert(0, (local, entity));
        proof {
            assert(self.entries() =~= pre.entries().insert(0, (local@, entity)));
            assert forall|l: (int, int)|
                self.structure_at(l) == (if l == local@ {
                    Some(entity)
                } else {
                    pre.structure_at(l)
                }) by {
                assert(self.entries().drop_first() =~= pre.entries());
            }
        }
    }

    /// The structure registered on a local tile, if any.
    pub fn get_structure(&self, local: LocalTileCoordinates) -> (r: Option<u64>)
        ensures
            r == self.structure_at(local@),
    {
        let ghost all = self.entries();
        proof {
            assert(all.skip(0) =~= all);
        }
        let mut i: usize = 0;
        while i < self.structures.len()
            invariant
                0 <= i <= self.structures.len(),
                all == self.entries(),
                assoc_find(all, local@) == assoc_find(all.skip(i as int), local@),
            decreases self.structures.len() - i,
        {
            let p = self.structures[i];
            proof {
                assert(all.skip(i as int)[0] == (p.0@, p.1));
                assert(all.skip(i as int).drop_first() =~= all.skip(i as int + 1));
            }
            if p.0.x == local.x && p.0.y == local.y {
                return Some(p.1);
            }
            i += 1;
        }
        proof {
            assert(all.skip(i as int) =~= Seq::<((int, int), u64)>::empty());
        }
        None
    }
}

impl Default for StructureManager {
    /// An empty registry.
    fn default() -> (r: StructureManager)
        ensures
            forall|l: (int, int)| r.structure_at(l) is None,
    {
        StructureManager::new()
    }
}

/// The set of generated chunks with their structure registries: the
/// walkability provider the flow-field builder queries.
#[derive(Debug, Clone)]
pub struct MapManager {
    pub chunks: Vec<(ChunkCoordinates, StructureManager)>,
}

impl MapManager {
    /// The chunk table as an association sequence over mathematical
    /// coordinates.
    pub open spec fn chunk_entries(self) -> Seq<((int, int), StructureManager)> {
        self.chunks@.map_values(|p: (ChunkCoordinates, StructureManager)| (p.0@, p.1))
    }

    /// The registry of a generated chunk, if the chunk exists.
    pub open spec fn chunk_at(self, c: (int, int)) -> Option<StructureManager> {
        assoc_find(self.chunk_entries(), c)
    }

    /// The structure standing on a tile: looked up through the tile's chunk
    /// and its local coordinate.  `None` when the chunk does not exist or the
    /// tile is free.
    pub open spec fn spec_get_tile(self, p: (int, int)) -> Option<u64> {
        match self.chunk_at((chunk_axis(p.0), chunk_axis(p.1))) {
            Some(sm) => sm.structure_at((local_axis(p.0), local_axis(p.1))),
            None => None,
        }
    }

    /// Whether a tile can be walked on: its chunk exists and carries no
    /// structure on it.  A tile of an ungenerated chunk is not walkable.
    pub open spec fn spec_walkable(self, p: (int, int)) -> bool {
        match self.chunk_at((chunk_axis(p.0), chunk_axis(p.1))) {
            Some(sm) => sm.structure_at((local_axis(p.0), local_axis(p.1))) is None,
            None => false,
        }
    }

    /// Walkability of every tile of the lattice, as one total map.
    pub open spec fn walk_view(self) -> Map<(int, int), bool> {
        Map::new(|p: (int, int)| true, |p: (int, int)| self.spec_walkable(p))
    }

    /// A world with no generated chunk: every tile is blocked.
    pub fn new() -> (r: MapManager)
        ensures
            forall|c: (int, int)| r.chunk_at(c) is None,
            forall|p: (int, int)| !r.spec_walkable(p),
    {
        MapManager { chunks: Vec::new() }
    }

    /// Registers a generated chunk, replacing the chunk already registered at
    /// the same coordinate if any.
    pub fn insert_chunk(&mut self, coord: ChunkCoordinates, chunk: StructureManager)
        ensures
            forall|c: (int, int)|
                final(self).chunk_at(c) == if c == coord@ {
                    Some(chunk)
                } else {
                    old(self).chunk_at(c)
                },
    {
        let ghost pre = *self;
        self.chunks.insert(0, (coord, chunk));
        proof {
            assert(self.chunk_entries() =~= pre.chunk_entries().insert(0, (coord@, chunk)));
            assert forall|c: (int, int)|
                self.chunk_at(c) == (if c == coord@ {
                    Some(chunk)
                } else {
                    pre.chunk_at(c)
                }) by {
                assert(self.chunk_entries().drop_first() =~= pre.chunk_entries());
            }
        }
    }

    /// The registry of a generated chunk, if the chunk exists.
    pub fn get_chunk(&self, coord: ChunkCoordinates) -> (r: Option<&StructureManager>)
        ensures
            match r {
                Some(sm) => self.chunk_at(coord@) == Some(*sm),
                None => self.chunk_at(coord@) is None,
            },
    {
        let ghost all = self.chunk_entries();
        proof {
            assert(all.skip(0) =~= all);
        }
        let mut i: usize = 0;
        while i < self.chunks.len()
            invariant
                0 <= i <= self.chunks.len(),
                all == self.chunk_entries(),
                assoc_find(all, coord@) == assoc_find(all.skip(i as int), coord@),
            decreases self.chunks.len() - i,
        {
            proof {
                assert(all.skip(i as int)[0] == (self.chunks@[i as int].0@, self.chunks@[i as int].1));
                assert(all.skip(i as int).drop_first() =~= all.skip(i as int + 1));
            }
            if self.chunks[i].0.x == coord.x && self.chunks[i].0.y == coord.y {
                return Some(&self.chunks[i].1);
            }
            i += 1;
        }
        proof {
            assert(all.skip(i as int) =~= Seq::<((int, int), StructureManager)>::empty());
        }
        None
    }

    /// The structure standing on a tile, if any: chunk lookup followed by a
    /// local-tile lookup inside the chunk's registry.
    pub fn get_tile(&self, tile: TileCoordinates) -> (r: Option<u64>)
        ensures
            r == self.spec_get_tile(tile@),
    {
        proof {
            crate::tile::lemma_chunk_local_decompose(tile@.0);
            crate::tile::lemma_chunk_local_decompose(tile@.1);
        }
        let chunk_coord = tile_coord_to_chunk_coord(tile);
        match self.get_chunk(chunk_coord) {
            Some(sm) => {
                let local = tile_coord_to_local_tile_coord(tile, chunk_coord);
                sm.get_structure(local)
            }
            None => None,
        }
    }

    /// Whether a tile can be walked on; a tile of an ungenerated chunk is not.
    pub fn is_tile_walkable(&self, tile: TileCoordinates) -> (r: bool)
        ensures
            r == self.spec_walkable(tile@),
    {
        proof {
            crate::tile::lemma_chunk_local_decompose(tile@.0);
            crate::tile::lemma_chunk_local_decompose(tile@.1);
        }
        let chunk_coord = tile_coord_to_chunk_coord(tile);
        match self.get_chunk(chunk_coord) {
            Some(sm) => {
                let local = tile_coord_to_local_tile_coord(tile, chunk_coord);
                sm.get_structure(local).is_none()
            }
            None => false,
        }
    }
}

impl Default for MapManager {
    /// A world with no generated chunk.
    fn default() -> (r: MapManager)
        ensures
            forall|c: (int, int)| r.chunk_at(c) is None,
            forall|p: (int, int)| !r.spec_walkable(p),
    {
        MapManager::new()
    }
}

} // verus!
