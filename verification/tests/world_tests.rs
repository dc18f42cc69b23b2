use stellar_routine::inventory::ItemStack;
use stellar_routine::item::{ItemType, Quality};
use stellar_routine::recipe::{RecipeBook, RecipeId, DEFAULT_CRAFT_TIME_TICKS};
use stellar_routine::tile::{
    chunk_coord_to_tile_coord, local_tile_coord_to_tile_coord, tile_coord_to_chunk_coord,
    tile_coord_to_local_tile_coord, ChunkCoordinates, LocalTileCoordinates, TileCoordinates,
    CHUNK_SIZE,
};
use stellar_routine::worldmap::{MapManager, StructureManager};

#[test]
fn chunk_conversion_uses_floor_division() {
    // Positive tiles.
    let c = tile_coord_to_chunk_coord(TileCoordinates { x: 0, y: 31 });
    assert_eq!(c, ChunkCoordinates { x: 0, y: 0 });
    let c = tile_coord_to_chunk_coord(TileCoordinates { x: 32, y: 95 });
    assert_eq!(c, ChunkCoordinates { x: 1, y: 2 });
    // Negative tiles map to negative chunks, not chunk zero.
    let c = tile_coord_to_chunk_coord(TileCoordinates { x: -1, y: -32 });
    assert_eq!(c, ChunkCoordinates { x: -1, y: -1 });
    let c = tile_coord_to_chunk_coord(TileCoordinates { x: -33, y: 5 });
    assert_eq!(c, ChunkCoordinates { x: -2, y: 0 });
}

#[test]
fn local_conversion_roundtrip() {
    let t = TileCoordinates { x: -1, y: 35 };
    let chunk = tile_coord_to_chunk_coord(t);
    assert_eq!(chunk, ChunkCoordinates { x: -1, y: 1 });
    let local = tile_coord_to_local_tile_coord(t, chunk);
    assert_eq!(local, LocalTileCoordinates { x: 31, y: 3 });
    assert!(local.x >= 0 && local.x < CHUNK_SIZE);
    let back = local_tile_coord_to_tile_coord(local, chunk);
    assert_eq!(back, t);
}

#[test]
fn chunk_corner_tile() {
    let t = chunk_coord_to_tile_coord(ChunkCoordinates { x: 2, y: -1 });
    assert_eq!(t, TileCoordinates { x: 64, y: -32 });
    let t = chunk_coord_to_tile_coord(ChunkCoordinates { x: 0, y: 0 });
    assert_eq!(t, TileCoordinates { x: 0, y: 0 });
}

#[test]
fn walkability_is_fail_closed() {
    let mut map = MapManager::new();
    // No chunk generated: nothing is walkable.
    assert!(!map.is_tile_walkable(TileCoordinates { x: 0, y: 0 }));
    assert!(map.get_tile(TileCoordinates { x: 0, y: 0 }).is_none());

    let mut chunk = StructureManager::new();
    chunk.insert_structure(LocalTileCoordinates { x: 3, y: 4 }, 42);
    map.insert_chunk(ChunkCoordinates { x: 0, y: 0 }, chunk);

    // Free tiles of the generated chunk are walkable.
    assert!(map.is_tile_walkable(TileCoordinates { x: 0, y: 0 }));
    assert!(map.is_tile_walkable(TileCoordinates { x: 31, y: 31 }));
    // The structure blocks its tile, and can be looked up.
    assert!(!map.is_tile_walkable(TileCoordinates { x: 3, y: 4 }));
    assert_eq!(map.get_tile(TileCoordinates { x: 3, y: 4 }), Some(42));
    // Outside the generated chunk the world stays blocked.
    assert!(!map.is_tile_walkable(TileCoordinates { x: -1, y: 0 }));
    assert!(!map.is_tile_walkable(TileCoordinates { x: 32, y: 0 }));
}

#[test]
fn structure_insert_replaces() {
    let mut chunk = StructureManager::new();
    let local = LocalTileCoordinates { x: 1, y: 1 };
    chunk.insert_structure(local, 7);
    assert_eq!(chunk.get_structure(local), Some(7));
    chunk.insert_structure(local, 8);
    assert_eq!(chunk.get_structure(local), Some(8));
    assert_eq!(chunk.get_structure(LocalTileCoordinates { x: 0, y: 1 }), None);
}

#[test]
fn default_recipe_book_crafts_iron_gears() {
    let book = RecipeBook::default();
    let recipe = book.get(RecipeId::IronPlateToIronGear).expect("shipped recipe");
    assert_eq!(
        recipe.inputs,
        vec![ItemStack {
            item_type: ItemType::IronPlate,
            quality: Quality::Standard,
            quantity: 2,
        }]
    );
    assert_eq!(
        recipe.outputs,
        vec![ItemStack {
            item_type: ItemType::IronGear,
            quality: Quality::Standard,
            quantity: 1,
        }]
    );
    assert_eq!(recipe.base_craft_time_ticks, DEFAULT_CRAFT_TIME_TICKS);
    assert!(book.get(RecipeId::CopperPlateToCopperWire).is_none());
}
