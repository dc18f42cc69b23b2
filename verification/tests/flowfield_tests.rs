use stellar_routine::flowfield::{
    calculate_flow_field_system, current_goal_tile, FlowField, FlowFieldConfig,
    RecalculateFlowField, FLOWFIELD_RADIUS, MAX_FLOWFIELD_RADIUS,
};
use stellar_routine::tile::TileCoordinates;
use stellar_routine::worldmap::{MapManager, StructureManager};

fn tile(x: i32, y: i32) -> TileCoordinates {
    TileCoordinates { x, y }
}

/// A world with chunk (0, 0) generated and walls standing on the given tiles
/// of it; every other chunk is ungenerated.
fn one_chunk_world(walls: &[(i32, i32)]) -> MapManager {
    let mut chunk = StructureManager::new();
    let mut entity: u64 = 1;
    for &(x, y) in walls {
        chunk.insert_structure(stellar_routine::tile::LocalTileCoordinates { x, y }, entity);
        entity += 1;
    }
    let mut map = MapManager::new();
    map.insert_chunk(stellar_routine::tile::ChunkCoordinates { x: 0, y: 0 }, chunk);
    map
}

fn rebuild(map: &MapManager, goal: TileCoordinates, radius: i32) -> FlowField {
    let config = FlowFieldConfig::new(radius).unwrap();
    let mut trigger = RecalculateFlowField::new();
    let mut field = FlowField::new();
    trigger.fire();
    let candidates = vec![goal];
    calculate_flow_field_system(&mut trigger, &mut field, map, &candidates, &config);
    assert!(!trigger.is_pending());
    field
}

fn cheb(a: TileCoordinates, b: TileCoordinates) -> i32 {
    (a.x - b.x).abs().max((a.y - b.y).abs())
}

#[test]
fn scenario_open_grid_descends_to_center() {
    // A fully open 5-by-5 square: goal at its center, radius 2.
    let map = one_chunk_world(&[]);
    let goal = tile(2, 2);
    let field = rebuild(&map, goal, 2);

    let mut covered = 0;
    for y in 0..=4 {
        for x in 0..=4 {
            let t = tile(x, y);
            if t == goal {
                assert!(field.get_next_step(t).is_none());
                continue;
            }
            let next = field.get_next_step(t).expect("every open tile is covered");
            // Each step closes in on the goal by exactly one ring.
            assert_eq!(cheb(next, goal), cheb(t, goal) - 1);
            // Tiles cardinally adjacent to the goal step straight onto it.
            if cheb(t, goal) == 1 && (t.x == goal.x || t.y == goal.y) {
                assert_eq!(next, goal);
            }
            covered += 1;
        }
    }
    assert_eq!(covered, 24);
    assert_eq!(field.len(), 24);
}

#[test]
fn scenario_wall_detour() {
    // A wall at (1, 2) between (0, 2) and the goal (2, 2): the blocked tile
    // is never entered, the route bends around it.
    let map = one_chunk_world(&[(1, 2)]);
    let goal = tile(2, 2);
    let field = rebuild(&map, goal, 2);

    let next = field.get_next_step(tile(0, 2)).expect("tile is covered");
    assert_ne!(next, tile(1, 2));
    assert!(next == tile(0, 1) || next == tile(0, 3));
    // The wall itself gets no entry.
    assert!(field.get_next_step(tile(1, 2)).is_none());
}

#[test]
fn scenario_corner_rule() {
    // Walls at (1, 0) and (0, 1) pinch the corner at (0, 0): the diagonal
    // step to (1, 1) would cut between them and must not be chosen, even
    // though (1, 1) is walkable and cheapest.
    let map = one_chunk_world(&[(1, 0), (0, 1)]);
    let goal = tile(2, 2);
    let field = rebuild(&map, goal, 2);

    let step = field.get_next_step(tile(0, 0));
    assert_ne!(step, Some(tile(1, 1)));
    // With both ways around blocked the corner tile is unreachable and gets
    // no entry at all.
    assert!(step.is_none());
    // The free neighbor (1, 1) itself still routes to the goal.
    assert_eq!(field.get_next_step(tile(1, 1)), Some(goal));
}

#[test]
fn scenario_no_goal_keeps_previous_field() {
    // A pending trigger with zero goal candidates: the tick drains the
    // trigger but the published field stays exactly as it was.
    let map = one_chunk_world(&[]);
    let goal = tile(2, 2);
    let mut field = rebuild(&map, goal, 2);
    let before = field.entries.clone();

    let config = FlowFieldConfig::new(2).unwrap();
    let mut trigger = RecalculateFlowField::new();
    trigger.fire();
    let candidates: Vec<TileCoordinates> = Vec::new();
    calculate_flow_field_system(&mut trigger, &mut field, &map, &candidates, &config);
    assert!(!trigger.is_pending());
    assert_eq!(field.entries, before);

    // Two goal candidates are just as degenerate.
    trigger.fire();
    let two = vec![goal, tile(0, 0)];
    calculate_flow_field_system(&mut trigger, &mut field, &map, &two, &config);
    assert_eq!(field.entries, before);
}

#[test]
fn rebuild_is_idempotent() {
    // Rebuilding twice with the goal and walkability unchanged yields
    // bit-for-bit identical contents.
    let map = one_chunk_world(&[(1, 2), (3, 3)]);
    let goal = tile(2, 2);
    let first = rebuild(&map, goal, 2);
    let second = rebuild(&map, goal, 2);
    assert_eq!(first.entries, second.entries);
}

#[test]
fn field_respects_radius_and_goal_exclusion() {
    let map = one_chunk_world(&[]);
    let goal = tile(2, 2);
    let field = rebuild(&map, goal, 2);
    // The goal is never a key.
    assert!(field.get_next_step(goal).is_none());
    // Walkable tiles beyond the radius get no entry.
    assert!(field.get_next_step(tile(5, 2)).is_none());
    assert!(field.get_next_step(tile(2, 5)).is_none());
    assert!(field.get_next_step(tile(31, 31)).is_none());
}

#[test]
fn ungenerated_chunks_stay_blocked() {
    // Goal at the chunk's corner: tiles of neighboring, never-generated
    // chunks are fail-closed and receive no entry.
    let map = one_chunk_world(&[]);
    let goal = tile(0, 0);
    let field = rebuild(&map, goal, 2);
    assert!(field.get_next_step(tile(-1, 0)).is_none());
    assert!(field.get_next_step(tile(-1, -1)).is_none());
    assert!(field.get_next_step(tile(0, -2)).is_none());
    // Tiles inside the generated chunk still route home.
    assert_eq!(field.get_next_step(tile(1, 0)), Some(goal));
    assert_eq!(field.get_next_step(tile(2, 2)), Some(tile(1, 1)));
}

#[test]
fn no_pending_trigger_is_a_noop() {
    let map = one_chunk_world(&[]);
    let goal = tile(2, 2);
    let config = FlowFieldConfig::new(2).unwrap();
    let mut trigger = RecalculateFlowField::new();
    let mut field = FlowField::new();
    let candidates = vec![goal];
    calculate_flow_field_system(&mut trigger, &mut field, &map, &candidates, &config);
    assert_eq!(field.len(), 0);
}

#[test]
fn trigger_coalesces_firings() {
    let mut trigger = RecalculateFlowField::new();
    assert!(!trigger.is_pending());
    trigger.fire();
    trigger.fire();
    trigger.fire();
    assert!(trigger.is_pending());
    assert!(trigger.drain());
    assert!(!trigger.is_pending());
    assert!(!trigger.drain());
}

#[test]
fn config_rejects_bad_radius() {
    assert!(FlowFieldConfig::new(0).is_none());
    assert!(FlowFieldConfig::new(-5).is_none());
    assert!(FlowFieldConfig::new(MAX_FLOWFIELD_RADIUS + 1).is_none());
    let config = FlowFieldConfig::new(FLOWFIELD_RADIUS).unwrap();
    assert_eq!(config.radius(), FLOWFIELD_RADIUS);
}

#[test]
fn goal_tracker_demands_exactly_one_candidate() {
    let none: Vec<TileCoordinates> = Vec::new();
    assert!(current_goal_tile(&none).is_none());
    let one = vec![tile(7, -3)];
    assert_eq!(current_goal_tile(&one), Some(tile(7, -3)));
    let two = vec![tile(7, -3), tile(0, 0)];
    assert!(current_goal_tile(&two).is_none());
}
