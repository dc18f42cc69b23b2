//! The flow-field pathfinding engine.
//!
//! Given the single goal tile, a configured radius and the walkability
//! provider, the builder runs a bounded weighted shortest-path expansion
//! outward from the goal (cardinal steps cost 10, diagonal steps 14, an
//! integer stand-in for the ratio 1 : sqrt 2) and derives, for every walkable
//! tile of the square around the goal, the adjacent tile with the cheapest
//! remaining path.  A diagonal step is admitted only when both orthogonal
//! shortcut tiles beside it are walkable, so no route clips through a wall's
//! corner.  The published `FlowField` maps each such tile to its best next
//! step; movement consumers read it through [`FlowField::get_next_step`].
//!
//! Rebuilds are driven by a debounced [`RecalculateFlowField`] trigger and run
//! at most once per simulation tick; when zero or several goal candidates are
//! present the rebuild is skipped and the previous field kept.

use vstd::prelude::*;

use crate::tile::TileCoordinates;
use crate::worldmap::{assoc_find, MapManager};

verus! {

/// Radius, in tiles, of the square the shipped configuration rebuilds around
/// the goal.
pub const FLOWFIELD_RADIUS: i32 = 50;

/// Largest accepted radius.  It keeps every cumulative path cost comfortably
/// inside `u32` (a shortest path visits each tile of the square at most once,
/// at cost at most 14 per step).
pub const MAX_FLOWFIELD_RADIUS: i32 = 1024;

/// Chebyshev distance between two lattice points: the larger of the two
/// per-axis absolute differences.
pub open spec fn cheb_dist(a: (int, int), b: (int, int)) -> int {
    let dx = if a.0 >= b.0 {
        a.0 - b.0
    } else {
        b.0 - a.0
    };
    let dy = if a.1 >= b.1 {
        a.1 - b.1
    } else {
        b.1 - a.1
    };
    if dx >= dy {
        dx
    } else {
        dy
    }
}

/// Whether `n` is one of the eight grid neighbors of `t`.
pub open spec fn adjacent(t: (int, int), n: (int, int)) -> bool {
    n != t && -1 <= n.0 - t.0 <= 1 && -1 <= n.1 - t.1 <= 1
}

/// Weight of one step between adjacent tiles: 10 for a cardinal step, 14 for
/// a diagonal one.
pub open spec fn step_weight(t: (int, int), n: (int, int)) -> int {
    if n.0 == t.0 || n.1 == t.1 {
        10
    } else {
        14
    }
}

/// Whether the expansion may step from `t` onto `n`, given the walkability
/// map `w`, the goal and the radius: `n` must be one of `t`'s eight
/// neighbors, lie within the radius of the goal and be walkable, and a
/// diagonal step additionally needs both orthogonal shortcut tiles beside it
/// walkable, so that no route cuts a corner.
pub open spec fn valid_move(
    w: Map<(int, int), bool>,
    goal: (int, int),
    radius: int,
    t: (int, int),
    n: (int, int),
) -> bool {
    &&& adjacent(t, n)
    &&& cheb_dist(n, goal) <= radius
    &&& w[n]
    &&& (n.0 != t.0 && n.1 != t.1 ==> w[(n.0, t.1)] && w[(t.0, n.1)])
}

/// The eight neighbor offsets in the fixed scan order of the engine: the
/// vertical offset varies in the outer position, the horizontal one in the
/// inner, and the zero offset is skipped.
pub open spec fn delta_seq() -> Seq<(int, int)> {
    seq![(-1, -1), (0, -1), (1, -1), (-1, 0), (1, 0), (-1, 1), (0, 1), (1, 1)]
}

/// Machine bounds under which the engine runs: a positive radius no larger
/// than [`MAX_FLOWFIELD_RADIUS`], and a goal far enough from the `i32` rim
/// that every tile of the square and its neighbors have representable
/// coordinates.
pub open spec fn goal_radius_bounds(goal: (int, int), radius: int) -> bool {
    &&& 1 <= radius <= MAX_FLOWFIELD_RADIUS
    &&& i32::MIN + radius + 1 <= goal.0 <= i32::MAX - radius - 1
    &&& i32::MIN + radius + 1 <= goal.1 <= i32::MAX - radius - 1
}

/// A cost strictly above every cumulative path cost the expansion can
/// produce; it stands for "unreached".
pub open spec fn cost_infinity() -> int {
    0x1_0000_0000
}

/// Cumulative cost of reaching `p`, read from the cost map `m`, with the goal
/// itself at cost zero: `None` when `p` was not reached.
pub open spec fn dest_cost(m: Map<(int, int), int>, goal: (int, int), p: (int, int)) -> Option<
    int,
> {
    if p == goal {
        Some(0)
    } else if m.dom().contains(p) {
        Some(m[p])
    } else {
        None
    }
}

/// Cost of the source tile `p` of an expansion edge (the goal costs zero).
pub open spec fn source_cost(m: Map<(int, int), int>, goal: (int, int), p: (int, int)) -> int {
    if p == goal {
        0
    } else {
        m[p]
    }
}

/// Whether `p` is the goal or a tile the expansion reached.
pub open spec fn reached_or_goal(m: Map<(int, int), int>, goal: (int, int), p: (int, int)) -> bool {
    p == goal || m.dom().contains(p)
}

/// What the bounded Dijkstra expansion guarantees of its cost map `m`:
/// the goal is not a key; every key is a walkable tile within the radius,
/// with a positive cost below [`cost_infinity`]; and the map is closed under
/// valid moves out of reached tiles, with costs that never improve by more
/// than one step's weight.
pub open spec fn cost_map_sound(
    w: Map<(int, int), bool>,
    goal: (int, int),
    radius: int,
    m: Map<(int, int), int>,
) -> bool {
    &&& !m.dom().contains(goal)
    &&& forall|q: (int, int)| #[trigger]
        m.dom().contains(q) ==> w[q] && cheb_dist(q, goal) <= radius && 0 < m[q] < cost_infinity()
    &&& forall|p: (int, int), q: (int, int)|
        reached_or_goal(m, goal, p) && #[trigger] valid_move(w, goal, radius, p, q) && q != goal
            ==> m.dom().contains(q) && m[q] <= source_cost(m, goal, p) + step_weight(p, q)
}

/// The cost map that the bounded Dijkstra expansion produces for a given
/// walkability map, goal and radius: every reachable tile (the goal itself
/// excluded), bound to its minimal cumulative path cost.  Minimal costs are a
/// function of these arguments alone, so the map carries a fixed, if
/// unstated, value for each of them.
pub uninterp spec fn dijkstra_cost_map(
    w: Map<(int, int), bool>,
    goal: (int, int),
    radius: int,
) -> Map<(int, int), int>;

/// A cost vector's entries over mathematical coordinates.
pub open spec fn cost_entries(s: Seq<(TileCoordinates, u32)>) -> Seq<((int, int), int)> {
    s.map_values(|p: (TileCoordinates, u32)| (p.0@, p.1 as int))
}

/// The map that a vector of tile/cost pairs denotes (earliest entry wins).
pub open spec fn cost_pairs_view(s: Seq<(TileCoordinates, u32)>) -> Map<(int, int), int> {
    Map::new(
        |p: (int, int)| assoc_find(cost_entries(s), p) is Some,
        |p: (int, int)| assoc_find(cost_entries(s), p).unwrap(),
    )
}

/// Decides [`valid_move`] for concrete tiles.  Differences are taken in
/// 64-bit arithmetic, so any pair of tiles may be asked.
pub fn check_move(
    map: &MapManager,
    goal: TileCoordinates,
    radius: i32,
    t: TileCoordinates,
    n: TileCoordinates,
) -> (r: bool)
    requires
        radius >= 0,
    ensures
        r == valid_move(map.walk_view(), goal@, radius as int, t@, n@),
{
    let dx: i64 = n.x as i64 - t.x as i64;
    let dy: i64 = n.y as i64 - t.y as i64;
    if (dx == 0 && dy == 0) || dx < -1 || dx > 1 || dy < -1 || dy > 1 {
        return false;
    }
    let cx: i64 = if n.x as i64 >= goal.x as i64 {
        n.x as i64 - goal.x as i64
    } else {
        goal.x as i64 - n.x as i64
    };
    let cy: i64 = if n.y as i64 >= goal.y as i64 {
        n.y as i64 - goal.y as i64
    } else {
        goal.y as i64 - n.y as i64
    };
    let cheb: i64 = if cx >= cy {
        cx
    } else {
        cy
    };
    if cheb > radius as i64 {
        return false;
    }
    if !map.is_tile_walkable(n) {
        return false;
    }
    if dx != 0 && dy != 0 {
        let shortcut_a = TileCoordinates { x: n.x, y: t.y };
        let shortcut_b = TileCoordinates { x: t.x, y: n.y };
        if !map.is_tile_walkable(shortcut_a) || !map.is_tile_walkable(shortcut_b) {
            return false;
        }
    }
    true
}

/// The `k`-th neighbor offset of the fixed scan order.
fn delta_of(k: usize) -> (r: (i32, i32))
    requires
        k < 8,
    ensures
        (r.0 as int, r.1 as int) == delta_seq()[k as int],
        -1 <= r.0 <= 1,
        -1 <= r.1 <= 1,
        !(r.0 == 0 && r.1 == 0),
{
    match k {
        0 => (-1, -1),
        1 => (0, -1),
        2 => (1, -1),
        3 => (-1, 0),
        4 => (1, 0),
        5 => (-1, 1),
        6 => (0, 1),
        _ => (1, 1),
    }
}

/// Every neighbor offset occurs in the fixed scan order.
proof fn lemma_delta_covers(d: (int, int))
    requires
        -1 <= d.0 <= 1,
        -1 <= d.1 <= 1,
        d != (0int, 0int),
    ensures
        exists|j: int| 0 <= j < 8 && delta_seq()[j] == d,
{
    if d == (-1int, -1int) {
        assert(delta_seq()[0] == d);
    } else if d == (0int, -1int) {
        assert(delta_seq()[1] == d);
    } else if d == (1int, -1int) {
        assert(delta_seq()[2] == d);
    } else if d == (-1int, 0int) {
        assert(delta_seq()[3] == d);
    } else if d == (1int, 0int) {
        assert(delta_seq()[4] == d);
    } else if d == (-1int, 1int) {
        assert(delta_seq()[5] == d);
    } else if d == (0int, 1int) {
        assert(delta_seq()[6] == d);
    } else {
        assert(d == (1int, 1int));
        assert(delta_seq()[7] == d);
    }
}

/// The weighted neighbor list the expansion hands to the shortest-path
/// search: exactly the tiles reachable from `t` by a valid move, each with
/// its step weight.
pub fn flow_successors(
    map: &MapManager,
    goal: TileCoordinates,
    radius: i32,
    t: TileCoordinates,
) -> (r: Vec<(TileCoordinates, u32)>)
    requires
        goal_radius_bounds(goal@, radius as int),
    ensures
        forall|i: int|
            0 <= i < r@.len() ==> valid_move(map.walk_view(), goal@, radius as int, t@, r@[i].0@)
                && r@[i].1 == step_weight(t@, r@[i].0@),
        forall|n: (int, int)| #[trigger]
            valid_move(map.walk_view(), goal@, radius as int, t@, n) ==> exists|i: int|
                0 <= i < r@.len() && r@[i].0@ == n,
{
    let ghost w = map.walk_view();
    let ghost rad = radius as int;
    let mut out: Vec<(TileCoordinates, u32)> = Vec::new();
    let mut k: usize = 0;
    while k < 8
        invariant
            0 <= k <= 8,
            goal_radius_bounds(goal@, rad),
            rad == radius as int,
            w == map.walk_view(),
            forall|i: int|
                0 <= i < out@.len() ==> valid_move(w, goal@, rad, t@, out@[i].0@) && out@[i].1
                    == step_weight(t@, out@[i].0@),
            forall|n: (int, int)|
                valid_move(w, goal@, rad, t@, n) && (exists|j: int|
                    0 <= j < k && delta_seq()[j] == (n.0 - t@.0, n.1 - t@.1)) ==> exists|i: int|
                    0 <= i < out@.len() && out@[i].0@ == n,
        decreases 8 - k,
    {
        let ghost out_pre = out@;
        let d = delta_of(k);
        let nx64: i64 = t.x as i64 + d.0 as i64;
        let ny64: i64 = t.y as i64 + d.1 as i64;
        let gx64: i64 = goal.x as i64;
        let gy64: i64 = goal.y as i64;
        let in_radius: bool = nx64 - gx64 <= radius as i64 && gx64 - nx64 <= radius as i64 && ny64
            - gy64 <= radius as i64 && gy64 - ny64 <= radius as i64;
        let ghost n_spec: (int, int) = (
            t@.0 + delta_seq()[k as int].0,
            t@.1 + delta_seq()[k as int].1,
        );
        let mut pushed: bool = false;
        if in_radius {
            let n = TileCoordinates { x: nx64 as i32, y: ny64 as i32 };
            assert(n@ == n_spec);
            if check_move(map, goal, radius, t, n) {
                let weight: u32 = if d.0 == 0 || d.1 == 0 {
                    10
                } else {
                    14
                };
                out.push((n, weight));
                pushed = true;
            }
        }
        proof {
            assert(!in_radius ==> cheb_dist(n_spec, goal@) > rad);
            assert(pushed ==> out@ == out_pre.push(out@[out@.len() - 1]) && out@[out@.len()
                - 1].0@ == n_spec);
            assert(!pushed ==> out@ == out_pre && !valid_move(w, goal@, rad, t@, n_spec));
            assert forall|n: (int, int)|
                valid_move(w, goal@, rad, t@, n) && (exists|j: int|
                    0 <= j < k + 1 && delta_seq()[j] == (n.0 - t@.0, n.1 - t@.1)) implies exists|
                i: int,
            |
                0 <= i < out@.len() && out@[i].0@ == n by {
                let j = choose|j: int|
                    0 <= j < k + 1 && delta_seq()[j] == (n.0 - t@.0, n.1 - t@.1);
                if j == k {
                    assert(n == n_spec);
                    assert(pushed);
                    assert(out@[out@.len() - 1].0@ == n);
                } else {
                    assert(exists|j2: int|
                        0 <= j2 < k && delta_seq()[j2] == (n.0 - t@.0, n.1 - t@.1));
                    let i = choose|i: int| 0 <= i < out_pre.len() && out_pre[i].0@ == n;
                    assert(out@[i].0@ == n);
                }
            }
        }
        k += 1;
    }
    proof {
        assert forall|n: (int, int)| #[trigger]
            valid_move(w, goal@, rad, t@, n) implies exists|i: int|
            0 <= i < out@.len() && out@[i].0@ == n by {
            lemma_delta_covers((n.0 - t@.0, n.1 - t@.1));
        }
    }
    out
}

/// Relies on `pathfinding::prelude::dijkstra_all` (pathfinding 4.16): a
/// Dijkstra expansion from `goal` under the successor function
/// [`flow_successors`], whose result maps every reachable node — the start
/// node excluded — to an optimal parent and the minimal cumulative cost from
/// the start.  The parents, whose choice among equals is unspecified, are
/// dropped; the keys and minimal costs are a function of the walkability map,
/// goal and radius alone, here named [`dijkstra_cost_map`], and satisfy
/// [`cost_map_sound`]: keys are walkable in-radius tiles yielded by
/// [`flow_successors`], costs are positive sums of at most `(2R+1)^2` steps of
/// weight at most 14 (so below [`cost_infinity`]), and minimality closes the
/// map under valid moves.  With the radius capped by
/// [`MAX_FLOWFIELD_RADIUS`], no cost sum overflows `u32`.
#[verifier::external_body]
fn dijkstra_costs(map: &MapManager, goal: TileCoordinates, radius: i32) -> (r: Vec<
    (TileCoordinates, u32),
>)
    requires
        goal_radius_bounds(goal@, radius as int),
    ensures
        cost_pairs_view(r@) == dijkstra_cost_map(map.walk_view(), goal@, radius as int),
        cost_map_sound(map.walk_view(), goal@, radius as int, cost_pairs_view(r@)),
{
    let parents = pathfinding::prelude::dijkstra_all(
        &goal,
        |t: &TileCoordinates| flow_successors(map, goal, radius, *t),
    );
    parents.into_iter().map(|(tile, (_parent, cost))| (tile, cost)).collect()
}

/// Starting minimum of the neighbor scan of `t`: the tile's own cost when
/// the expansion reached it, otherwise [`cost_infinity`].
pub open spec fn start_cost(m: Map<(int, int), int>, t: (int, int)) -> int {
    if m.dom().contains(t) {
        m[t]
    } else {
        cost_infinity()
    }
}

/// One step of the neighbor scan: the candidate reached through offset `d`
/// replaces the running minimum `st` exactly when the move is valid and its
/// cost is strictly lower.
pub open spec fn scan_state_step(
    w: Map<(int, int), bool>,
    goal: (int, int),
    radius: int,
    m: Map<(int, int), int>,
    t: (int, int),
    st: (int, Option<(int, int)>),
    d: (int, int),
) -> (int, Option<(int, int)>) {
    let n = (t.0 + d.0, t.1 + d.1);
    if valid_move(w, goal, radius, t, n) && dest_cost(m, goal, n) is Some && dest_cost(
        m,
        goal,
        n,
    ).unwrap() < st.0 {
        (dest_cost(m, goal, n).unwrap(), Some(n))
    } else {
        st
    }
}

/// State of the neighbor scan of `t` after its first `k` offsets, starting
/// from the tile's own cost and no candidate.
pub open spec fn scan_prefix(
    w: Map<(int, int), bool>,
    goal: (int, int),
    radius: int,
    m: Map<(int, int), int>,
    t: (int, int),
    k: int,
) -> (int, Option<(int, int)>)
    decreases k,
{
    if k <= 0 {
        (start_cost(m, t), None::<(int, int)>)
    } else {
        scan_state_step(w, goal, radius, m, t, scan_prefix(w, goal, radius, m, t, k - 1), delta_seq()[k - 1])
    }
}

/// The next step published for `t`: the first neighbor, in scan order, whose
/// cost attains the minimum over all validly reachable neighbors — provided
/// that minimum strictly beats the tile's own cost.  `None` when no valid
/// neighbor improves on it.
pub open spec fn best_step(
    w: Map<(int, int), bool>,
    goal: (int, int),
    radius: int,
    m: Map<(int, int), int>,
    t: (int, int),
) -> Option<(int, int)> {
    scan_prefix(w, goal, radius, m, t, 8).1
}

/// Whether the published field holds an entry for `t`: a walkable non-goal
/// tile of the square around the goal with an improving neighbor.
pub open spec fn flow_dom(
    w: Map<(int, int), bool>,
    goal: (int, int),
    radius: int,
    m: Map<(int, int), int>,
    t: (int, int),
) -> bool {
    &&& cheb_dist(t, goal) <= radius
    &&& t != goal
    &&& w[t]
    &&& best_step(w, goal, radius, m, t) is Some
}

/// The field derived from a cost map: every tile of [`flow_dom`] bound to its
/// [`best_step`].
pub open spec fn flow_spec(
    w: Map<(int, int), bool>,
    goal: (int, int),
    radius: int,
    m: Map<(int, int), int>,
) -> Map<(int, int), (int, int)> {
    Map::new(
        |t: (int, int)| flow_dom(w, goal, radius, m, t),
        |t: (int, int)| best_step(w, goal, radius, m, t).unwrap(),
    )
}

/// The field a rebuild publishes for a walkability map, goal and radius: the
/// derivation of [`flow_spec`] applied to the expansion's cost map.
pub open spec fn flow_build_spec(
    w: Map<(int, int), bool>,
    goal: (int, int),
    radius: int,
) -> Map<(int, int), (int, int)> {
    flow_spec(w, goal, radius, dijkstra_cost_map(w, goal, radius))
}

/// What any scan state satisfies: a candidate, if one is held, was reached by
/// a valid move, carries the running minimum as its cost, and strictly beats
/// the tile's own starting cost.
proof fn lemma_scan_prefix(
    w: Map<(int, int), bool>,
    goal: (int, int),
    radius: int,
    m: Map<(int, int), int>,
    t: (int, int),
    k: int,
)
    requires
        0 <= k <= 8,
    ensures
        ({
            let st = scan_prefix(w, goal, radius, m, t, k);
            &&& (st.1 is None ==> st.0 == start_cost(m, t))
            &&& (st.1 is Some ==> valid_move(w, goal, radius, t, st.1.unwrap()) && dest_cost(
                m,
                goal,
                st.1.unwrap(),
            ) == Some(st.0) && st.0 < start_cost(m, t))
        }),
    decreases k,
{
    if k > 0 {
        lemma_scan_prefix(w, goal, radius, m, t, k - 1);
    }
}

/// A valid move whose source is itself walkable and within the radius can be
/// walked back: the corner rule reads the same two shortcut tiles in both
/// directions.
proof fn lemma_valid_move_reverse(
    w: Map<(int, int), bool>,
    goal: (int, int),
    radius: int,
    t: (int, int),
    n: (int, int),
)
    requires
        valid_move(w, goal, radius, t, n),
        w[t],
        cheb_dist(t, goal) <= radius,
    ensures
        valid_move(w, goal, radius, n, t),
{
}

/// The intermediate cost table of one rebuild, wrapping the expansion's
/// tile/cost pairs for lookup.
struct CostMap {
    pairs: Vec<(TileCoordinates, u32)>,
}

impl View for CostMap {
    type V = Map<(int, int), int>;

    closed spec fn view(&self) -> Map<(int, int), int> {
        cost_pairs_view(self.pairs@)
    }
}

impl CostMap {
    fn from_pairs(pairs: Vec<(TileCoordinates, u32)>) -> (r: CostMap)
        ensures
            r@ == cost_pairs_view(pairs@),
    {
        CostMap { pairs }
    }

    /// The recorded cost of a tile, if the expansion reached it.
    fn get(&self, tile: TileCoordinates) -> (r: Option<u32>)
        ensures
            match r {
                Some(c) => self@.dom().contains(tile@) && c as int == self@[tile@],
                None => !self@.dom().contains(tile@),
            },
    {
        let ghost all = cost_entries(self.pairs@);
        proof {
            assert(all.skip(0) =~= all);
        }
        let mut i: usize = 0;
        while i < self.pairs.len()
            invariant
                0 <= i <= self.pairs.len(),
                all == cost_entries(self.pairs@),
                assoc_find(all, tile@) == assoc_find(all.skip(i as int), tile@),
            decreases self.pairs.len() - i,
        {
            let p = self.pairs[i];
            proof {
                assert(all.skip(i as int)[0] == (p.0@, p.1 as int));
                assert(all.skip(i as int).drop_first() =~= all.skip(i as int + 1));
            }
            if p.0.x == tile.x && p.0.y == tile.y {
                return Some(p.1);
            }
            i += 1;
        }
        proof {
            assert(all.skip(i as int) =~= Seq::<((int, int), int)>::empty());
        }
        None
    }
}

/// The published flow field: for each covered tile, the adjacent tile to step
/// toward next.  The store is written only by a rebuild, which replaces it
/// whole; between rebuilds any number of readers consult it.
#[derive(Debug, Clone)]
pub struct FlowField {
    pub entries: Vec<(TileCoordinates, TileCoordinates)>,
}

impl FlowField {
    /// The stored pairs over mathematical coordinates.
    pub open spec fn spec_entries(self) -> Seq<((int, int), (int, int))> {
        self.entries@.map_values(|p: (TileCoordinates, TileCoordinates)| (p.0@, p.1@))
    }
}

impl View for FlowField {
    type V = Map<(int, int), (int, int)>;

    open spec fn view(&self) -> Map<(int, int), (int, int)> {
        Map::new(
            |p: (int, int)| assoc_find(self.spec_entries(), p) is Some,
            |p: (int, int)| assoc_find(self.spec_entries(), p).unwrap(),
        )
    }
}

impl FlowField {
    /// An empty field, the state before the first rebuild.
    pub fn new() -> (r: FlowField)
        ensures
            r@ == Map::<(int, int), (int, int)>::empty(),
    {
        let r = FlowField { entries: Vec::new() };
        proof {
            assert(r@ =~= Map::<(int, int), (int, int)>::empty());
        }
        r
    }

    /// Binds a tile to its next step, replacing any step stored for it.
    fn push_step(&mut self, tile: TileCoordinates, next: TileCoordinates)
        ensures
            final(self)@ == old(self)@.insert(tile@, next@),
    {
        let ghost pre = *self;
        self.entries.insert(0, (tile, next));
        proof {
            assert(self.spec_entries() =~= pre.spec_entries().insert(0, (tile@, next@)));
            assert(self.spec_entries().drop_first() =~= pre.spec_entries());
            assert(self@ =~= pre@.insert(tile@, next@));
        }
    }

    /// The best adjacent tile to step toward from `tile`, if the field covers
    /// it: `Some` exactly on the keys of the published mapping.
    pub fn get_next_step(&self, tile: TileCoordinates) -> (r: Option<TileCoordinates>)
        ensures
            match r {
                Some(n) => self@.dom().contains(tile@) && n@ == self@[tile@],
                None => !self@.dom().contains(tile@),
            },
    {
        let ghost all = self.spec_entries();
        proof {
            assert(all.skip(0) =~= all);
        }
        let mut i: usize = 0;
        while i < self.entries.len()
            invariant
                0 <= i <= self.entries.len(),
                all == self.spec_entries(),
                assoc_find(all, tile@) == assoc_find(all.skip(i as int), tile@),
            decreases self.entries.len() - i,
        {
            let p = self.entries[i];
            proof {
                assert(all.skip(i as int)[0] == (p.0@, p.1@));
                assert(all.skip(i as int).drop_first() =~= all.skip(i as int + 1));
            }
            if p.0.x == tile.x && p.0.y == tile.y {
                return Some(p.1);
            }
            i += 1;
        }
        proof {
            assert(all.skip(i as int) =~= Seq::<((int, int), (int, int))>::empty());
        }
        None
    }

    /// How many tiles the field covers.
    pub fn len(&self) -> (r: usize)
        ensures
            r == self.entries@.len(),
    {
        self.entries.len()
    }
}

impl Default for FlowField {
    /// An empty field.
    fn default() -> (r: FlowField)
        ensures
            r@ == Map::<(int, int), (int, int)>::empty(),
    {
        FlowField::new()
    }
}

/// The debounced rebuild trigger.  Producers fire it when the goal moves to a
/// new tile or walkability changes nearby; however many firings arrive before
/// the next tick, the scheduler drains them into a single rebuild.
#[derive(Debug, Clone, Copy, PartialEq, Eq, Structural)]
pub struct RecalculateFlowField {
    pub pending: bool,
}

impl RecalculateFlowField {
    /// Whether a rebuild is owed at the next tick.
    pub open spec fn spec_pending(self) -> bool {
        self.pending
    }

    /// A quiet trigger: no rebuild owed.
    pub fn new() -> (r: RecalculateFlowField)
        ensures
            !r.spec_pending(),
    {
        RecalculateFlowField { pending: false }
    }

    /// Requests a rebuild.  Repeated requests before the next tick coalesce.
    pub fn fire(&mut self)
        ensures
            final(self).spec_pending(),
    {
        self.pending = true;
    }

    /// Whether a rebuild is owed at the next tick.
    pub fn is_pending(&self) -> (r: bool)
        ensures
            r == self.spec_pending(),
    {
        self.pending
    }

    /// Takes the pending state, leaving the trigger quiet, and reports
    /// whether a rebuild was owed.
    pub fn drain(&mut self) -> (was: bool)
        ensures
            !final(self).spec_pending(),
            was == old(self).spec_pending(),
    {
        let was = self.pending;
        self.pending = false;
        was
    }
}

impl Default for RecalculateFlowField {
    /// A quiet trigger.
    fn default() -> (r: RecalculateFlowField)
        ensures
            !r.spec_pending(),
    {
        RecalculateFlowField::new()
    }
}

/// Validated engine configuration: the rebuild radius.
#[derive(Debug, Clone, Copy, PartialEq, Eq, Structural)]
pub struct FlowFieldConfig {
    pub radius: i32,
}

impl FlowFieldConfig {
    /// The configured radius.
    pub open spec fn spec_radius(self) -> int {
        self.radius as int
    }

    /// Accepts a radius between 1 and [`MAX_FLOWFIELD_RADIUS`]; a zero,
    /// negative or oversized radius is a configuration error and is rejected.
    pub fn new(radius: i32) -> (r: Option<FlowFieldConfig>)
        ensures
            1 <= radius <= MAX_FLOWFIELD_RADIUS ==> r == Some(FlowFieldConfig { radius }),
            !(1 <= radius <= MAX_FLOWFIELD_RADIUS) ==> r is None,
    {
        if 1 <= radius && radius <= MAX_FLOWFIELD_RADIUS {
            Some(FlowFieldConfig { radius })
        } else {
            None
        }
    }

    /// The configured radius.
    pub fn radius(&self) -> (r: i32)
        ensures
            r as int == self.spec_radius(),
    {
        self.radius
    }
}

/// The tile of the single tracked goal: `Some` exactly when exactly one
/// candidate holds the goal role; zero or several candidates leave the goal
/// undefined and the rebuild skipped.
pub fn current_goal_tile(candidates: &Vec<TileCoordinates>) -> (r: Option<TileCoordinates>)
    ensures
        candidates@.len() == 1 ==> r == Some(candidates@[0]),
        candidates@.len() != 1 ==> r is None,
{
    if candidates.len() == 1 {
        Some(candidates[0])
    } else {
        None
    }
}

/// Scans the eight neighbors of `t` in the fixed order, tracking the minimum
/// cost seen (initialized from `t`'s own cost, or "infinite" when `t` was
/// unreached), and returns the neighbor recorded by [`best_step`].
fn scan_best_step(
    map: &MapManager,
    goal: TileCoordinates,
    radius: i32,
    cm: &CostMap,
    t: TileCoordinates,
) -> (r: Option<TileCoordinates>)
    requires
        goal_radius_bounds(goal@, radius as int),
        cheb_dist(t@, goal@) <= radius as int,
    ensures
        ({
            let bs = best_step(map.walk_view(), goal@, radius as int, cm@, t@);
            match r {
                Some(n) => bs == Some(n@),
                None => bs is None,
            }
        }),
{
    let ghost w = map.walk_view();
    let ghost rad = radius as int;
    let ghost m = cm@;
    let mut best: Option<TileCoordinates> = None;
    let mut min: u64 = match cm.get(t) {
        Some(c) => c as u64,
        None => 0x1_0000_0000u64,
    };
    assert(min as int == start_cost(m, t@));
    let mut k: usize = 0;
    while k < 8
        invariant
            0 <= k <= 8,
            goal_radius_bounds(goal@, rad),
            rad == radius as int,
            w == map.walk_view(),
            m == cm@,
            cheb_dist(t@, goal@) <= rad,
            min as int == scan_prefix(w, goal@, rad, m, t@, k as int).0,
            match best {
                Some(b) => scan_prefix(w, goal@, rad, m, t@, k as int).1 == Some(b@),
                None => scan_prefix(w, goal@, rad, m, t@, k as int).1 is None,
            },
        decreases 8 - k,
    {
        let ghost st_pre = scan_prefix(w, goal@, rad, m, t@, k as int);
        let d = delta_of(k);
        proof {
            assert(goal@.0 - rad <= t@.0 <= goal@.0 + rad && goal@.1 - rad <= t@.1 <= goal@.1
                + rad);
        }
        let nx: i32 = t.x + d.0;
        let ny: i32 = t.y + d.1;
        let n = TileCoordinates { x: nx, y: ny };
        assert(n@ == (t@.0 + delta_seq()[k as int].0, t@.1 + delta_seq()[k as int].1));
        if check_move(map, goal, radius, t, n) {
            let copt: Option<u32> = if nx == goal.x && ny == goal.y {
                Some(0u32)
            } else {
                cm.get(n)
            };
            proof {
                match copt {
                    Some(c) => {
                        assert(dest_cost(m, goal@, n@) == Some(c as int));
                    }
                    None => {
                        assert(dest_cost(m, goal@, n@) is None);
                    }
                }
            }
            match copt {
                Some(c) => {
                    if (c as u64) < min {
                        min = c as u64;
                        best = Some(n);
                    }
                }
                None => {}
            }
        }
        proof {
            assert(scan_prefix(w, goal@, rad, m, t@, k as int + 1) == scan_state_step(
                w,
                goal@,
                rad,
                m,
                t@,
                st_pre,
                delta_seq()[k as int],
            ));
        }
        k += 1;
    }
    best
}

/// The part of the derived field whose tiles precede row `y`, or sit in row
/// `y` before column `x`, in the row-major visit order of the rebuild.
spec fn flow_spec_upto(
    w: Map<(int, int), bool>,
    goal: (int, int),
    radius: int,
    m: Map<(int, int), int>,
    y: int,
    x: int,
) -> Map<(int, int), (int, int)> {
    Map::new(
        |t: (int, int)| flow_dom(w, goal, radius, m, t) && (t.1 < y || (t.1 == y && t.0 < x)),
        |t: (int, int)| best_step(w, goal, radius, m, t).unwrap(),
    )
}

/// One full rebuild: runs the bounded expansion from `goal`, then derives the
/// best next step of every walkable tile of the square and returns the new
/// field, leaving the caller to publish it as one atomic replacement.  The
/// result is exactly [`flow_build_spec`] of the current walkability, goal and
/// radius — in particular it is a function of those three values alone.
pub fn build_flow_field(map: &MapManager, goal: TileCoordinates, config: &FlowFieldConfig) -> (f:
    FlowField)
    requires
        goal_radius_bounds(goal@, config.spec_radius()),
    ensures
        f@ == flow_build_spec(map.walk_view(), goal@, config.spec_radius()),
        cost_map_sound(
            map.walk_view(),
            goal@,
            config.spec_radius(),
            dijkstra_cost_map(map.walk_view(), goal@, config.spec_radius()),
        ),
{
    let radius = config.radius();
    let ghost w = map.walk_view();
    let ghost rad = radius as int;
    let pairs = dijkstra_costs(map, goal, radius);
    let ghost m = dijkstra_cost_map(w, goal@, rad);
    let cm = CostMap::from_pairs(pairs);
    assert(cm@ == m);
    let mut f = FlowField::new();
    let mut y: i32 = goal.y - radius;
    proof {
        assert(f@ =~= flow_spec_upto(w, goal@, rad, m, y as int, goal@.0 - rad));
    }
    while y <= goal.y + radius
        invariant
            goal_radius_bounds(goal@, rad),
            rad == radius as int,
            w == map.walk_view(),
            m == cm@,
            m == dijkstra_cost_map(w, goal@, rad),
            cost_map_sound(w, goal@, rad, m),
            goal@.1 - rad <= y as int <= goal@.1 + rad + 1,
            f@ == flow_spec_upto(w, goal@, rad, m, y as int, goal@.0 - rad),
        decreases goal@.1 + rad + 1 - y,
    {
        let mut x: i32 = goal.x - radius;
        while x <= goal.x + radius
            invariant
                goal_radius_bounds(goal@, rad),
                rad == radius as int,
                w == map.walk_view(),
                m == cm@,
                m == dijkstra_cost_map(w, goal@, rad),
                cost_map_sound(w, goal@, rad, m),
                goal@.1 - rad <= y as int <= goal@.1 + rad,
                goal@.0 - rad <= x as int <= goal@.0 + rad + 1,
                f@ == flow_spec_upto(w, goal@, rad, m, y as int, x as int),
            decreases goal@.0 + rad + 1 - x,
        {
            let t = TileCoordinates { x, y };
            if !(x == goal.x && y == goal.y) && map.is_tile_walkable(t) {
                assert(cheb_dist(t@, goal@) <= rad);
                match scan_best_step(map, goal, radius, &cm, t) {
                    Some(b) => {
                        f.push_step(t, b);
                    }
                    None => {}
                }
            }
            proof {
                assert(f@ =~= flow_spec_upto(w, goal@, rad, m, y as int, x as int + 1));
            }
            x += 1;
        }
        proof {
            assert(f@ =~= flow_spec_upto(w, goal@, rad, m, y as int + 1, goal@.0 - rad));
        }
        y += 1;
    }
    proof {
        assert(f@ =~= flow_spec(w, goal@, rad, m));
    }
    f
}

/// One tick of the scheduling step that owns the store: drains the trigger;
/// when a rebuild was owed and exactly one goal candidate is present, builds
/// the new field and atomically replaces the store with it; otherwise — no
/// pending trigger, or zero or several goal candidates — the previous field
/// is kept unchanged.
pub fn calculate_flow_field_system(
    trigger: &mut RecalculateFlowField,
    flow_field: &mut FlowField,
    map: &MapManager,
    goal_candidates: &Vec<TileCoordinates>,
    config: &FlowFieldConfig,
)
    requires
        goal_candidates@.len() == 1 ==> goal_radius_bounds(
            goal_candidates@[0]@,
            config.spec_radius(),
        ),
    ensures
        !final(trigger).spec_pending(),
        !(old(trigger).spec_pending() && goal_candidates@.len() == 1) ==> *final(flow_field)
            == *old(flow_field),
        old(trigger).spec_pending() && goal_candidates@.len() == 1 ==> final(flow_field)@
            == flow_build_spec(map.walk_view(), goal_candidates@[0]@, config.spec_radius())
            && cost_map_sound(
            map.walk_view(),
            goal_candidates@[0]@,
            config.spec_radius(),
            dijkstra_cost_map(map.walk_view(), goal_candidates@[0]@, config.spec_radius()),
        ),
{
    if !trigger.drain() {
        return;
    }
    let goal = match current_goal_tile(goal_candidates) {
        Some(g) => g,
        None => {
            return;
        }
    };
    *flow_field = build_flow_field(map, goal, config);
}

/// Law: every tile the field covers steps onto one of its eight neighbors,
/// and that neighbor is walkable.
pub proof fn lemma_flow_neighbor_adjacency(
    w: Map<(int, int), bool>,
    goal: (int, int),
    radius: int,
    m: Map<(int, int), int>,
    t: (int, int),
)
    requires
        flow_spec(w, goal, radius, m).dom().contains(t),
    ensures
        adjacent(t, flow_spec(w, goal, radius, m)[t]),
        w[flow_spec(w, goal, radius, m)[t]],
{
    lemma_scan_prefix(w, goal, radius, m, t, 8);
}

/// Law: strict monotonic descent.  For every covered tile `t` with published
/// step `n`, both tiles were costed by the expansion (the goal at cost zero)
/// and the cost of `n` is strictly below the cost of `t`.
pub proof fn lemma_flow_monotonic_descent(
    w: Map<(int, int), bool>,
    goal: (int, int),
    radius: int,
    m: Map<(int, int), int>,
    t: (int, int),
)
    requires
        cost_map_sound(w, goal, radius, m),
        flow_spec(w, goal, radius, m).dom().contains(t),
    ensures
        m.dom().contains(t),
        dest_cost(m, goal, flow_spec(w, goal, radius, m)[t]) is Some,
        dest_cost(m, goal, flow_spec(w, goal, radius, m)[t]).unwrap() < m[t],
{
    lemma_scan_prefix(w, goal, radius, m, t, 8);
    let n = flow_spec(w, goal, radius, m)[t];
    lemma_valid_move_reverse(w, goal, radius, t, n);
    assert(reached_or_goal(m, goal, n));
    assert(valid_move(w, goal, radius, n, t));
    assert(m.dom().contains(t));
}

/// Law: no corner-cutting.  When the published step of `t` is diagonal, both
/// orthogonal shortcut tiles beside the step are walkable; a tile whose
/// shortcuts are blocked never receives that diagonal step, however cheap.
pub proof fn lemma_flow_no_corner_cut(
    w: Map<(int, int), bool>,
    goal: (int, int),
    radius: int,
    m: Map<(int, int), int>,
    t: (int, int),
)
    requires
        flow_spec(w, goal, radius, m).dom().contains(t),
    ensures
        ({
            let n = flow_spec(w, goal, radius, m)[t];
            n.0 != t.0 && n.1 != t.1 ==> w[(n.0, t.1)] && w[(t.0, n.1)]
        }),
{
    lemma_scan_prefix(w, goal, radius, m, t, 8);
}

/// Law: goal exclusion.  The goal tile is never a key of the field.
pub proof fn lemma_flow_goal_excluded(
    w: Map<(int, int), bool>,
    goal: (int, int),
    radius: int,
    m: Map<(int, int), int>,
)
    ensures
        !flow_spec(w, goal, radius, m).dom().contains(goal),
{
}

/// Law: radius bound.  Every key of the field lies within Chebyshev distance
/// `radius` of the goal.
pub proof fn lemma_flow_radius_bound(
    w: Map<(int, int), bool>,
    goal: (int, int),
    radius: int,
    m: Map<(int, int), int>,
    t: (int, int),
)
    requires
        flow_spec(w, goal, radius, m).dom().contains(t),
    ensures
        cheb_dist(t, goal) <= radius,
{
}

/// Law: idempotence.  Two rebuilds against the same walkability, goal and
/// radius publish identical fields; together with the exact postcondition of
/// [`build_flow_field`], rebuilding twice with nothing changed leaves the
/// store's contents identical.
pub proof fn lemma_flow_rebuild_idempotent(
    w: Map<(int, int), bool>,
    goal: (int, int),
    radius: int,
    f1: Map<(int, int), (int, int)>,
    f2: Map<(int, int), (int, int)>,
)
    requires
        f1 == flow_build_spec(w, goal, radius),
        f2 == flow_build_spec(w, goal, radius),
    ensures
        f1 == f2,
{
}

} // verus!
