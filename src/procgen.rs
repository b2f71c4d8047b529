//! The level generator: carves the playable disc, scatters forest and ruin
//! clusters, builds houses, then places the player, items and monsters on
//! shuffled candidate cells, all from the session's random stream.

use vstd::prelude::*;
use crate::grid::{
    buffer_index, buffer_of, cell_index, cell_of, coord_at, coord_of, in_grid, CellVisibility,
    Coord, Passability, WorldData, CELLS, FOV_CELLS,
};
use crate::population::{
    items_as, items_from, roster_from, spawned_as, pop_spec, ItemSpawn, Spawn, cells_where, interior_cells, no_cells, open_cells, all_placeable, appended_ok, is_scroll, new_player, place_items, place_monsters, placed_ok,
    placement_candidates, pop_or_origin,
};
use crate::character::Character;
use crate::rng::{shuffle_from, Random};
use crate::world::{
    has_player, occupancy_ok, player_unique, Actor, WorldEntity, LevelDepth, MapRadius, Simulation, TurnEntry,
};
use crate::sprites::{self, Tiles};
use crate::terrain::{
    floor_tile_list, forest_chance, forest_tile_list, obstruct_at, obstruction_cell, obstruction_cluster,
    obstruction_column, obstruction_rect, obstructions, ruin_tile_list, symbol_list, terrain, wall_tile_list,
    floor_column, floor_rect, house, houses, wall_column, wall_rect, carve_cells, Terrain,
};

verus! {

/// Scratch sets of the generator, one flag per grid cell.
pub struct Layout {
    /// Open floor not yet taken by an obstruction or a wall.
    pub okay: Vec<bool>,
    /// Cells preferred for items and monsters: forest and house interiors.
    pub interior: Vec<bool>,
    /// House wall cells placed so far.
    pub walls: Vec<bool>,
}

/// The world and the layout have the grid's sizes, and no solid cell is open
/// or interior.
pub open spec fn layout_ok(world: WorldData, layout: Layout) -> bool {
    &&& world.wf()
    &&& layout.okay@.len() == CELLS
    &&& layout.interior@.len() == CELLS
    &&& layout.walls@.len() == CELLS
    &&& forall|i: int|
        0 <= i < CELLS && #[trigger] world.solid@[i] ==> !layout.okay@[i] && !layout.interior@[i]
}

/// `new` differs from `old` at most in the terrain the generator shapes:
/// blocking map, memory and field of view are untouched.
pub open spec fn terrain_only(old: WorldData, new: WorldData) -> bool {
    &&& new.blocking@ == old.blocking@
    &&& new.memory@ == old.memory@
    &&& new.fov@ == old.fov@
    &&& forall|i: int| 0 <= i < CELLS && #[trigger] old.solid@[i] ==> new.solid@[i]
}

/// Whether `c` is strictly inside the disc of squared radius `r`.
pub open spec fn in_disc(c: Coord, r: i32) -> bool {
    c.x * c.x + c.y * c.y < r
}

/// The terrain carving starts from: sprites and passability as they were,
/// nothing solid, everything transparent, and empty scratch sets.
pub open spec fn carve_start(rng: u64, tiles: Seq<usize>, passability: Seq<Passability>) -> Terrain {
    Terrain {
        rng,
        tiles,
        passability,
        solid: Seq::new(CELLS as nat, |_k: int| false),
        transparent: Seq::new(FOV_CELLS as nat, |_k: int| true),
        okay: Seq::new(CELLS as nat, |_k: int| false),
        interior: Seq::new(CELLS as nat, |_k: int| false),
        walls: Seq::new(CELLS as nat, |_k: int| false),
    }
}

/// Resets the terrain and carves the playable disc: every cell strictly
/// inside the disc of squared radius `radius` becomes transparent open floor
/// with a random floor sprite; every other cell becomes solid, opaque void.
pub fn carve_disc(world: &mut WorldData, rng: &mut Random, radius: i32) -> (layout: Layout)
    requires
        old(world).wf(),
    ensures
        layout_ok(*final(world), layout),
        final(world).memory@ == old(world).memory@,
        final(world).fov@ == old(world).fov@,
        forall|i: int| 0 <= i < CELLS ==> #[trigger] final(world).blocking@[i] is None,
        forall|i: int|
            0 <= i < CELLS ==> #[trigger] final(world).solid@[i] == !in_disc(coord_of(i), radius),
        forall|i: int| 0 <= i < CELLS ==> #[trigger] layout.okay@[i] == in_disc(coord_of(i), radius),
        forall|i: int|
            0 <= i < CELLS ==> #[trigger] final(world).transparent@[buffer_of(coord_of(i))] == in_disc(
                coord_of(i),
                radius,
            ),
        forall|i: int| 0 <= i < CELLS ==> !#[trigger] layout.interior@[i],
        forall|i: int| 0 <= i < CELLS ==> !#[trigger] layout.walls@[i],
        terrain(final(rng)@, *final(world), layout) == carve_cells(carve_start(old(rng)@, old(world).tiles@, old(world).passability@), 0, radius, symbol_list()),
{
    let symbols = symbol_tiles();
    let void_tile = sprites::void().index();
    world.transparent = vec![true; FOV_CELLS];
    world.solid = vec![false; CELLS];
    world.blocking = vec![None; CELLS];
    world.visibility = vec![CellVisibility::Unseen; CELLS];
    let mut okay: Vec<bool> = vec![false; CELLS];
    let interior: Vec<bool> = vec![false; CELLS];
    let walls: Vec<bool> = vec![false; CELLS];
    let ghost start = carve_start(rng@, old(world).tiles@, old(world).passability@);
    assert(world.solid@ =~= start.solid);
    assert(world.transparent@ =~= start.transparent);
    assert(okay@ =~= start.okay);
    assert(interior@ =~= start.interior);
    assert(walls@ =~= start.walls);
    assert(terrain(rng@, *world, Layout { okay, interior, walls }) == start);
    let ghost target = carve_cells(start, 0, radius, symbol_list());
    let mut i: usize = 0;
    while i < CELLS
        invariant
            i <= CELLS,
            world.wf(),
            okay@.len() == CELLS,
            interior@ == start.interior,
            walls@ == start.walls,
            symbols@ == symbol_list(),
            void_tile == 196,
            world.memory@ == old(world).memory@,
            world.fov@ == old(world).fov@,
            forall|k: int| 0 <= k < CELLS ==> #[trigger] world.blocking@[k] is None,
            forall|k: int|
                0 <= k < CELLS ==> #[trigger] world.solid@[k] == (k < i && !in_disc(coord_of(k), radius)),
            forall|k: int| 0 <= k < CELLS ==> #[trigger] okay@[k] == (k < i && in_disc(coord_of(k), radius)),
            forall|k: int|
                0 <= k < i ==> #[trigger] world.transparent@[buffer_of(coord_of(k))] == in_disc(
                    coord_of(k),
                    radius,
                ),
            carve_cells(terrain(rng@, *world, Layout { okay, interior, walls }), i as int, radius, symbol_list()) == target,
        decreases CELLS - i,
    {
        let ghost t1 = terrain(rng@, *world, Layout { okay, interior, walls });
        let c = coord_at(i);
        proof {
            crate::grid::lemma_cell_of(c);
            assert forall|k: int| 0 <= k < i implies buffer_of(coord_of(k)) != buffer_of(c) by {
                crate::grid::lemma_coord_of(k);
            }
        }
        assert(0 <= c.x * c.x <= 3600 && 0 <= c.y * c.y <= 961) by (nonlinear_arith)
            requires
                -60 <= c.x <= 60,
                -31 <= c.y <= 31,
        ;
        let dist: i32 = c.x * c.x + c.y * c.y;
        let b = buffer_index(c);
        if dist < radius {
            let g = rng.gen(0, 8);
            world.tiles.set(i, symbols[g as usize]);
            world.passability.set(i, Passability::Passable);
            okay.set(i, true);
            world.transparent.set(b, true);
        } else {
            world.tiles.set(i, void_tile);
            world.passability.set(i, Passability::Blocking);
            world.transparent.set(b, false);
            world.solid.set(i, true);
        }
        assert(terrain(rng@, *world, Layout { okay, interior, walls }) == crate::terrain::carve_cell(t1, i as int, radius, symbol_list()));
        i = i + 1;
    }
    Layout { okay, interior, walls }
}

/// Turns the open cell `i` into an obstruction with sprite `tile`: a ruin
/// blocks movement and sight and becomes solid; a forest blocks sight only
/// and becomes an interior candidate. Either way it stops being open.
fn obstruct_cell(world: &mut WorldData, layout: &mut Layout, i: usize, tile: usize, ruin: bool)
    requires
        layout_ok(*old(world), *old(layout)),
        i < CELLS,
        old(layout).okay@[i as int],
    ensures
        layout_ok(*final(world), *final(layout)),
        terrain_only(*old(world), *final(world)),
        final(world).solid@ == (if ruin { old(world).solid@.update(i as int, true) } else { old(world).solid@ }),
        final(layout).okay@ == old(layout).okay@.update(i as int, false),
        final(layout).interior@ == old(layout).interior@.update(i as int, !ruin),
        final(layout).walls@ == old(layout).walls@,
        terrain(0, *final(world), *final(layout)) == obstruct_at(terrain(0, *old(world), *old(layout)), i as int, tile, ruin),
{
    let c = coord_at(i);
    proof {
        crate::grid::lemma_cell_of(c);
    }
    world.tiles.set(i, tile);
    if ruin {
        world.passability.set(i, Passability::Blocking);
        world.solid.set(i, true);
        layout.interior.set(i, false);
    } else {
        world.passability.set(i, Passability::SightBlocking);
        layout.interior.set(i, true);
    }
    layout.okay.set(i, false);
    world.transparent.set(buffer_index(c), false);
}

/// The forest sprite list at `depth`.
fn forest_tiles(depth: u32) -> (r: Vec<usize>)
    ensures
        r@ == forest_tile_list(depth),
{
    let mut forests: Vec<sprites::Tile> = vec![
        sprites::empty_floor(),
        sprites::forest1(),
        sprites::forest2(),
        sprites::forest3(),
    ];
    if depth == 3 {
        forests.push(sprites::forest4());
        forests.push(sprites::forest4());
        forests.push(sprites::forest4());
        forests.push(sprites::forest5());
    } else if depth == 4 {
        forests.push(sprites::forest4());
        forests.push(sprites::forest4());
        forests.push(sprites::forest5());
        forests.push(sprites::forest6());
        forests.push(sprites::forest7());
        forests.push(sprites::forest7());
    } else if depth == 5 {
        forests.push(sprites::forest4());
        forests.push(sprites::forest7());
        forests.push(sprites::forest8());
        forests.push(sprites::forest7());
        forests.push(sprites::forest8());
        forests.push(sprites::forest7());
        forests.push(sprites::forest8());
    }
    let r = Tiles::new().add_bunch(forests.as_slice()).done();
    assert(r@ =~= forest_tile_list(depth));
    r
}

/// The ruin sprite list.
fn ruin_tiles() -> (r: Vec<usize>)
    ensures
        r@ == ruin_tile_list(),
{
    let r = Tiles::new().add_more(sprites::wall1(), 4).add_bunch(
        vec![sprites::wall2(), sprites::wall3(), sprites::wall4(), sprites::wall5(), sprites::wall6()].as_slice(),
    ).done();
    assert(r@ =~= ruin_tile_list());
    r
}

/// The house wall sprite list.
fn wall_tiles() -> (r: Vec<usize>)
    ensures
        r@ == wall_tile_list(),
{
    let r = Tiles::new().add_one(sprites::wall1()).done();
    assert(r@ =~= wall_tile_list());
    r
}

/// The house floor sprite list.
fn floor_tiles() -> (r: Vec<usize>)
    ensures
        r@ == floor_tile_list(),
{
    let r = Tiles::new().add_more(sprites::interior_floor2(), 9).add_bunch(
        vec![
            sprites::exterior_floor1(),
            sprites::exterior_floor2(),
            sprites::exterior_floor3(),
            sprites::exterior_floor4(),
            sprites::interior_floor1(),
        ].as_slice(),
    ).done();
    assert(r@ =~= floor_tile_list());
    r
}

/// The floor sprite list of the open disc.
fn symbol_tiles() -> (r: Vec<usize>)
    ensures
        r@ == symbol_list(),
{
    let r = Tiles::new().add_more(sprites::empty_floor(), 4).add_bunch(
        vec![
            sprites::exterior_floor1(),
            sprites::exterior_floor2(),
            sprites::exterior_floor3(),
            sprites::exterior_floor4(),
        ].as_slice(),
    ).done();
    assert(r@ =~= symbol_list());
    r
}

/// Scatters `count` clusters of forest or ruin over open cells. Each cluster
/// has a random center within the grid's half extents and half sizes in
/// `[3, 6)` by `[4, 7)`; each open cell of its rectangle joins it with a
/// chance of three percent per unit of squared distance from the center.
pub fn make_obstructions(world: &mut WorldData, layout: &mut Layout, rng: &mut Random, count: u64, depth: u32)
    requires
        layout_ok(*old(world), *old(layout)),
    ensures
        layout_ok(*final(world), *final(layout)),
        terrain_only(*old(world), *final(world)),
        forall|i: int| 0 <= i < CELLS && #[trigger] final(layout).okay@[i] ==> old(layout).okay@[i],
        terrain(final(rng)@, *final(world), *final(layout)) == obstructions(
            terrain(old(rng)@, *old(world), *old(layout)),
            count as nat,
            forest_chance(depth),
            forest_tile_list(depth),
            ruin_tile_list(),
        ),
{
    let d: u32 = if depth <= 10000 { depth } else { 10000 };
    let forest_tiles = forest_tiles(depth);
    let ruin_tiles = ruin_tiles();
    let penalty: u32 = if d * 5 < 25 { d * 5 } else { 25 };
    let chance: u32 = 45 - penalty;
    assert(chance == forest_chance(depth));
    let ghost w0 = *world;
    let ghost l0 = *layout;
    let ghost target = obstructions(terrain(rng@, *world, *layout), count as nat, forest_chance(depth), forest_tiles@, ruin_tiles@);
    let mut attempt: u64 = 0;
    while attempt < count
        invariant
            attempt <= count,
            layout_ok(*world, *layout),
            terrain_only(w0, *world),
            forall|i: int| 0 <= i < CELLS && #[trigger] layout.okay@[i] ==> l0.okay@[i],
            forest_tiles@ == forest_tile_list(depth),
            ruin_tiles@ == ruin_tile_list(),
            chance == forest_chance(depth),
            obstructions(terrain(rng@, *world, *layout), (count - attempt) as nat, forest_chance(depth), forest_tiles@, ruin_tiles@)
                == target,
        decreases count - attempt,
    {
        let ghost t0 = terrain(rng@, *world, *layout);
        let mx = rng.gen(-60, 60);
        let my = rng.gen(-31, 31);
        let forest = rng.percent(chance);
        let (hx, hy) = rng.gen2d(3, 6, 4, 7);
        let ghost tiles = if forest { forest_tiles@ } else { ruin_tiles@ };
        let ghost rect_target = obstruction_cluster(t0, forest_chance(depth), forest_tiles@, ruin_tiles@);
        assert(obstruction_rect(terrain(rng@, *world, *layout), mx as int, my as int, forest, tiles, -hx, hx as int, hy as int) == rect_target);
        let mut i: i32 = -hx;
        while i <= hx
            invariant
                layout_ok(*world, *layout),
                terrain_only(w0, *world),
                forall|k: int| 0 <= k < CELLS && #[trigger] layout.okay@[k] ==> l0.okay@[k],
                forest_tiles@ == forest_tile_list(depth),
                ruin_tiles@ == ruin_tile_list(),
                tiles == (if forest { forest_tiles@ } else { ruin_tiles@ }),
                -60 <= mx < 60,
                -31 <= my < 31,
                3 <= hx < 6,
                4 <= hy < 7,
                -hx <= i <= hx + 1,
                obstruction_rect(terrain(rng@, *world, *layout), mx as int, my as int, forest, tiles, i as int, hx as int, hy as int)
                    == rect_target,
            decreases hx + 1 - i,
        {
            let ghost col_target = obstruction_column(terrain(rng@, *world, *layout), mx as int, my as int, forest, tiles, i as int, -hy, hy as int);
            let mut j: i32 = -hy;
            while j <= hy
                invariant
                    layout_ok(*world, *layout),
                    terrain_only(w0, *world),
                    forall|k: int| 0 <= k < CELLS && #[trigger] layout.okay@[k] ==> l0.okay@[k],
                    forest_tiles@ == forest_tile_list(depth),
                    ruin_tiles@ == ruin_tile_list(),
                    tiles == (if forest { forest_tiles@ } else { ruin_tiles@ }),
                    -60 <= mx < 60,
                    -31 <= my < 31,
                    3 <= hx < 6,
                    4 <= hy < 7,
                    -hx <= i <= hx,
                    -hy <= j <= hy + 1,
                    obstruction_column(terrain(rng@, *world, *layout), mx as int, my as int, forest, tiles, i as int, j as int, hy as int)
                        == col_target,
                decreases hy + 1 - j,
            {
                let ghost t1 = terrain(rng@, *world, *layout);
                let pos = Coord { x: mx + i, y: my + j };
                assert(0 <= i * i <= 25 && 0 <= j * j <= 36) by (nonlinear_arith)
                    requires
                        -5 <= i <= 5,
                        -6 <= j <= 6,
                ;
                let dist: u32 = (i * i + j * j) as u32;
                let tile = if forest {
                    rng.pick(forest_tiles.as_slice())
                } else {
                    rng.pick(ruin_tiles.as_slice())
                };
                if let Some(ci) = cell_index(pos) {
                    if layout.okay[ci] {
                        if rng.percent(3 * dist) {
                            obstruct_cell(world, layout, ci, tile, !forest);
                        }
                    }
                }
                assert(terrain(rng@, *world, *layout) == obstruction_cell(t1, pos, (i * i + j * j) as int, forest, tiles));
                j = j + 1;
            }
            i = i + 1;
        }
        attempt = attempt + 1;
    }
}

/// Lays a wall sprite on the open cell `i` and records it as a wall; the
/// cell turns opaque. It stays open until the walls settle.
fn place_wall(world: &mut WorldData, layout: &mut Layout, i: usize, tile: usize)
    requires
        layout_ok(*old(world), *old(layout)),
        i < CELLS,
    ensures
        layout_ok(*final(world), *final(layout)),
        terrain_only(*old(world), *final(world)),
        final(world).solid@ == old(world).solid@,
        final(layout).okay@ == old(layout).okay@,
        final(layout).interior@ == old(layout).interior@,
        final(layout).walls@ == old(layout).walls@.update(i as int, true),
        terrain(0, *final(world), *final(layout)) == crate::terrain::wall_at(terrain(0, *old(world), *old(layout)), i as int, tile),
{
    let c = coord_at(i);
    proof {
        crate::grid::lemma_cell_of(c);
    }
    world.tiles.set(i, tile);
    layout.walls.set(i, true);
    world.transparent.set(buffer_index(c), false);
}

/// Carves the open cell `i` into house floor: transparent, not solid, not a
/// wall, and an interior candidate.
fn place_floor(world: &mut WorldData, layout: &mut Layout, i: usize, tile: usize)
    requires
        layout_ok(*old(world), *old(layout)),
        i < CELLS,
        old(layout).okay@[i as int],
    ensures
        layout_ok(*final(world), *final(layout)),
        terrain_only(*old(world), *final(world)),
        final(world).solid@ == old(world).solid@.update(i as int, false),
        final(layout).okay@ == old(layout).okay@,
        final(layout).interior@ == old(layout).interior@.update(i as int, true),
        final(layout).walls@ == old(layout).walls@.update(i as int, false),
        terrain(0, *final(world), *final(layout)) == crate::terrain::floor_at(terrain(0, *old(world), *old(layout)), i as int, tile),
{
    let c = coord_at(i);
    proof {
        crate::grid::lemma_cell_of(c);
    }
    world.tiles.set(i, tile);
    layout.walls.set(i, false);
    world.transparent.set(buffer_index(c), true);
    world.solid.set(i, false);
    layout.interior.set(i, true);
}

/// Every wall on a still-open cell becomes solid, blocking terrain and
/// leaves the open and interior sets.
fn settle_walls(world: &mut WorldData, layout: &mut Layout)
    requires
        layout_ok(*old(world), *old(layout)),
    ensures
        layout_ok(*final(world), *final(layout)),
        terrain_only(*old(world), *final(world)),
        final(layout).walls@ == old(layout).walls@,
        forall|i: int|
            0 <= i < CELLS ==> #[trigger] final(layout).okay@[i] == (old(layout).okay@[i] && !old(layout).walls@[i]),
        terrain(0, *final(world), *final(layout)) == crate::terrain::settle(terrain(0, *old(world), *old(layout))),
{
    let ghost w0 = *world;
    let ghost l0 = *layout;
    let mut i: usize = 0;
    while i < CELLS
        invariant
            i <= CELLS,
            layout_ok(*world, *layout),
            terrain_only(w0, *world),
            layout.walls@ == l0.walls@,
            world.tiles@ == w0.tiles@,
            world.transparent@ == w0.transparent@,
            forall|k: int|
                0 <= k < CELLS ==> #[trigger] layout.okay@[k] == if k < i {
                    l0.okay@[k] && !l0.walls@[k]
                } else {
                    l0.okay@[k]
                },
            forall|k: int|
                0 <= k < CELLS ==> #[trigger] layout.interior@[k] == if k < i && l0.walls@[k] && l0.okay@[k] {
                    false
                } else {
                    l0.interior@[k]
                },
            forall|k: int|
                0 <= k < CELLS ==> #[trigger] world.solid@[k] == if k < i && l0.walls@[k] && l0.okay@[k] {
                    true
                } else {
                    w0.solid@[k]
                },
            forall|k: int|
                0 <= k < CELLS ==> #[trigger] world.passability@[k] == if k < i && l0.walls@[k] && l0.okay@[k] {
                    Passability::Blocking
                } else {
                    w0.passability@[k]
                },
        decreases CELLS - i,
    {
        if layout.walls[i] && layout.okay[i] {
            world.passability.set(i, Passability::Blocking);
            layout.okay.set(i, false);
            layout.interior.set(i, false);
            world.solid.set(i, true);
        }
        i = i + 1;
    }
    proof {
        let t = terrain(0, *world, *layout);
        let s = crate::terrain::settle(terrain(0, w0, l0));
        assert(t.okay =~= s.okay);
        assert(t.interior =~= s.interior);
        assert(t.solid =~= s.solid);
        assert(t.passability =~= s.passability);
    }
}

/// Builds `count` houses. Each has a random center within the grid's half
/// extents and half sizes in `[3, 7)` on both axes; every open cell of its
/// rectangle gets a wall with a chance of 71 in 100, then every open cell
/// strictly inside is carved to floor (dropping any wall there), and the
/// remaining walls settle into solid terrain.
pub fn make_houses(world: &mut WorldData, layout: &mut Layout, rng: &mut Random, count: u64)
    requires
        layout_ok(*old(world), *old(layout)),
    ensures
        layout_ok(*final(world), *final(layout)),
        terrain_only(*old(world), *final(world)),
        forall|i: int| 0 <= i < CELLS && #[trigger] final(layout).okay@[i] ==> old(layout).okay@[i],
        terrain(final(rng)@, *final(world), *final(layout)) == houses(
            terrain(old(rng)@, *old(world), *old(layout)),
            count as nat,
            wall_tile_list(),
            floor_tile_list(),
        ),
{
    let wall_tiles = wall_tiles();
    let floor_tiles = floor_tiles();
    let ghost w0 = *world;
    let ghost l0 = *layout;
    let ghost target = houses(terrain(rng@, *world, *layout), count as nat, wall_tiles@, floor_tiles@);
    let mut attempt: u64 = 0;
    while attempt < count
        invariant
            attempt <= count,
            layout_ok(*world, *layout),
            terrain_only(w0, *world),
            forall|k: int| 0 <= k < CELLS && #[trigger] layout.okay@[k] ==> l0.okay@[k],
            wall_tiles@ == wall_tile_list(),
            floor_tiles@ == floor_tile_list(),
            houses(terrain(rng@, *world, *layout), (count - attempt) as nat, wall_tiles@, floor_tiles@) == target,
        decreases count - attempt,
    {
        let ghost t0 = terrain(rng@, *world, *layout);
        let (mx, my) = rng.gen2d(-60, 60, -31, 31);
        let (rx, ry) = rng.gen2d(3, 7, 3, 7);
        let ghost walled = wall_rect(terrain(rng@, *world, *layout), mx as int, my as int, wall_tiles@, -rx, rx as int, ry as int);
        let mut i: i32 = -rx;
        while i <= rx
            invariant
                layout_ok(*world, *layout),
                terrain_only(w0, *world),
                forall|k: int| 0 <= k < CELLS && #[trigger] layout.okay@[k] ==> l0.okay@[k],
                wall_tiles@ == wall_tile_list(),
                -60 <= mx < 60,
                -31 <= my < 31,
                3 <= rx < 7,
                3 <= ry < 7,
                -rx <= i <= rx + 1,
                wall_rect(terrain(rng@, *world, *layout), mx as int, my as int, wall_tiles@, i as int, rx as int, ry as int) == walled,
            decreases rx + 1 - i,
        {
            let ghost col_target = wall_column(terrain(rng@, *world, *layout), mx as int, my as int, wall_tiles@, i as int, -ry, ry as int);
            let mut j: i32 = -ry;
            while j <= ry
                invariant
                    layout_ok(*world, *layout),
                    terrain_only(w0, *world),
                    forall|k: int| 0 <= k < CELLS && #[trigger] layout.okay@[k] ==> l0.okay@[k],
                    wall_tiles@ == wall_tile_list(),
                    -60 <= mx < 60,
                    -31 <= my < 31,
                    3 <= rx < 7,
                    3 <= ry < 7,
                    -rx <= i <= rx,
                    -ry <= j <= ry + 1,
                    wall_column(terrain(rng@, *world, *layout), mx as int, my as int, wall_tiles@, i as int, j as int, ry as int)
                        == col_target,
                decreases ry + 1 - j,
            {
                let ghost t1 = terrain(rng@, *world, *layout);
                let pos = Coord { x: mx + i, y: my + j };
                let roll = rng.gen(0, 100);
                if roll <= 70 {
                    if let Some(ci) = cell_index(pos) {
                        if layout.okay[ci] {
                            let tile = rng.pick(wall_tiles.as_slice());
                            place_wall(world, layout, ci, tile);
                        }
                    }
                }
                assert(terrain(rng@, *world, *layout) == crate::terrain::wall_cell(t1, pos, wall_tiles@));
                j = j + 1;
            }
            i = i + 1;
        }
        let ghost floored = floor_rect(walled, mx as int, my as int, floor_tiles@, -rx + 1, rx as int, ry as int);
        let mut i: i32 = -rx + 1;
        while i < rx
            invariant
                layout_ok(*world, *layout),
                terrain_only(w0, *world),
                forall|k: int| 0 <= k < CELLS && #[trigger] layout.okay@[k] ==> l0.okay@[k],
                floor_tiles@ == floor_tile_list(),
                -60 <= mx < 60,
                -31 <= my < 31,
                3 <= rx < 7,
                3 <= ry < 7,
                -rx + 1 <= i <= rx,
                floor_rect(terrain(rng@, *world, *layout), mx as int, my as int, floor_tiles@, i as int, rx as int, ry as int) == floored,
            decreases rx - i,
        {
            let ghost col_target = floor_column(terrain(rng@, *world, *layout), mx as int, my as int, floor_tiles@, i as int, -ry + 1, ry as int);
            let mut j: i32 = -ry + 1;
            while j < ry
                invariant
                    layout_ok(*world, *layout),
                    terrain_only(w0, *world),
                    forall|k: int| 0 <= k < CELLS && #[trigger] layout.okay@[k] ==> l0.okay@[k],
                    floor_tiles@ == floor_tile_list(),
                    -60 <= mx < 60,
                    -31 <= my < 31,
                    3 <= rx < 7,
                    3 <= ry < 7,
                    -rx + 1 <= i < rx,
                    -ry + 1 <= j <= ry,
                    floor_column(terrain(rng@, *world, *layout), mx as int, my as int, floor_tiles@, i as int, j as int, ry as int)
                        == col_target,
                decreases ry - j,
            {
                let ghost t1 = terrain(rng@, *world, *layout);
                let pos = Coord { x: mx + i, y: my + j };
                if let Some(ci) = cell_index(pos) {
                    if layout.okay[ci] {
                        let tile = rng.pick(floor_tiles.as_slice());
                        place_floor(world, layout, ci, tile);
                    }
                }
                assert(terrain(rng@, *world, *layout) == crate::terrain::floor_cell(t1, pos, floor_tiles@));
                j = j + 1;
            }
            i = i + 1;
        }
        let ghost pre = terrain(rng@, *world, *layout);
        settle_walls(world, layout);
        assert(terrain(rng@, *world, *layout) == crate::terrain::settle(pre));
        assert(terrain(rng@, *world, *layout) == house(t0, wall_tiles@, floor_tiles@));
        attempt = attempt + 1;
    }
}

/// What triggers a level generation.
#[derive(Clone, Copy, PartialEq, Eq, Structural, Debug)]
pub enum ProcGenEvent {
    /// Start over at depth 1 with a new player.
    RestartWorld,
    /// Go one level deeper with the same player, on a smaller disc.
    NextLevel,
}

/// The squared radius after one shrink: 50 less, but no less than 50.
pub open spec fn next_radius(r: i32) -> i32 {
    if r - 50 <= 50 { 50 } else { (r - 50) as i32 }
}

/// The radius after a generation triggered by `e`: a restart leaves it alone.
pub open spec fn radius_after(e: ProcGenEvent, r: MapRadius) -> MapRadius {
    match e {
        ProcGenEvent::RestartWorld => r,
        ProcGenEvent::NextLevel => MapRadius(next_radius(r.0)),
    }
}

/// The depth after a generation triggered by `e`: a restart goes back to 1,
/// a next level advances by one; the tuning value stays.
pub open spec fn depth_after(e: ProcGenEvent, d: LevelDepth) -> LevelDepth {
    match e {
        ProcGenEvent::RestartWorld => LevelDepth(1, d.1),
        ProcGenEvent::NextLevel => LevelDepth(if d.0 < u32::MAX { (d.0 + 1) as u32 } else { d.0 }, d.1),
    }
}

/// Shrinks the playable disc by one step.
pub fn shrink_radius(r: MapRadius) -> (n: MapRadius)
    ensures
        n.0 == next_radius(r.0),
{
    if r.0 <= 100 {
        MapRadius(50)
    } else {
        MapRadius(r.0 - 50)
    }
}

/// The terrain a generation triggered by `e` produces from session state
/// `s`: the disc carved with the new radius, then the obstruction clusters
/// and houses of the new depth.
pub open spec fn level_terrain(s: Simulation, e: ProcGenEvent) -> Terrain {
    terrain_for(s.rng@, s.world.tiles@, s.world.passability@, radius_after(e, s.radius).0, depth_after(e, s.depth).0)
}

/// The terrain built from random state `rng` over the previous sprites and
/// passability for squared radius `radius` at `depth`.
#[verifier::opaque]
pub open spec fn terrain_for(rng: u64, tiles: Seq<usize>, passability: Seq<Passability>, radius: i32, depth: u32) -> Terrain {
    let d = if depth <= 10000 { depth as int } else { 10000 };
    let carved = carve_cells(carve_start(rng, tiles, passability), 0, radius, symbol_list());
    let obstructed = obstructions(carved, (20 + 3 * d) as nat, forest_chance(depth), forest_tile_list(depth), ruin_tile_list());
    houses(obstructed, (if 2 * d < 40 { 40 - 2 * d } else { 0 }) as nat, wall_tile_list(), floor_tile_list())
}

/// Carves the disc, scatters the obstructions and builds the houses of a
/// level at `depth` with squared radius `radius`.
fn build_terrain(world: &mut WorldData, rng: &mut Random, radius: i32, depth: u32) -> (layout: Layout)
    requires
        old(world).wf(),
    ensures
        layout_ok(*final(world), layout),
        final(world).memory@ == old(world).memory@,
        final(world).fov@ == old(world).fov@,
        forall|i: int| 0 <= i < CELLS ==> #[trigger] final(world).blocking@[i] is None,
        forall|i: int| 0 <= i < CELLS && !in_disc(coord_of(i), radius) ==> #[trigger] final(world).solid@[i],
        terrain(final(rng)@, *final(world), layout) == terrain_for(
            old(rng)@,
            old(world).tiles@,
            old(world).passability@,
            radius,
            depth,
        ),
{
    let mut layout = carve_disc(world, rng, radius);
    let ghost w1 = *world;
    let d: u64 = if depth <= 10000 { depth as u64 } else { 10000 };
    make_obstructions(world, &mut layout, rng, 20 + 3 * d, depth);
    let house_count: u64 = if 2 * d < 40 { 40 - 2 * d } else { 0 };
    make_houses(world, &mut layout, rng, house_count);
    proof {
        assert forall|i: int| 0 <= i < CELLS && !in_disc(coord_of(i), radius) implies #[trigger] world.solid@[i] by {
            assert(w1.solid@[i]);
        }
        reveal(terrain_for);
    }
    layout
}

/// Where the player of `actors` stands.
pub open spec fn player_position(actors: Seq<Actor>) -> Coord {
    actors[choose|p: int| 0 <= p < actors.len() && #[trigger] actors[p].entity.is_player].entity.position
}

/// What a generation places, besides the terrain: the player's cell, the
/// items and monsters in order, and the random state it ends in.
pub struct Population {
    pub player: Coord,
    pub items: Seq<ItemSpawn>,
    pub monsters: Seq<Spawn>,
    pub rng: u64,
}

/// The population a generation triggered by `e` produces from session state
/// `s`: candidate lists shuffled after the terrain is built, the player on
/// the last open candidate (on a next level, staying put when there is
/// none), then items and monsters on interior candidates.
pub open spec fn level_population(s: Simulation, e: ProcGenEvent) -> Population {
    let t = level_terrain(s, e);
    let depth = depth_after(e, s.depth).0;
    let inner = cells_where(t.interior, no_cells(), CELLS as nat);
    let open = cells_where(t.okay, t.interior, CELLS as nat);
    let si = shuffle_from(t.rng, inner, inner.len());
    let so = shuffle_from(si.1, open, open.len());
    let player = if e == ProcGenEvent::RestartWorld {
        pop_spec(so.0).0
    } else if so.0.len() > 0 {
        so.0.last()
    } else {
        player_position(s.actors@)
    };
    let it = items_from(so.1, si.0, depth);
    let m = roster_from(it.1, it.2, depth);
    Population { player, items: it.0, monsters: m.0, rng: m.1 }
}

/// Generation is a function of the session state: two sessions that agree on
/// the random state, the counters, the previous sprites and (for a next
/// level) the player's cell generate the same terrain, candidate lists,
/// player cell, items and monsters, and end in the same random state, for
/// the same trigger.
pub proof fn lemma_generation_deterministic(a: Simulation, b: Simulation, e: ProcGenEvent)
    requires
        a.rng@ == b.rng@,
        a.radius == b.radius,
        a.depth == b.depth,
        a.world.tiles@ == b.world.tiles@,
        a.world.passability@ == b.world.passability@,
        e == ProcGenEvent::NextLevel ==> player_position(a.actors@) == player_position(b.actors@),
    ensures
        level_terrain(a, e) == level_terrain(b, e),
        level_population(a, e) == level_population(b, e),
        cells_where(level_terrain(a, e).interior, no_cells(), CELLS as nat) == cells_where(
            level_terrain(b, e).interior,
            no_cells(),
            CELLS as nat,
        ),
        cells_where(level_terrain(a, e).okay, level_terrain(a, e).interior, CELLS as nat) == cells_where(
            level_terrain(b, e).okay,
            level_terrain(b, e).interior,
            CELLS as nat,
        ),
{
}

/// Sizes of the candidate lists of a generated level, before any was taken.
#[derive(Clone, Copy, PartialEq, Eq, Structural, Debug)]
pub struct LevelSummary {
    pub interior_candidates: usize,
    pub spawn_candidates: usize,
}

/// Records every blocking actor in the (empty) blocking map, from the last
/// actor to the first, so that on a shared cell the earliest actor (the
/// player, at index 0) keeps the entry.
fn rebuild_blocking(world: &mut WorldData, actors: &Vec<Actor>)
    requires
        old(world).wf(),
        forall|i: int| 0 <= i < CELLS ==> #[trigger] old(world).blocking@[i] is None,
    ensures
        final(world).wf(),
        final(world).same_but_blocking(*old(world)),
        occupancy_ok(*final(world), actors@),
        forall|a: int|
            0 <= a < actors@.len() && (#[trigger] actors@[a]).entity.blocking && in_grid(actors@[a].entity.position)
                ==> final(world).blocker_at(actors@[a].entity.position) is Some,
        actors@.len() > 0 && actors@[0].entity.blocking && in_grid(actors@[0].entity.position)
            ==> final(world).blocker_at(actors@[0].entity.position) == Some(0usize),
{
    let ghost w0 = *world;
    let mut a: usize = actors.len();
    while a > 0
        invariant
            a <= actors@.len(),
            world.wf(),
            world.same_but_blocking(w0),
            occupancy_ok(*world, actors@),
            forall|k: int|
                a <= k < actors@.len() && (#[trigger] actors@[k]).entity.blocking && in_grid(actors@[k].entity.position)
                    ==> world.blocker_at(actors@[k].entity.position) is Some,
            a == 0 && actors@.len() > 0 && actors@[0].entity.blocking && in_grid(actors@[0].entity.position)
                ==> world.blocker_at(actors@[0].entity.position) == Some(0usize),
        decreases a,
    {
        a = a - 1;
        if actors[a].entity.blocking {
            let pos = actors[a].entity.position;
            world.mark_blocking(pos, a);
            proof {
                if in_grid(pos) {
                    crate::grid::lemma_cell_of(pos);
                }
            }
        }
    }
}

/// The turn takers among the first `n` actors, in order, each at zero
/// energy: the player and the monsters.
pub open spec fn turn_takers(actors: Seq<Actor>, n: nat) -> Seq<TurnEntry>
    decreases n,
{
    if n == 0 {
        Seq::empty()
    } else {
        let prev = turn_takers(actors, (n - 1) as nat);
        let a = actors[n - 1];
        if a.entity.is_player || a.monster is Some {
            prev.push(TurnEntry { actor: (n - 1) as usize, energy: 0 })
        } else {
            prev
        }
    }
}

/// The turn order of a fresh level: the player and every monster, in actor
/// order, each at zero energy.
fn seed_turn_order(actors: &Vec<Actor>) -> (r: Vec<TurnEntry>)
    ensures
        r@ == turn_takers(actors@, actors@.len()),
        forall|k: int| 0 <= k < r@.len() ==> (#[trigger] r@[k]).energy == 0 && r@[k].actor < actors@.len(),
        actors@.len() > 0 && actors@[0].entity.is_player ==> r@.len() > 0 && r@[0] == (TurnEntry { actor: 0, energy: 0 }),
{
    let mut order: Vec<TurnEntry> = Vec::new();
    let mut a: usize = 0;
    while a < actors.len()
        invariant
            a <= actors@.len(),
            forall|k: int| 0 <= k < order@.len() ==> (#[trigger] order@[k]).energy == 0 && order@[k].actor < actors@.len(),
            a == 0 ==> order@.len() == 0,
            order@ == turn_takers(actors@, a as nat),
            a > 0 && actors@[0].entity.is_player ==> order@.len() > 0 && order@[0] == (TurnEntry { actor: 0, energy: 0 }),
        decreases actors@.len() - a,
    {
        if actors[a].entity.is_player || actors[a].monster.is_some() {
            order.push(TurnEntry { actor: a, energy: 0 });
        }
        a = a + 1;
    }
    order
}

/// Places items and then monsters after the player at index 0.
fn populate(world: &WorldData, actors: &mut Vec<Actor>, rng: &mut Random, interiors: &mut Vec<Coord>, depth: u32)
    requires
        all_placeable(*world, old(interiors)@),
        old(actors)@.len() == 1,
        old(actors)@[0].entity.is_player,
    ensures
        final(actors)@.len() >= 4,
        final(actors)@[0] == old(actors)@[0],
        forall|k: int| 1 <= k < 4 ==> is_scroll(#[trigger] final(actors)@[k]),
        forall|k: int| 1 <= k < final(actors)@.len() ==> placed_ok(*world, #[trigger] final(actors)@[k]),
        ({
            let it = items_from(old(rng)@, old(interiors)@, depth);
            let m = roster_from(it.1, it.2, depth);
            &&& items_as(final(actors)@.subrange(0, 1 + it.0.len() as int), 1, it.0)
            &&& spawned_as(final(actors)@, 1 + it.0.len() as int, m.0)
            &&& final(rng)@ == m.1
        }),
{
    let ghost p0 = actors@[0];
    place_items(world, actors, rng, interiors, depth);
    let ghost a1 = actors@;
    place_monsters(world, actors, rng, interiors, depth);
    assert(actors@[0] == p0);
    assert forall|k: int| 1 <= k < 4 implies is_scroll(#[trigger] actors@[k]) by {
        assert(actors@[k] == a1[k]);
    }
    assert(actors@.subrange(0, a1.len() as int) =~= a1);
}

/// Generates one level from the session's random stream. A next level
/// without a player does nothing. Otherwise: the counters advance (restart:
/// depth 1, radius kept; next level: depth + 1, radius shrunk); actors other
/// than the kept player are cleared; the disc is carved, `20 + 3 * depth`
/// obstruction clusters and `40 - 2 * depth` houses are attempted; the
/// player is placed on a shuffled open candidate (restart: a new player;
/// next level: the same one moved); items and monsters take shuffled
/// interior candidates, the fallback cell once those run out; the turn
/// order is reseeded with the player first at zero energy; occupancy is
/// rebuilt and visibility recomputation and turn progression are signalled.
/// The memory of seen cells is kept.
pub fn generate_level(sim: &mut Simulation, event: ProcGenEvent) -> (r: LevelSummary)
    requires
        old(sim).wf(),
    ensures
        final(sim).wf(),
        final(sim).world.memory@ == old(sim).world.memory@,
        crate::fov::memory_grows(old(sim).world, final(sim).world),
        event == ProcGenEvent::NextLevel && !has_player(old(sim).actors@) ==> *final(sim) == *old(sim)
            && r == (LevelSummary { interior_candidates: 0, spawn_candidates: 0 }),
        event == ProcGenEvent::RestartWorld || has_player(old(sim).actors@) ==> {
            &&& final(sim).radius == radius_after(event, old(sim).radius)
            &&& final(sim).depth == depth_after(event, old(sim).depth)
            &&& final(sim).actors@.len() >= 4
            &&& final(sim).actors@[0].entity.is_player
            &&& forall|k: int| 1 <= k < 4 ==> is_scroll(#[trigger] final(sim).actors@[k])
            &&& forall|k: int| 1 <= k < final(sim).actors@.len() ==> placed_ok(final(sim).world, #[trigger] final(sim).actors@[k])
            &&& r.spawn_candidates > 0 ==> !final(sim).world.solid_at(final(sim).actors@[0].entity.position)
            &&& final(sim).turn_order@.len() > 0
            &&& final(sim).turn_order@[0] == (TurnEntry { actor: 0, energy: 0 })
            &&& final(sim).turn_order@ == turn_takers(final(sim).actors@, final(sim).actors@.len())
            &&& forall|a: int|
                0 <= a < final(sim).actors@.len() && (#[trigger] final(sim).actors@[a]).entity.blocking && in_grid(
                    final(sim).actors@[a].entity.position,
                ) ==> final(sim).world.blocker_at(final(sim).actors@[a].entity.position) is Some
            &&& forall|k: int| 0 <= k < final(sim).turn_order@.len() ==> (#[trigger] final(sim).turn_order@[k]).energy == 0
            &&& final(sim).fov_requested
            &&& final(sim).turn_progress
            &&& forall|i: int| 0 <= i < CELLS && !in_disc(coord_of(i), final(sim).radius.0) ==> #[trigger] final(sim).world.solid@[i]
            &&& final(sim).world.tiles@ == level_terrain(*old(sim), event).tiles
            &&& final(sim).world.passability@ == level_terrain(*old(sim), event).passability
            &&& final(sim).world.solid@ == level_terrain(*old(sim), event).solid
            &&& final(sim).world.transparent@ == level_terrain(*old(sim), event).transparent
            &&& r.interior_candidates == cells_where(level_terrain(*old(sim), event).interior, no_cells(), CELLS as nat).len()
            &&& r.spawn_candidates == cells_where(
                level_terrain(*old(sim), event).okay,
                level_terrain(*old(sim), event).interior,
                CELLS as nat,
            ).len()
            &&& final(sim).actors@[0].entity.position == level_population(*old(sim), event).player
            &&& items_as(
                final(sim).actors@.subrange(0, 1 + level_population(*old(sim), event).items.len() as int),
                1,
                level_population(*old(sim), event).items,
            )
            &&& spawned_as(
                final(sim).actors@,
                1 + level_population(*old(sim), event).items.len() as int,
                level_population(*old(sim), event).monsters,
            )
            &&& final(sim).rng@ == level_population(*old(sim), event).rng
        },
        event == ProcGenEvent::RestartWorld ==> {
            let pl = final(sim).actors@[0];
            &&& pl.entity.name@ == "You"@
            &&& pl.entity.sprite_index == crate::population::PLAYER_SPRITE
            &&& pl.entity.blocking
            &&& pl.kind == crate::grid::WorldEntityKind::Player
            &&& pl.character == (Character { strength: 3, arcane: 3, intelligence: 3, wisdom: 3, willpower: 3, agility: 5 })
            &&& pl.hitpoints == crate::population::PLAYER_HEALTH
            &&& pl.sight == crate::population::PLAYER_SIGHT
            &&& pl.rendered == pl.entity.position
            &&& pl.last_seen is None
            &&& pl.pending@.len() == 0
            &&& !pl.carried
            &&& pl.item is None
            &&& pl.monster is None
        },
        event == ProcGenEvent::NextLevel && has_player(old(sim).actors@) ==> {
            let p = old(sim).actors@[choose|p: int| 0 <= p < old(sim).actors@.len() && #[trigger] old(sim).actors@[p].entity.is_player];
            let pl = final(sim).actors@[0];
            &&& pl == (Actor {
                entity: WorldEntity { position: pl.entity.position, ..p.entity },
                rendered: pl.rendered,
                ..p
            })
            &&& pl.rendered == (if r.spawn_candidates > 0 { pl.entity.position } else { p.rendered })
        },
        event == ProcGenEvent::RestartWorld || has_player(old(sim).actors@) ==> (final(sim).actors@[0].entity.blocking
            && in_grid(final(sim).actors@[0].entity.position) ==> final(sim).world.blocker_at(
            final(sim).actors@[0].entity.position,
        ) == Some(0usize)),
{
    let restart = match event {
        ProcGenEvent::RestartWorld => true,
        ProcGenEvent::NextLevel => false,
    };
    let mut actors: Vec<Actor> = Vec::new();
    if !restart {
        match sim.get_player() {
            None => {
                return LevelSummary { interior_candidates: 0, spawn_candidates: 0 };
            },
            Some(p) => {
                proof {
                    let q = choose|q: int| 0 <= q < sim.actors@.len() && #[trigger] sim.actors@[q].entity.is_player;
                    assert(q == p as int);
                }
                sim.radius = shrink_radius(sim.radius);
                if sim.depth.0 < u32::MAX {
                    sim.depth.0 = sim.depth.0 + 1;
                }
                let pl = sim.actors.swap_remove(p);
                actors.push(pl);
            },
        }
    } else {
        sim.depth.0 = 1;
    }
    sim.actors = Vec::new();
    sim.turn_order = Vec::new();
    sim.world.fov = vec![false; FOV_CELLS];
    let depth = sim.depth.0;
    let ghost mem0 = sim.world.memory@;
    let layout = build_terrain(&mut sim.world, &mut sim.rng, sim.radius.0, depth);
    let ghost lt = terrain(sim.rng@, sim.world, layout);
    assert(lt == level_terrain(*old(sim), event));
    let (mut interiors, mut spawns) = placement_candidates(&sim.world, &layout, &mut sim.rng);
    let summary = LevelSummary { interior_candidates: interiors.len(), spawn_candidates: spawns.len() };
    if restart {
        let pos = pop_or_origin(&mut spawns);
        actors.push(new_player(pos));
    } else {
        if let Some(place) = spawns.pop() {
            actors[0].entity.position = place;
            actors[0].rendered = place;
        }
    }
    assert(actors@.len() == 1 && actors@[0].entity.is_player);
    assert(summary.spawn_candidates > 0 ==> !sim.world.solid_at(actors@[0].entity.position));
    assert(actors@[0].entity.position == level_population(*old(sim), event).player);
    populate(&sim.world, &mut actors, &mut sim.rng, &mut interiors, depth);
    assert(sim.world.tiles@ == lt.tiles);
    rebuild_blocking(&mut sim.world, &actors);
    sim.turn_order = seed_turn_order(&actors);
    sim.actors = actors;
    sim.fov_requested = true;
    sim.turn_progress = true;
    proof {
        assert forall|a: int, b: int|
            0 <= a < sim.actors@.len() && 0 <= b < sim.actors@.len() && #[trigger] sim.actors@[a].entity.is_player
                && #[trigger] sim.actors@[b].entity.is_player implies a == b by {
            if a != 0 {
                assert(placed_ok(sim.world, sim.actors@[a]));
            }
            if b != 0 {
                assert(placed_ok(sim.world, sim.actors@[b]));
            }
        }
    }
    summary
}

} // verus!
