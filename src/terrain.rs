//! The level generator's terrain as a mathematical value, and each random
//! carving step as a function of it. The generator's loops are proved to
//! compute exactly these functions, so the terrain a generation produces is
//! determined by the random state and the parameters it starts from.

use vstd::prelude::*;
use crate::grid::{buffer_of, cell_of, coord_of, in_grid, Coord, Passability, WorldData, CELLS};
use crate::procgen::{in_disc, Layout};
use crate::rng::{gen_value, next_state, pick_index};

verus! {

/// Everything a generation step reads or writes: the random state, the
/// per-cell terrain of the world store, the transparency buffer, and the
/// generator's scratch sets.
pub struct Terrain {
    pub rng: u64,
    pub tiles: Seq<usize>,
    pub passability: Seq<Passability>,
    pub solid: Seq<bool>,
    pub transparent: Seq<bool>,
    pub okay: Seq<bool>,
    pub interior: Seq<bool>,
    pub walls: Seq<bool>,
}

/// The terrain held by a random state, a world store and a layout.
pub open spec fn terrain(rng: u64, world: WorldData, layout: Layout) -> Terrain {
    Terrain {
        rng,
        tiles: world.tiles@,
        passability: world.passability@,
        solid: world.solid@,
        transparent: world.transparent@,
        okay: layout.okay@,
        interior: layout.interior@,
        walls: layout.walls@,
    }
}

/// Floor sprites of the open disc, weighted.
pub open spec fn symbol_list() -> Seq<usize> {
    seq![0usize, 0, 0, 0, 1, 2, 3, 4]
}

/// Forest sprites at `depth`, weighted; deeper forests grow denser.
pub open spec fn forest_tile_list(depth: u32) -> Seq<usize> {
    let base = seq![0usize, 49, 50, 51];
    if depth == 3 {
        base + seq![52usize, 52, 52, 98]
    } else if depth == 4 {
        base + seq![52usize, 52, 98, 99, 104, 104]
    } else if depth == 5 {
        base + seq![52usize, 104, 314, 104, 314, 104, 314]
    } else {
        base
    }
}

/// Ruin sprites, weighted.
pub open spec fn ruin_tile_list() -> Seq<usize> {
    seq![637usize, 637, 637, 637, 540, 541, 843, 892, 893]
}

/// House wall sprites.
pub open spec fn wall_tile_list() -> Seq<usize> {
    seq![637usize]
}

/// House floor sprites, weighted.
pub open spec fn floor_tile_list() -> Seq<usize> {
    seq![17usize, 17, 17, 17, 17, 17, 17, 17, 17, 1, 2, 3, 4, 16]
}

/// The chance, in percent, that a cluster is forest rather than ruin: 45,
/// less 5 per level of depth (depth capped at 10000), no lower than 20.
pub open spec fn forest_chance(depth: u32) -> int {
    let d = if depth <= 10000 { depth as int } else { 10000 };
    45 - (if d * 5 < 25 { d * 5 } else { 25 })
}

/// Sprite index of void cells.
pub open spec fn void_index() -> usize {
    196
}

/// Carves cell `i` for a disc of squared radius `radius`: inside, a floor
/// sprite drawn from `symbols`, open, transparent; outside, solid opaque void.
pub open spec fn carve_cell(t: Terrain, i: int, radius: i32, symbols: Seq<usize>) -> Terrain {
    let c = coord_of(i);
    if in_disc(c, radius) {
        Terrain {
            rng: next_state(t.rng),
            tiles: t.tiles.update(i, symbols[gen_value(t.rng, 0, symbols.len() as i32) as int]),
            passability: t.passability.update(i, Passability::Passable),
            okay: t.okay.update(i, true),
            transparent: t.transparent.update(buffer_of(c), true),
            ..t
        }
    } else {
        Terrain {
            tiles: t.tiles.update(i, void_index()),
            passability: t.passability.update(i, Passability::Blocking),
            transparent: t.transparent.update(buffer_of(c), false),
            solid: t.solid.update(i, true),
            ..t
        }
    }
}

/// Carves cells `i` and up, in order.
pub open spec fn carve_cells(t: Terrain, i: int, radius: i32, symbols: Seq<usize>) -> Terrain
    decreases CELLS - i,
{
    if i >= CELLS || i < 0 {
        t
    } else {
        carve_cells(carve_cell(t, i, radius, symbols), i + 1, radius, symbols)
    }
}

/// Turns cell `i` into an obstruction with sprite `tile`.
pub open spec fn obstruct_at(t: Terrain, i: int, tile: usize, ruin: bool) -> Terrain {
    Terrain {
        tiles: t.tiles.update(i, tile),
        passability: t.passability.update(
            i,
            if ruin { Passability::Blocking } else { Passability::SightBlocking },
        ),
        solid: if ruin { t.solid.update(i, true) } else { t.solid },
        transparent: t.transparent.update(buffer_of(coord_of(i)), false),
        okay: t.okay.update(i, false),
        interior: t.interior.update(i, !ruin),
        ..t
    }
}

/// One cell of a cluster at `pos`, `dist` squared steps from its center: a
/// sprite is always drawn; an open cell then joins with a chance of
/// `3 * dist` percent.
pub open spec fn obstruction_cell(t: Terrain, pos: Coord, dist: int, forest: bool, tiles: Seq<usize>) -> Terrain {
    let tile = tiles[pick_index(t.rng, tiles.len()) as int];
    let s1 = next_state(t.rng);
    if in_grid(pos) && t.okay[cell_of(pos)] {
        let s2 = next_state(s1);
        if gen_value(s1, 0, 100) < 3 * dist {
            Terrain { rng: s2, ..obstruct_at(t, cell_of(pos), tile, !forest) }
        } else {
            Terrain { rng: s2, ..t }
        }
    } else {
        Terrain { rng: s1, ..t }
    }
}

/// Column `i` of a cluster centered at `(mx, my)`, rows `j` to `hy`.
pub open spec fn obstruction_column(
    t: Terrain,
    mx: int,
    my: int,
    forest: bool,
    tiles: Seq<usize>,
    i: int,
    j: int,
    hy: int,
) -> Terrain
    decreases hy + 1 - j,
{
    if j > hy {
        t
    } else {
        obstruction_column(
            obstruction_cell(t, Coord { x: (mx + i) as i32, y: (my + j) as i32 }, i * i + j * j, forest, tiles),
            mx,
            my,
            forest,
            tiles,
            i,
            j + 1,
            hy,
        )
    }
}

/// Columns `i` to `hx` of a cluster, each over rows `-hy` to `hy`.
pub open spec fn obstruction_rect(
    t: Terrain,
    mx: int,
    my: int,
    forest: bool,
    tiles: Seq<usize>,
    i: int,
    hx: int,
    hy: int,
) -> Terrain
    decreases hx + 1 - i,
{
    if i > hx {
        t
    } else {
        obstruction_rect(obstruction_column(t, mx, my, forest, tiles, i, -hy, hy), mx, my, forest, tiles, i + 1, hx, hy)
    }
}

/// One cluster: center, kind (forest with `chance` percent) and half sizes
/// are drawn, then its rectangle is visited column by column.
pub open spec fn obstruction_cluster(t: Terrain, chance: int, forest_tiles: Seq<usize>, ruin_tiles: Seq<usize>) -> Terrain {
    let mx = gen_value(t.rng, -60i32, 60i32);
    let s1 = next_state(t.rng);
    let my = gen_value(s1, -31i32, 31i32);
    let s2 = next_state(s1);
    let forest = gen_value(s2, 0, 100) < chance;
    let s3 = next_state(s2);
    let hx = gen_value(s3, 3, 6);
    let s4 = next_state(s3);
    let hy = gen_value(s4, 4, 7);
    let s5 = next_state(s4);
    obstruction_rect(
        Terrain { rng: s5, ..t },
        mx as int,
        my as int,
        forest,
        if forest { forest_tiles } else { ruin_tiles },
        -hx,
        hx as int,
        hy as int,
    )
}

/// `n` clusters in a row.
pub open spec fn obstructions(t: Terrain, n: nat, chance: int, forest_tiles: Seq<usize>, ruin_tiles: Seq<usize>) -> Terrain
    decreases n,
{
    if n == 0 {
        t
    } else {
        obstructions(obstruction_cluster(t, chance, forest_tiles, ruin_tiles), (n - 1) as nat, chance, forest_tiles, ruin_tiles)
    }
}

/// Lays a wall sprite on cell `i`.
pub open spec fn wall_at(t: Terrain, i: int, tile: usize) -> Terrain {
    Terrain {
        tiles: t.tiles.update(i, tile),
        walls: t.walls.update(i, true),
        transparent: t.transparent.update(buffer_of(coord_of(i)), false),
        ..t
    }
}

/// One cell of a house's wall pass: a roll in `[0, 100)` above 70 skips it;
/// otherwise an open cell gets a wall sprite drawn from `tiles`.
pub open spec fn wall_cell(t: Terrain, pos: Coord, tiles: Seq<usize>) -> Terrain {
    let roll = gen_value(t.rng, 0, 100);
    let s1 = next_state(t.rng);
    if roll <= 70 && in_grid(pos) && t.okay[cell_of(pos)] {
        Terrain { rng: next_state(s1), ..wall_at(t, cell_of(pos), tiles[pick_index(s1, tiles.len()) as int]) }
    } else {
        Terrain { rng: s1, ..t }
    }
}

/// Column `i` of a house's wall pass, rows `j` to `ry`.
pub open spec fn wall_column(t: Terrain, mx: int, my: int, tiles: Seq<usize>, i: int, j: int, ry: int) -> Terrain
    decreases ry + 1 - j,
{
    if j > ry {
        t
    } else {
        wall_column(wall_cell(t, Coord { x: (mx + i) as i32, y: (my + j) as i32 }, tiles), mx, my, tiles, i, j + 1, ry)
    }
}

/// Columns `i` to `rx` of a house's wall pass.
pub open spec fn wall_rect(t: Terrain, mx: int, my: int, tiles: Seq<usize>, i: int, rx: int, ry: int) -> Terrain
    decreases rx + 1 - i,
{
    if i > rx {
        t
    } else {
        wall_rect(wall_column(t, mx, my, tiles, i, -ry, ry), mx, my, tiles, i + 1, rx, ry)
    }
}

/// Carves cell `i` into house floor with sprite `tile`.
pub open spec fn floor_at(t: Terrain, i: int, tile: usize) -> Terrain {
    Terrain {
        tiles: t.tiles.update(i, tile),
        walls: t.walls.update(i, false),
        transparent: t.transparent.update(buffer_of(coord_of(i)), true),
        solid: t.solid.update(i, false),
        interior: t.interior.update(i, true),
        ..t
    }
}

/// One cell of a house's interior pass: an open cell becomes floor with a
/// sprite drawn from `tiles`; nothing is drawn otherwise.
pub open spec fn floor_cell(t: Terrain, pos: Coord, tiles: Seq<usize>) -> Terrain {
    if in_grid(pos) && t.okay[cell_of(pos)] {
        Terrain { rng: next_state(t.rng), ..floor_at(t, cell_of(pos), tiles[pick_index(t.rng, tiles.len()) as int]) }
    } else {
        t
    }
}

/// Column `i` of a house's interior pass, rows `j` up to `ry` exclusive.
pub open spec fn floor_column(t: Terrain, mx: int, my: int, tiles: Seq<usize>, i: int, j: int, ry: int) -> Terrain
    decreases ry - j,
{
    if j >= ry {
        t
    } else {
        floor_column(floor_cell(t, Coord { x: (mx + i) as i32, y: (my + j) as i32 }, tiles), mx, my, tiles, i, j + 1, ry)
    }
}

/// Columns `i` up to `rx` exclusive of a house's interior pass.
pub open spec fn floor_rect(t: Terrain, mx: int, my: int, tiles: Seq<usize>, i: int, rx: int, ry: int) -> Terrain
    decreases rx - i,
{
    if i >= rx {
        t
    } else {
        floor_rect(floor_column(t, mx, my, tiles, i, -ry + 1, ry), mx, my, tiles, i + 1, rx, ry)
    }
}

/// Every wall on a still-open cell becomes solid blocking terrain and leaves
/// the open and interior sets.
pub open spec fn settle(t: Terrain) -> Terrain {
    Terrain {
        passability: Seq::new(
            t.passability.len(),
            |k: int| if t.walls[k] && t.okay[k] { Passability::Blocking } else { t.passability[k] },
        ),
        okay: Seq::new(t.okay.len(), |k: int| t.okay[k] && !t.walls[k]),
        interior: Seq::new(t.interior.len(), |k: int| if t.walls[k] && t.okay[k] { false } else { t.interior[k] }),
        solid: Seq::new(t.solid.len(), |k: int| if t.walls[k] && t.okay[k] { true } else { t.solid[k] }),
        ..t
    }
}

/// One house: center and half sizes are drawn, then the wall pass, the
/// interior pass and the settling of walls.
pub open spec fn house(t: Terrain, wall_tiles: Seq<usize>, floor_tiles: Seq<usize>) -> Terrain {
    let mx = gen_value(t.rng, -60i32, 60i32);
    let s1 = next_state(t.rng);
    let my = gen_value(s1, -31i32, 31i32);
    let s2 = next_state(s1);
    let rx = gen_value(s2, 3, 7);
    let s3 = next_state(s2);
    let ry = gen_value(s3, 3, 7);
    let s4 = next_state(s3);
    let walled = wall_rect(Terrain { rng: s4, ..t }, mx as int, my as int, wall_tiles, -rx, rx as int, ry as int);
    settle(floor_rect(walled, mx as int, my as int, floor_tiles, -rx + 1, rx as int, ry as int))
}

/// `n` houses in a row.
pub open spec fn houses(t: Terrain, n: nat, wall_tiles: Seq<usize>, floor_tiles: Seq<usize>) -> Terrain
    decreases n,
{
    if n == 0 {
        t
    } else {
        houses(house(t, wall_tiles, floor_tiles), (n - 1) as nat, wall_tiles, floor_tiles)
    }
}

} // verus!
