//! The bounded coordinate space and the world store over it: terrain
//! solidity, the shadow-casting transparency buffer, visibility memory and
//! blocking occupancy.

use vstd::prelude::*;

verus! {

/// Extent of the grid in x: coordinates run from `-GRID_W / 2` to `GRID_W / 2`.
pub const GRID_W: i32 = 120;

/// Extent of the grid in y: coordinates run from `-GRID_H / 2` to `GRID_H / 2`.
pub const GRID_H: i32 = 62;

/// Size of one tile in pixels, along both axes.
pub const TILE_SIZE: i32 = 16;

/// Number of grid columns (`GRID_W + 1`).
pub const COLUMNS: usize = 121;

/// Number of grid rows (`GRID_H + 1`).
pub const ROWS: usize = 63;

/// Number of grid cells.
pub const CELLS: usize = 7623;

/// Width of the shadow-casting buffer (`GRID_W + 2`).
pub const FOV_W: usize = 122;

/// Height of the shadow-casting buffer (`GRID_H + 2`).
pub const FOV_H: usize = 64;

/// Number of cells of the shadow-casting buffer.
pub const FOV_CELLS: usize = 7808;

/// A signed grid coordinate, or a direction when used as an offset.
#[derive(Clone, Copy, PartialEq, Eq, Structural, Debug)]
pub struct Coord {
    pub x: i32,
    pub y: i32,
}

/// Whether `c` lies on the grid.
pub open spec fn in_grid(c: Coord) -> bool {
    -60 <= c.x <= 60 && -31 <= c.y <= 31
}

/// The cell number of a coordinate on the grid, row by row from the bottom.
pub open spec fn cell_of(c: Coord) -> int {
    (c.y + 31) * 121 + (c.x + 60)
}

/// The coordinate of cell number `i`.
pub open spec fn coord_of(i: int) -> Coord {
    Coord { x: (i % 121 - 60) as i32, y: (i / 121 - 31) as i32 }
}

/// The offset in the shadow-casting buffer of the grid coordinate `c`.
pub open spec fn buffer_of(c: Coord) -> int {
    (c.x + 61) + (c.y + 32) * 122
}

/// One component of `norm`: shifted into the buffer and clamped to `limit`;
/// a negative shifted value, read as an unsigned index, is huge and so
/// clamps to `limit` as well.
pub open spec fn norm_component(v: int, limit: int) -> int {
    if v < 0 {
        limit
    } else if v < limit {
        v
    } else {
        limit
    }
}

/// The buffer indices `norm` gives for `c`.
pub open spec fn norm_of(c: Coord) -> (int, int) {
    (norm_component(c.x + 61, 120), norm_component(c.y + 32, 62))
}

/// The buffer offset `norm` gives for `c`.
pub open spec fn norm_offset(c: Coord) -> int {
    norm_of(c).0 + norm_of(c).1 * 122
}

/// Facts about cell numbering.
pub proof fn lemma_cell_of(c: Coord)
    requires
        in_grid(c),
    ensures
        0 <= cell_of(c) < CELLS,
        coord_of(cell_of(c)) == c,
        0 <= buffer_of(c) < FOV_CELLS,
        0 <= norm_offset(c) < FOV_CELLS,
{
}

/// Facts about cell numbering, the other way round.
pub proof fn lemma_coord_of(i: int)
    requires
        0 <= i < CELLS,
    ensures
        in_grid(coord_of(i)),
        cell_of(coord_of(i)) == i,
{
}

/// Two coordinates on the grid with the same cell number are equal.
pub proof fn lemma_cell_injective(a: Coord, b: Coord)
    requires
        in_grid(a),
        in_grid(b),
        cell_of(a) == cell_of(b),
    ensures
        a == b,
{
}

/// The coordinate of cell `i`.
pub fn coord_at(i: usize) -> (r: Coord)
    requires
        i < CELLS,
    ensures
        r == coord_of(i as int),
        in_grid(r),
        cell_of(r) == i,
{
    proof {
        lemma_coord_of(i as int);
    }
    Coord { x: ((i % COLUMNS) as i32) - 60, y: ((i / COLUMNS) as i32) - 31 }
}

/// The cell number of `c`, or `None` off the grid.
pub fn cell_index(c: Coord) -> (r: Option<usize>)
    ensures
        r is Some <==> in_grid(c),
        r matches Some(i) ==> i == cell_of(c) && i < CELLS,
{
    if -60 <= c.x && c.x <= 60 && -31 <= c.y && c.y <= 31 {
        Some(((c.y + 31) as usize) * COLUMNS + ((c.x + 60) as usize))
    } else {
        None
    }
}

/// The buffer offset of a grid coordinate.
pub fn buffer_index(c: Coord) -> (r: usize)
    requires
        in_grid(c),
    ensures
        r == buffer_of(c),
        r < FOV_CELLS,
{
    ((c.x + 61) as usize) + ((c.y + 32) as usize) * FOV_W
}

/// The grid's geometry: its size and the pixel size of a tile.
#[derive(Clone, Copy, PartialEq, Eq, Structural, Debug)]
pub struct Grid {
    pub size: Coord,
    pub tile: Coord,
}

/// A render-space pixel position.
#[derive(Clone, Copy, PartialEq, Eq, Structural, Debug)]
pub struct Transform {
    pub x: i64,
    pub y: i64,
}

/// The render-space position of the tile at `c` on the standard grid.
pub open spec fn tile_position_of(c: Coord) -> Transform {
    Transform { x: (16 * c.x) as i64, y: (16 * c.y) as i64 }
}

impl Grid {
    /// The geometry the world store is laid out for: 120 x 62, 16-pixel tiles.
    pub open spec fn is_standard(&self) -> bool {
        self.size == Coord { x: GRID_W, y: GRID_H } && self.tile == Coord { x: TILE_SIZE, y: TILE_SIZE }
    }

    /// The standard geometry.
    pub fn new() -> (r: Grid)
        ensures
            r.is_standard(),
    {
        Grid { size: Coord { x: GRID_W, y: GRID_H }, tile: Coord { x: TILE_SIZE, y: TILE_SIZE } }
    }

    /// Converts a coordinate into clamped shadow-casting-buffer indices: each
    /// component shifted by half the grid size plus one, then clamped to the
    /// grid size.
    pub fn norm(&self, c: Coord) -> (r: (usize, usize))
        requires
            self.size.x >= 0,
            self.size.y >= 0,
        ensures
            r.0 == norm_component(c.x + self.size.x / 2 + 1, self.size.x as int),
            r.1 == norm_component(c.y + self.size.y / 2 + 1, self.size.y as int),
            self.is_standard() ==> r.0 == norm_of(c).0 && r.1 == norm_of(c).1,
    {
        let x: i64 = (c.x as i64) + (self.size.x as i64) / 2 + 1;
        let y: i64 = (c.y as i64) + (self.size.y as i64) / 2 + 1;
        let nx: usize = if x < 0 {
            self.size.x as usize
        } else if x < self.size.x as i64 {
            x as usize
        } else {
            self.size.x as usize
        };
        let ny: usize = if y < 0 {
            self.size.y as usize
        } else if y < self.size.y as i64 {
            y as usize
        } else {
            self.size.y as usize
        };
        (nx, ny)
    }

    /// The render-space pixel position of the tile at `c`: each axis scaled
    /// by the tile size.
    pub fn get_tile_position(&self, c: Coord) -> (r: Transform)
        ensures
            r.x == self.tile.x * c.x,
            r.y == self.tile.y * c.y,
            self.is_standard() ==> r == tile_position_of(c),
    {
        assert(-0x4000_0000_0000_0000 <= self.tile.x * c.x <= 0x4000_0000_0000_0000
            && -0x4000_0000_0000_0000 <= self.tile.y * c.y <= 0x4000_0000_0000_0000) by (nonlinear_arith)
            requires
                -0x8000_0000 <= self.tile.x < 0x8000_0000,
                -0x8000_0000 <= c.x < 0x8000_0000,
                -0x8000_0000 <= self.tile.y < 0x8000_0000,
                -0x8000_0000 <= c.y < 0x8000_0000,
        ;
        Transform { x: (self.tile.x as i64) * (c.x as i64), y: (self.tile.y as i64) * (c.y as i64) }
    }
}

/// How a cell lets movement and sight through.
#[derive(Clone, Copy, PartialEq, Eq, Structural, Debug)]
pub enum Passability {
    Passable,
    Blocking,
    SightBlocking,
}

/// How a cell is shown.
#[derive(Clone, Copy, PartialEq, Eq, Structural, Debug)]
pub enum CellVisibility {
    /// In the current field of view.
    Visible,
    /// Seen before, not now: drawn dimmed.
    Remembered,
    /// Never seen: hidden.
    Unseen,
}

/// What sort of thing an actor is.
#[derive(Clone, Copy, PartialEq, Eq, Structural, Debug)]
pub enum WorldEntityKind {
    Player,
    NPC,
    Item,
}

/// The world store over the grid. Per-cell vectors are indexed by
/// `cell_of`; the two buffers by `buffer_of`.
pub struct WorldData {
    /// Shadow-casting transparency buffer.
    pub transparent: Vec<bool>,
    /// Shadow-casting result buffer: the current field of view.
    pub fov: Vec<bool>,
    /// Movement-blocking terrain.
    pub solid: Vec<bool>,
    /// Cells ever seen.
    pub memory: Vec<bool>,
    /// The blocking actor standing on each cell, if any.
    pub blocking: Vec<Option<usize>>,
    /// The background sprite index of each cell.
    pub tiles: Vec<usize>,
    /// The passability of each cell.
    pub passability: Vec<Passability>,
    /// How each cell is shown.
    pub visibility: Vec<CellVisibility>,
}

impl WorldData {
    /// Every vector has the size of the grid or of the buffer.
    pub open spec fn wf(&self) -> bool {
        &&& self.transparent@.len() == FOV_CELLS
        &&& self.fov@.len() == FOV_CELLS
        &&& self.solid@.len() == CELLS
        &&& self.memory@.len() == CELLS
        &&& self.blocking@.len() == CELLS
        &&& self.tiles@.len() == CELLS
        &&& self.passability@.len() == CELLS
        &&& self.visibility@.len() == CELLS
    }

    /// Every part but the blocking map is the same in `self` and `o`.
    pub open spec fn same_but_blocking(&self, o: WorldData) -> bool {
        &&& self.transparent@ == o.transparent@
        &&& self.fov@ == o.fov@
        &&& self.solid@ == o.solid@
        &&& self.memory@ == o.memory@
        &&& self.tiles@ == o.tiles@
        &&& self.passability@ == o.passability@
        &&& self.visibility@ == o.visibility@
    }

    /// Whether `c` is solid; a coordinate off the grid is solid void.
    pub open spec fn solid_at(&self, c: Coord) -> bool {
        !in_grid(c) || self.solid@[cell_of(c)]
    }

    /// The blocking actor recorded at `c`.
    pub open spec fn blocker_at(&self, c: Coord) -> Option<usize> {
        if in_grid(c) {
            self.blocking@[cell_of(c)]
        } else {
            None
        }
    }

    /// Whether `c` is in the memory set.
    pub open spec fn remembered(&self, c: Coord) -> bool {
        in_grid(c) && self.memory@[cell_of(c)]
    }

    /// Everything transparent, open and unseen, every sprite 0, nothing
    /// solid, remembered, in view or occupied.
    pub open spec fn is_fresh(&self) -> bool {
        &&& forall|i: int| 0 <= i < CELLS ==> !#[trigger] self.solid@[i]
        &&& forall|i: int| 0 <= i < CELLS ==> !#[trigger] self.memory@[i]
        &&& forall|i: int| 0 <= i < CELLS ==> #[trigger] self.blocking@[i] is None
        &&& forall|i: int| 0 <= i < FOV_CELLS ==> #[trigger] self.transparent@[i]
        &&& forall|i: int| 0 <= i < FOV_CELLS ==> !#[trigger] self.fov@[i]
        &&& forall|i: int| 0 <= i < CELLS ==> #[trigger] self.tiles@[i] == 0
        &&& forall|i: int| 0 <= i < CELLS ==> #[trigger] self.passability@[i] == Passability::Passable
        &&& forall|i: int| 0 <= i < CELLS ==> #[trigger] self.visibility@[i] == CellVisibility::Unseen
    }

    /// A fresh store: everything transparent and open, nothing seen,
    /// nothing occupied.
    pub fn new() -> (r: WorldData)
        ensures
            r.wf(),
            r.is_fresh(),
    {
        WorldData {
            transparent: vec![true; FOV_CELLS],
            fov: vec![false; FOV_CELLS],
            solid: vec![false; CELLS],
            memory: vec![false; CELLS],
            blocking: vec![None; CELLS],
            tiles: vec![0; CELLS],
            passability: vec![Passability::Passable; CELLS],
            visibility: vec![CellVisibility::Unseen; CELLS],
        }
    }

    /// Whether `c` is movement-blocking terrain.
    pub fn is_solid(&self, c: Coord) -> (r: bool)
        requires
            self.wf(),
        ensures
            r == self.solid_at(c),
    {
        match cell_index(c) {
            Some(i) => self.solid[i],
            None => true,
        }
    }

    /// The blocking actor standing on `c`, if any.
    pub fn blocker(&self, c: Coord) -> (r: Option<usize>)
        requires
            self.wf(),
        ensures
            r == self.blocker_at(c),
    {
        match cell_index(c) {
            Some(i) => self.blocking[i],
            None => None,
        }
    }

    /// Whether a blocking actor stands on `c`.
    pub fn is_blocked(&self, c: Coord) -> (r: bool)
        requires
            self.wf(),
        ensures
            r == self.blocker_at(c) is Some,
    {
        self.blocker(c).is_some()
    }

    /// Records `actor` as the blocking occupant of `c`; off the grid nothing
    /// is recorded.
    pub fn mark_blocking(&mut self, c: Coord, actor: usize)
        requires
            old(self).wf(),
        ensures
            final(self).wf(),
            in_grid(c) ==> final(self).blocking@ == old(self).blocking@.update(cell_of(c), Some(actor)),
            !in_grid(c) ==> final(self).blocking@ == old(self).blocking@,
            final(self).same_but_blocking(*old(self)),
    {
        if let Some(i) = cell_index(c) {
            self.blocking.set(i, Some(actor));
        }
    }

    /// Clears the blocking entry of `c`.
    pub fn clear_blocking(&mut self, c: Coord)
        requires
            old(self).wf(),
        ensures
            final(self).wf(),
            in_grid(c) ==> final(self).blocking@ == old(self).blocking@.update(cell_of(c), None),
            !in_grid(c) ==> final(self).blocking@ == old(self).blocking@,
            final(self).same_but_blocking(*old(self)),
    {
        if let Some(i) = cell_index(c) {
            self.blocking.set(i, None);
        }
    }

    /// Whether the buffer cell that `norm` gives for `c` is in the current
    /// field of view.
    pub fn in_fov(&self, c: Coord) -> (r: bool)
        requires
            self.wf(),
        ensures
            r == self.fov@[norm_offset(c)],
    {
        let (x, y) = Grid::new().norm(c);
        self.fov[x + y * FOV_W]
    }
}

} // verus!
