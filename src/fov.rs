//! The visibility engine: the sight radius formula, recursive shadow casting
//! from the player, per-cell classification with a monotonic memory, and
//! last-seen ghosting of other actors.

use vstd::prelude::*;
use doryen_fov::FovAlgorithm;
use crate::grid::{
    cell_of, coord_at, coord_of, in_grid, norm_of, Grid, norm_offset, CellVisibility, Coord,
    WorldData, CELLS, FOV_CELLS, FOV_H, FOV_W,
};
use crate::world::{has_player, occupancy_ok, player_unique, Actor, EntityVisibility, Simulation};

verus! {

/// Largest radius handed to shadow casting; every buffer cell lies within
/// it of any origin.
pub const MAX_CAST_RADIUS: usize = 200;

/// The effective sight radius: `base + adjustment`, where the adjustment is
/// `min(willpower + intelligence, 9)`, raised to `-(base / 2)` if it is at or
/// below that, and a total below 1 becomes 1, so the radius is never zero
/// (which shadow casting would read as unlimited).
pub open spec fn sight_radius(base: u32, willpower: i32, intelligence: i32) -> int {
    let e0 = if willpower + intelligence < 9 { willpower + intelligence } else { 9 };
    let s = base as int;
    let e = if e0 <= -(s / 2) { -(s / 2) } else { e0 };
    let m = s + e;
    if m < 1 { 1 } else { m }
}

/// The effective sight radius of an observer.
pub fn sight_affected_by_stats(base: u32, willpower: i32, intelligence: i32) -> (r: u64)
    ensures
        r == sight_radius(base, willpower, intelligence),
{
    let sum: i64 = (willpower as i64) + (intelligence as i64);
    let mut e: i64 = if sum < 9 { sum } else { 9 };
    let s: i64 = base as i64;
    if e <= -(s / 2) {
        e = -(s / 2);
    }
    let m: i64 = s + e;
    if m < 1 {
        1
    } else {
        m as u64
    }
}

/// The field of view that recursive shadow casting computes on the
/// 122 x 64 buffer with the given transparency, from `(x, y)`, within
/// `radius` (0: unlimited), walls lit.
pub uninterp spec fn shadowcast(transparent: Seq<bool>, x: nat, y: nat, radius: nat) -> Seq<bool>;

/// Relies on doryen_fov's `FovRecursiveShadowCasting::compute_fov` on a
/// fresh `MapData` holding `transparent`: it only ever sets cells of the
/// field of view, sets the origin last, and leaves the buffer's size alone.
#[verifier::external_body]
fn compute_shadowcast(transparent: &Vec<bool>, x: usize, y: usize, radius: usize) -> (r: Vec<bool>)
    requires
        transparent@.len() == FOV_CELLS,
        x < FOV_W,
        y < FOV_H,
        radius <= MAX_CAST_RADIUS,
    ensures
        r@ == shadowcast(transparent@, x as nat, y as nat, radius as nat),
        r@.len() == FOV_CELLS,
        r@[x + y * FOV_W] == true,
{
    let mut map = doryen_fov::MapData::new(FOV_W, FOV_H);
    map.transparent = transparent.clone();
    let mut algorithm = doryen_fov::FovRecursiveShadowCasting::new();
    algorithm.compute_fov(&mut map, x, y, radius, true);
    map.fov
}

/// How a cell is shown, given whether it is in view now and whether it was
/// remembered before.
pub open spec fn classify(in_view: bool, remembered: bool) -> CellVisibility {
    if in_view {
        CellVisibility::Visible
    } else if remembered {
        CellVisibility::Remembered
    } else {
        CellVisibility::Unseen
    }
}

/// Whether the cell `i` is in the field of view `fov`.
pub open spec fn cell_in_view(fov: Seq<bool>, i: int) -> bool {
    fov[norm_offset(coord_of(i))]
}

/// An actor other than the player after a visibility pass in which its true
/// position is, or is not, in view.
pub open spec fn observed(a: Actor, in_view: bool) -> Actor {
    if in_view {
        Actor {
            visibility: EntityVisibility::Visible,
            rendered: a.entity.position,
            last_seen: Some(a.entity.position),
            ..a
        }
    } else if a.last_seen is Some {
        Actor { visibility: EntityVisibility::Remembered, rendered: a.last_seen.unwrap(), ..a }
    } else {
        Actor { visibility: EntityVisibility::Hidden, ..a }
    }
}

/// An actor after the board is revealed: shown at its true position.
pub open spec fn revealed(a: Actor) -> Actor {
    Actor { visibility: EntityVisibility::Visible, rendered: a.entity.position, ..a }
}

/// The memory set of `new` holds every cell that of `old` held.
pub open spec fn memory_grows(old: WorldData, new: WorldData) -> bool {
    forall|i: int| 0 <= i < CELLS && #[trigger] old.memory@[i] ==> new.memory@[i]
}

/// Whether actor `a` takes part in visibility on its own.
pub open spec fn independently_shown(a: Actor) -> bool {
    !a.entity.is_player && !a.carried
}

/// Sets the field of view and classifies every cell against it, adding the
/// cells in view to the memory set.
fn classify_cells(world: &mut WorldData, fov: Vec<bool>)
    requires
        old(world).wf(),
        fov@.len() == FOV_CELLS,
    ensures
        final(world).wf(),
        final(world).fov@ == fov@,
        final(world).transparent@ == old(world).transparent@,
        final(world).solid@ == old(world).solid@,
        final(world).blocking@ == old(world).blocking@,
        final(world).tiles@ == old(world).tiles@,
        final(world).passability@ == old(world).passability@,
        forall|i: int|
            0 <= i < CELLS ==> #[trigger] final(world).memory@[i] == (old(world).memory@[i]
                || cell_in_view(fov@, i)),
        forall|i: int|
            0 <= i < CELLS ==> #[trigger] final(world).visibility@[i] == classify(
                cell_in_view(fov@, i),
                old(world).memory@[i],
            ),
{
    world.fov = fov;
    let ghost w0 = *world;
    let mut i: usize = 0;
    while i < CELLS
        invariant
            i <= CELLS,
            world.wf(),
            world.fov@ == fov@,
            world.transparent@ == w0.transparent@,
            world.solid@ == w0.solid@,
            world.blocking@ == w0.blocking@,
            world.tiles@ == w0.tiles@,
            world.passability@ == w0.passability@,
            w0.memory@ == old(world).memory@,
            forall|k: int|
                0 <= k < CELLS ==> #[trigger] world.memory@[k] == if k < i {
                    w0.memory@[k] || cell_in_view(fov@, k)
                } else {
                    w0.memory@[k]
                },
            forall|k: int|
                0 <= k < i ==> #[trigger] world.visibility@[k] == classify(
                    cell_in_view(fov@, k),
                    w0.memory@[k],
                ),
        decreases CELLS - i,
    {
        let c = coord_at(i);
        proof {
            crate::grid::lemma_cell_of(c);
        }
        let seen = world.in_fov(c);
        if seen {
            world.memory.set(i, true);
            world.visibility.set(i, CellVisibility::Visible);
        } else if world.memory[i] {
            world.visibility.set(i, CellVisibility::Remembered);
        } else {
            world.visibility.set(i, CellVisibility::Unseen);
        }
        i = i + 1;
    }
}

/// Recomputes visibility if a request is pending, consuming it; does
/// nothing else when no player exists. A player with an empty health pool
/// sees the whole board: every cell and actor is shown. Otherwise the field
/// of view is cast from the player's position with the effective sight
/// radius, cells are classified, and every actor that is neither the player
/// nor carried is shown where it truly is if in view, ghosted at its last
/// known position if seen before, and hidden otherwise.
pub fn recalculate_fov(sim: &mut Simulation)
    requires
        old(sim).wf(),
    ensures
        final(sim).wf(),
        memory_grows(old(sim).world, final(sim).world),
        !final(sim).fov_requested,
        final(sim).actors@.len() == old(sim).actors@.len(),
        final(sim).world.solid@ == old(sim).world.solid@,
        final(sim).world.blocking@ == old(sim).world.blocking@,
        final(sim).world.transparent@ == old(sim).world.transparent@,
        final(sim).world.tiles@ == old(sim).world.tiles@,
        final(sim).world.passability@ == old(sim).world.passability@,
        *final(sim) == (Simulation {
            world: final(sim).world,
            actors: final(sim).actors,
            fov_requested: false,
            ..*old(sim)
        }),
        !old(sim).fov_requested || !has_player(old(sim).actors@) ==> *final(sim) == (Simulation {
            fov_requested: false,
            ..*old(sim)
        }),
        old(sim).fov_requested && has_player(old(sim).actors@) ==> {
            let p = choose|p: int| 0 <= p < old(sim).actors@.len() && #[trigger] old(sim).actors@[p].entity.is_player;
            let pl = old(sim).actors@[p];
            if pl.hitpoints <= 0 {
                &&& forall|i: int| 0 <= i < CELLS ==> #[trigger] final(sim).world.visibility@[i] == CellVisibility::Visible
                &&& final(sim).world.memory@ == old(sim).world.memory@
                &&& final(sim).world.fov@ == old(sim).world.fov@
                &&& forall|a: int| 0 <= a < old(sim).actors@.len() ==> #[trigger] final(sim).actors@[a] == if a == p {
                    old(sim).actors@[a]
                } else {
                    revealed(old(sim).actors@[a])
                }
            } else {
                let (x, y) = norm_of(pl.entity.position);
                let rad = sight_radius(pl.sight, pl.character.willpower, pl.character.intelligence);
                let fov = shadowcast(
                    old(sim).world.transparent@,
                    x as nat,
                    y as nat,
                    (if rad <= MAX_CAST_RADIUS { rad } else { MAX_CAST_RADIUS as int }) as nat,
                );
                &&& final(sim).world.fov@ == fov
                &&& forall|i: int| 0 <= i < CELLS ==> #[trigger] final(sim).world.memory@[i] == (old(sim).world.memory@[i]
                    || cell_in_view(fov, i))
                &&& forall|i: int| 0 <= i < CELLS ==> #[trigger] final(sim).world.visibility@[i] == classify(
                    cell_in_view(fov, i),
                    old(sim).world.memory@[i],
                )
                &&& forall|a: int| 0 <= a < old(sim).actors@.len() ==> #[trigger] final(sim).actors@[a] == if independently_shown(old(sim).actors@[a]) {
                    observed(old(sim).actors@[a], fov[norm_offset(old(sim).actors@[a].entity.position)])
                } else {
                    old(sim).actors@[a]
                }
            }
        },
{
    let requested = sim.fov_requested;
    sim.fov_requested = false;
    if !requested {
        return;
    }
    let p = match sim.get_player() {
        Some(p) => p,
        None => {
            return;
        },
    };
    proof {
        let q = choose|q: int| 0 <= q < sim.actors@.len() && #[trigger] sim.actors@[q].entity.is_player;
        assert(q == p as int);
    }
    if sim.actors[p].hitpoints <= 0 {
        reveal_board(sim, p);
        return;
    }
    let pos = sim.actors[p].entity.position;
    let (x, y) = Grid::new().norm(pos);
    let rad = sight_affected_by_stats(
        sim.actors[p].sight,
        sim.actors[p].character.willpower,
        sim.actors[p].character.intelligence,
    );
    let cast: usize = if rad <= MAX_CAST_RADIUS as u64 { rad as usize } else { MAX_CAST_RADIUS };
    let fov = compute_shadowcast(&sim.world.transparent, x, y, cast);
    apply_field_of_view(sim, fov);
}

/// Installs `fov` as the current field of view: every cell is classified
/// against it (cells in view join the memory set), and every actor that is
/// neither the player nor carried is shown where it truly is if in view,
/// ghosted at its last known position if seen before, and hidden otherwise.
pub fn apply_field_of_view(sim: &mut Simulation, fov: Vec<bool>)
    requires
        old(sim).wf(),
        fov@.len() == FOV_CELLS,
    ensures
        final(sim).wf(),
        memory_grows(old(sim).world, final(sim).world),
        final(sim).actors@.len() == old(sim).actors@.len(),
        final(sim).world.fov@ == fov@,
        final(sim).world.solid@ == old(sim).world.solid@,
        final(sim).world.blocking@ == old(sim).world.blocking@,
        final(sim).world.transparent@ == old(sim).world.transparent@,
        final(sim).world.tiles@ == old(sim).world.tiles@,
        final(sim).world.passability@ == old(sim).world.passability@,
        *final(sim) == (Simulation { world: final(sim).world, actors: final(sim).actors, ..*old(sim) }),
        forall|i: int|
            0 <= i < CELLS ==> #[trigger] final(sim).world.memory@[i] == (old(sim).world.memory@[i] || cell_in_view(fov@, i)),
        forall|i: int|
            0 <= i < CELLS ==> #[trigger] final(sim).world.visibility@[i] == classify(
                cell_in_view(fov@, i),
                old(sim).world.memory@[i],
            ),
        forall|a: int| 0 <= a < old(sim).actors@.len() ==> #[trigger] final(sim).actors@[a] == if independently_shown(old(sim).actors@[a]) {
            observed(old(sim).actors@[a], fov@[norm_offset(old(sim).actors@[a].entity.position)])
        } else {
            old(sim).actors@[a]
        },
{
    classify_cells(&mut sim.world, fov);
    observe_actors(sim);
}

/// Shows every cell and every actor but the player `p` at its true position.
fn reveal_board(sim: &mut Simulation, p: usize)
    requires
        old(sim).wf(),
        p < old(sim).actors@.len(),
    ensures
        final(sim).wf(),
        final(sim).actors@.len() == old(sim).actors@.len(),
        *final(sim) == (Simulation { world: final(sim).world, actors: final(sim).actors, ..*old(sim) }),
        final(sim).world.memory@ == old(sim).world.memory@,
        final(sim).world.solid@ == old(sim).world.solid@,
        final(sim).world.blocking@ == old(sim).world.blocking@,
        final(sim).world.transparent@ == old(sim).world.transparent@,
        final(sim).world.fov@ == old(sim).world.fov@,
        final(sim).world.tiles@ == old(sim).world.tiles@,
        final(sim).world.passability@ == old(sim).world.passability@,
        forall|i: int| 0 <= i < CELLS ==> #[trigger] final(sim).world.visibility@[i] == CellVisibility::Visible,
        forall|a: int| 0 <= a < old(sim).actors@.len() ==> #[trigger] final(sim).actors@[a] == if a == p {
            old(sim).actors@[a]
        } else {
            revealed(old(sim).actors@[a])
        },
{
    let ghost s0 = *sim;
    let mut i: usize = 0;
    while i < CELLS
        invariant
            i <= CELLS,
            sim.world.wf(),
            sim.actors == s0.actors,
            *sim == (Simulation { world: sim.world, ..s0 }),
            sim.world.memory@ == s0.world.memory@,
            sim.world.solid@ == s0.world.solid@,
            sim.world.blocking@ == s0.world.blocking@,
            sim.world.transparent@ == s0.world.transparent@,
            sim.world.fov@ == s0.world.fov@,
            sim.world.tiles@ == s0.world.tiles@,
            sim.world.passability@ == s0.world.passability@,
            forall|k: int| 0 <= k < i ==> #[trigger] sim.world.visibility@[k] == CellVisibility::Visible,
        decreases CELLS - i,
    {
        sim.world.visibility.set(i, CellVisibility::Visible);
        i = i + 1;
    }
    let ghost s1 = *sim;
    let mut a: usize = 0;
    while a < sim.actors.len()
        invariant
            a <= sim.actors@.len(),
            p < sim.actors@.len(),
            sim.actors@.len() == s1.actors@.len(),
            *sim == (Simulation { actors: sim.actors, ..s1 }),
            forall|k: int| 0 <= k < sim.actors@.len() ==> #[trigger] sim.actors@[k] == if k < a && k != p {
                revealed(s1.actors@[k])
            } else {
                s1.actors@[k]
            },
        decreases sim.actors@.len() - a,
    {
        if a != p {
            let pos = sim.actors[a].entity.position;
            sim.actors[a].visibility = EntityVisibility::Visible;
            sim.actors[a].rendered = pos;
        }
        a = a + 1;
    }
    proof {
        lemma_entities_kept(s0, *sim);
    }
}

/// Updates how every tracked actor is shown against the current field of
/// view.
fn observe_actors(sim: &mut Simulation)
    requires
        old(sim).world.wf(),
        occupancy_ok(old(sim).world, old(sim).actors@),
        player_unique(old(sim).actors@),
    ensures
        final(sim).wf(),
        final(sim).actors@.len() == old(sim).actors@.len(),
        *final(sim) == (Simulation { actors: final(sim).actors, ..*old(sim) }),
        forall|a: int| 0 <= a < old(sim).actors@.len() ==> #[trigger] final(sim).actors@[a] == if independently_shown(old(sim).actors@[a]) {
            observed(old(sim).actors@[a], old(sim).world.fov@[norm_offset(old(sim).actors@[a].entity.position)])
        } else {
            old(sim).actors@[a]
        },
{
    let ghost s0 = *sim;
    let mut a: usize = 0;
    while a < sim.actors.len()
        invariant
            a <= sim.actors@.len(),
            sim.world.wf(),
            sim.actors@.len() == s0.actors@.len(),
            *sim == (Simulation { actors: sim.actors, ..s0 }),
            forall|k: int| 0 <= k < sim.actors@.len() ==> #[trigger] sim.actors@[k] == if k < a && independently_shown(s0.actors@[k]) {
                observed(s0.actors@[k], s0.world.fov@[norm_offset(s0.actors@[k].entity.position)])
            } else {
                s0.actors@[k]
            },
        decreases sim.actors@.len() - a,
    {
        if !sim.actors[a].entity.is_player && !sim.actors[a].carried {
            let pos = sim.actors[a].entity.position;
            let seen = sim.world.in_fov(pos);
            if seen {
                sim.actors[a].visibility = EntityVisibility::Visible;
                sim.actors[a].rendered = pos;
                sim.actors[a].last_seen = Some(pos);
            } else if let Some(last) = sim.actors[a].last_seen {
                sim.actors[a].visibility = EntityVisibility::Remembered;
                sim.actors[a].rendered = last;
            } else {
                sim.actors[a].visibility = EntityVisibility::Hidden;
            }
        }
        a = a + 1;
    }
    proof {
        lemma_entities_kept(s0, *sim);
    }
}

/// Occupancy and the single player survive any change that leaves every
/// actor's grid entity and the blocking map alone.
proof fn lemma_entities_kept(s0: Simulation, s1: Simulation)
    requires
        occupancy_ok(s0.world, s0.actors@),
        player_unique(s0.actors@),
        s1.actors@.len() == s0.actors@.len(),
        s1.world.blocking@ == s0.world.blocking@,
        forall|k: int| 0 <= k < s0.actors@.len() ==> #[trigger] s1.actors@[k].entity == s0.actors@[k].entity,
    ensures
        occupancy_ok(s1.world, s1.actors@),
        player_unique(s1.actors@),
{
    assert forall|a: int, b: int|
        0 <= a < s1.actors@.len() && 0 <= b < s1.actors@.len() && #[trigger] s1.actors@[a].entity.is_player
            && #[trigger] s1.actors@[b].entity.is_player implies a == b by {
        assert(s0.actors@[a].entity == s1.actors@[a].entity);
        assert(s0.actors@[b].entity == s1.actors@[b].entity);
    }
    assert forall|i: int| 0 <= i < CELLS && #[trigger] s1.world.blocking@[i] is Some implies {
        let a = s1.world.blocking@[i].unwrap() as int;
        &&& 0 <= a < s1.actors@.len()
        &&& in_grid(s1.actors@[a].entity.position)
        &&& cell_of(s1.actors@[a].entity.position) == i
        &&& s1.actors@[a].entity.blocking
    } by {
        assert(s0.world.blocking@[i] is Some);
        let a = s1.world.blocking@[i].unwrap() as int;
        assert(s1.actors@[a].entity == s0.actors@[a].entity);
    }
}

} // verus!
