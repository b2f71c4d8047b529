//! The action engine: one actor action resolved in a read-only planning
//! phase and a separate commit phase, yielding follow-up actions.

use vstd::prelude::*;
use crate::character::CharacterStat;
use crate::grid::{cell_of, in_grid, tile_position_of, Coord, Transform, WorldData};
use crate::world::{has_player, occupancy_ok, player_unique, Actor, Simulation, WorldEntity};

verus! {

/// The closed set of actions an actor can take.
#[derive(Clone, Copy, PartialEq, Eq, Structural, Debug)]
pub enum Action {
    Move { actor: usize, direction: Coord },
    Melee { actor: usize, direction: Coord },
    Wait { actor: usize },
    AIThink { actor: usize },
}

/// The attribute that governs an action's energy cost.
pub open spec fn affiliated_stat_of(a: Action) -> CharacterStat {
    match a {
        Action::Move { .. } => CharacterStat::AGI,
        Action::Melee { .. } => CharacterStat::STR,
        Action::Wait { .. } => CharacterStat::WIL,
        Action::AIThink { .. } => CharacterStat::INT,
    }
}

impl Action {
    /// The attribute that governs this action's energy cost.
    pub fn get_affiliated_stat(&self) -> (r: CharacterStat)
        ensures
            r == affiliated_stat_of(*self),
    {
        match self {
            Action::Move { .. } => CharacterStat::AGI,
            Action::Melee { .. } => CharacterStat::STR,
            Action::Wait { .. } => CharacterStat::WIL,
            Action::AIThink { .. } => CharacterStat::INT,
        }
    }
}

/// A move of `actor` by `direction`.
pub fn a_move(actor: usize, direction: Coord) -> (r: Action)
    ensures
        r == (Action::Move { actor, direction }),
{
    Action::Move { actor, direction }
}

/// A melee attack of `actor` towards `direction`.
pub fn a_melee(actor: usize, direction: Coord) -> (r: Action)
    ensures
        r == (Action::Melee { actor, direction }),
{
    Action::Melee { actor, direction }
}

/// `actor` passes its turn.
pub fn a_wait(actor: usize) -> (r: Action)
    ensures
        r == (Action::Wait { actor }),
{
    Action::Wait { actor }
}

/// `actor` plans its next actions.
pub fn a_think(actor: usize) -> (r: Action)
    ensures
        r == (Action::AIThink { actor }),
{
    Action::AIThink { actor }
}

/// The zero direction.
pub open spec fn is_zero(d: Coord) -> bool {
    d.x == 0 && d.y == 0
}

/// Whether the integer point `(x, y)` lies on the grid.
pub open spec fn on_grid_xy(x: int, y: int) -> bool {
    -60 <= x <= 60 && -31 <= y <= 31
}

/// The cell a step of `d` from `p` reaches, if it lies on the grid.
pub open spec fn step_target(p: Coord, d: Coord) -> Option<Coord> {
    if on_grid_xy(p.x + d.x, p.y + d.y) {
        Some(Coord { x: (p.x + d.x) as i32, y: (p.y + d.y) as i32 })
    } else {
        None
    }
}

/// The outcome of planning a move.
#[derive(Clone, Copy, PartialEq, Eq, Structural, Debug)]
pub enum MoveResult {
    /// The cell is free: move there and draw the actor at this pixel position.
    MoveSucceed { next_position: Coord, new_transform: Transform },
    /// The cell is solid: nothing happens.
    CancelMove,
    /// A blocking actor stands there: attack it instead.
    Attack,
}

/// What planning a move of `actor` by `d` decides, over the state it reads.
pub open spec fn move_plan_of(world: WorldData, actors: Seq<Actor>, actor: int, d: Coord) -> MoveResult {
    match step_target(actors[actor].entity.position, d) {
        None => MoveResult::CancelMove,
        Some(t) => if world.solid_at(t) {
            MoveResult::CancelMove
        } else if world.blocker_at(t) is Some {
            MoveResult::Attack
        } else {
            MoveResult::MoveSucceed { next_position: t, new_transform: tile_position_of(t) }
        },
    }
}

/// The read-only phase of a move: inspects terrain and occupancy at the
/// target and decides, without writing anything.
pub fn plan_move(sim: &Simulation, actor: usize, direction: Coord) -> (r: MoveResult)
    requires
        sim.wf(),
        actor < sim.actors@.len(),
    ensures
        r == move_plan_of(sim.world, sim.actors@, actor as int, direction),
{
    let p = sim.actors[actor].entity.position;
    let tx: i64 = (p.x as i64) + (direction.x as i64);
    let ty: i64 = (p.y as i64) + (direction.y as i64);
    if !(-60 <= tx && tx <= 60 && -31 <= ty && ty <= 31) {
        return MoveResult::CancelMove;
    }
    let t = Coord { x: tx as i32, y: ty as i32 };
    if sim.world.is_solid(t) {
        MoveResult::CancelMove
    } else if sim.world.is_blocked(t) {
        MoveResult::Attack
    } else {
        let tp = crate::grid::Grid::new().get_tile_position(t);
        MoveResult::MoveSucceed { next_position: t, new_transform: tp }
    }
}

/// The actor after a move to `t`: its position changes and it is drawn
/// there.
pub open spec fn moved(a: Actor, t: Coord) -> Actor {
    Actor {
        entity: WorldEntity { position: t, ..a.entity },
        rendered: t,
        ..a
    }
}

/// The blocking map after `actor`, standing at `from` and blocking or not,
/// moves to `t`: the old entry cleared if it names the mover (another actor
/// recorded on the same cell keeps its entry), then the new one set.
pub open spec fn moved_blocking(
    blocking: Seq<Option<usize>>,
    from: Coord,
    t: Coord,
    actor: usize,
    is_blocking: bool,
) -> Seq<Option<usize>> {
    let cleared = if in_grid(from) && blocking[cell_of(from)] == Some(actor) {
        blocking.update(cell_of(from), None)
    } else {
        blocking
    };
    if is_blocking { cleared.update(cell_of(t), Some(actor)) } else { cleared }
}

/// The commit phase of a successful move to `t`.
fn commit_move(sim: &mut Simulation, actor: usize, t: Coord)
    requires
        old(sim).wf(),
        actor < old(sim).actors@.len(),
        in_grid(t),
        old(sim).world.blocker_at(t) is None,
    ensures
        final(sim).wf(),
        final(sim).actors@ == old(sim).actors@.update(actor as int, moved(old(sim).actors@[actor as int], t)),
        final(sim).world.same_but_blocking(old(sim).world),
        final(sim).world.blocking@ == moved_blocking(
            old(sim).world.blocking@,
            old(sim).actors@[actor as int].entity.position,
            t,
            actor,
            old(sim).actors@[actor as int].entity.blocking,
        ),
        final(sim).fov_requested == (old(sim).fov_requested || old(sim).actors@[actor as int].entity.is_player),
        final(sim).step_cues == (if old(sim).step_cues < u64::MAX { (old(sim).step_cues + 1) as u64 } else { old(sim).step_cues }),
        final(sim).depth == old(sim).depth,
        final(sim).radius == old(sim).radius,
        final(sim).rng == old(sim).rng,
        final(sim).turn_order == old(sim).turn_order,
        final(sim).turn_progress == old(sim).turn_progress,
{
    let ghost old_sim = *sim;
    let from = sim.actors[actor].entity.position;
    let is_blocking = sim.actors[actor].entity.blocking;
    let is_player = sim.actors[actor].entity.is_player;
    match sim.world.blocker(from) {
        Some(b) => {
            if b == actor {
                sim.world.clear_blocking(from);
            }
        },
        None => {},
    }
    sim.actors[actor].entity.position = t;
    sim.actors[actor].rendered = t;
    if is_blocking {
        sim.world.mark_blocking(t, actor);
    }
    if is_player {
        sim.fov_requested = true;
    }
    if sim.step_cues < u64::MAX {
        sim.step_cues = sim.step_cues + 1;
    }
    proof {
        assert(sim.actors@ =~= old_sim.actors@.update(actor as int, moved(old_sim.actors@[actor as int], t)));
        let b0 = old_sim.world.blocking@;
        let b1 = sim.world.blocking@;
        assert forall|i: int| 0 <= i < crate::grid::CELLS && #[trigger] b1[i] is Some implies {
            let a = b1[i].unwrap() as int;
            &&& 0 <= a < sim.actors@.len()
            &&& in_grid(sim.actors@[a].entity.position)
            &&& cell_of(sim.actors@[a].entity.position) == i
            &&& sim.actors@[a].entity.blocking
        } by {
            if is_blocking && i == cell_of(t) {
            } else {
                assert(b0[i] is Some);
                let a = b0[i].unwrap() as int;
                if a == actor as int {
                    assert(in_grid(from) && cell_of(from) == i);
                }
            }
        }
        assert forall|a: int, b: int|
            0 <= a < sim.actors@.len() && 0 <= b < sim.actors@.len() && #[trigger] sim.actors@[a].entity.is_player
                && #[trigger] sim.actors@[b].entity.is_player implies a == b by {
            assert(old_sim.actors@[a].entity.is_player && old_sim.actors@[b].entity.is_player);
        }
    }
}

/// `new` is `old` after committing a move of `actor` to `t`.
pub open spec fn committed_move(old: Simulation, new: Simulation, actor: usize, t: Coord) -> bool {
    let a = old.actors@[actor as int];
    &&& new.actors@ == old.actors@.update(actor as int, moved(a, t))
    &&& new.world.wf()
    &&& new.world.same_but_blocking(old.world)
    &&& new.world.blocking@ == moved_blocking(
        old.world.blocking@,
        a.entity.position,
        t,
        actor,
        a.entity.blocking,
    )
    &&& new.fov_requested == (old.fov_requested || a.entity.is_player)
    &&& new.step_cues == (if old.step_cues < u64::MAX { (old.step_cues + 1) as u64 } else { old.step_cues })
    &&& new.depth == old.depth
    &&& new.radius == old.radius
    &&& new.rng == old.rng
    &&& new.turn_order == old.turn_order
    &&& new.turn_progress == old.turn_progress
}

/// The full effect of resolving `Move(actor, d)` from `old`: `new` is the
/// state after, `r` the follow-up actions. A zero direction or an unknown
/// actor does nothing; a solid target cancels; an occupied target becomes a
/// melee attack and nothing moves; a free target is committed.
pub open spec fn move_resolved(old: Simulation, new: Simulation, actor: usize, d: Coord, r: Seq<Action>) -> bool {
    if is_zero(d) || actor >= old.actors@.len() {
        new == old && r == Seq::<Action>::empty()
    } else {
        match move_plan_of(old.world, old.actors@, actor as int, d) {
            MoveResult::CancelMove => new == old && r == Seq::<Action>::empty(),
            MoveResult::Attack => new == old && r == seq![Action::Melee { actor, direction: d }],
            MoveResult::MoveSucceed { next_position, .. } => committed_move(old, new, actor, next_position)
                && r == Seq::<Action>::empty(),
        }
    }
}

/// Resolves `Move(actor, direction)`: plans against an unchanged view of the
/// world, then commits the one outcome.
pub fn execute_move(sim: &mut Simulation, actor: usize, direction: Coord) -> (r: Vec<Action>)
    requires
        old(sim).wf(),
    ensures
        final(sim).wf(),
        move_resolved(*old(sim), *final(sim), actor, direction, r@),
{
    if direction.x == 0 && direction.y == 0 {
        return Vec::new();
    }
    if actor >= sim.actors.len() {
        return Vec::new();
    }
    let plan = plan_move(sim, actor, direction);
    match plan {
        MoveResult::MoveSucceed { next_position, .. } => {
            commit_move(sim, actor, next_position);
            Vec::new()
        },
        MoveResult::CancelMove => Vec::new(),
        MoveResult::Attack => {
            let mut v = Vec::new();
            v.push(a_melee(actor, direction));
            v
        },
    }
}

/// The outcome of planning a melee attack.
#[derive(Clone, Copy, PartialEq, Eq, Structural, Debug)]
pub enum MeleeResult {
    /// A blocking actor other than the attacker stands at the target.
    Hit { target: usize },
    /// Nobody to hit.
    Miss,
}

/// What planning a melee attack of `actor` towards `d` decides.
pub open spec fn melee_plan_of(world: WorldData, actors: Seq<Actor>, actor: int, d: Coord) -> MeleeResult {
    match step_target(actors[actor].entity.position, d) {
        None => MeleeResult::Miss,
        Some(t) => match world.blocker_at(t) {
            Some(v) => if v as int != actor { MeleeResult::Hit { target: v } } else { MeleeResult::Miss },
            None => MeleeResult::Miss,
        },
    }
}

/// Health after one melee hit: one point lost while any remain. This
/// damage rule is the library's own choice; nothing else decides it.
pub open spec fn after_hit(hp: i32) -> i32 {
    if hp > 0 { (hp - 1) as i32 } else { hp }
}

/// The read-only phase of a melee attack: finds the occupant of the target.
pub fn plan_melee(sim: &Simulation, actor: usize, direction: Coord) -> (r: MeleeResult)
    requires
        sim.wf(),
        actor < sim.actors@.len(),
    ensures
        r == melee_plan_of(sim.world, sim.actors@, actor as int, direction),
{
    let p = sim.actors[actor].entity.position;
    let tx: i64 = (p.x as i64) + (direction.x as i64);
    let ty: i64 = (p.y as i64) + (direction.y as i64);
    if !(-60 <= tx && tx <= 60 && -31 <= ty && ty <= 31) {
        return MeleeResult::Miss;
    }
    let t = Coord { x: tx as i32, y: ty as i32 };
    match sim.world.blocker(t) {
        Some(v) => if v != actor { MeleeResult::Hit { target: v } } else { MeleeResult::Miss },
        None => MeleeResult::Miss,
    }
}

/// The full effect of resolving `Melee(actor, d)`: on a hit the target loses
/// one point of health; nothing else changes and nothing follows.
pub open spec fn melee_resolved(old: Simulation, new: Simulation, actor: usize, d: Coord, r: Seq<Action>) -> bool {
    &&& r == Seq::<Action>::empty()
    &&& if actor >= old.actors@.len() {
        new == old
    } else {
        match melee_plan_of(old.world, old.actors@, actor as int, d) {
            MeleeResult::Miss => new == old,
            MeleeResult::Hit { target } => {
                let v = old.actors@[target as int];
                new == Simulation {
                    actors: new.actors,
                    ..old
                } && new.actors@ == old.actors@.update(
                    target as int,
                    Actor { hitpoints: after_hit(v.hitpoints), ..v },
                )
            },
        }
    }
}

/// Resolves `Melee(actor, direction)`: a blocking actor other than the
/// attacker at the target loses one point of health while it has any left.
pub fn execute_melee(sim: &mut Simulation, actor: usize, direction: Coord) -> (r: Vec<Action>)
    requires
        old(sim).wf(),
    ensures
        final(sim).wf(),
        melee_resolved(*old(sim), *final(sim), actor, direction, r@),
{
    if actor >= sim.actors.len() {
        return Vec::new();
    }
    match plan_melee(sim, actor, direction) {
        MeleeResult::Hit { target } => {
            let ghost old_sim = *sim;
            let hp = sim.actors[target].hitpoints;
            let next: i32 = if hp > 0 { hp - 1 } else { hp };
            sim.actors[target].hitpoints = next;
            proof {
                assert(sim.actors@ =~= old_sim.actors@.update(
                    target as int,
                    Actor { hitpoints: after_hit(old_sim.actors@[target as int].hitpoints), ..old_sim.actors@[target as int] },
                ));
                assert forall|a: int, b: int|
                    0 <= a < sim.actors@.len() && 0 <= b < sim.actors@.len() && #[trigger] sim.actors@[a].entity.is_player
                        && #[trigger] sim.actors@[b].entity.is_player implies a == b by {
                    assert(old_sim.actors@[a].entity.is_player && old_sim.actors@[b].entity.is_player);
                }
                assert forall|i: int| 0 <= i < crate::grid::CELLS && #[trigger] sim.world.blocking@[i] is Some implies {
                    let a = sim.world.blocking@[i].unwrap() as int;
                    &&& 0 <= a < sim.actors@.len()
                    &&& in_grid(sim.actors@[a].entity.position)
                    &&& cell_of(sim.actors@[a].entity.position) == i
                    &&& sim.actors@[a].entity.blocking
                } by {
                    let a = sim.world.blocking@[i].unwrap() as int;
                    assert(sim.actors@[a].entity == old_sim.actors@[a].entity);
                }
            }
            Vec::new()
        },
        MeleeResult::Miss => Vec::new(),
    }
}

/// A planning strategy: given the actor and a read-only view of the world,
/// returns the actions it should take next, first one first.
pub trait Behaviour {
    fn do_thinking(&self, actor: usize, sim: &Simulation) -> Vec<Action>;
}

/// Replaces the pending actions of `actor` with `plan`.
pub fn replace_plan(sim: &mut Simulation, actor: usize, plan: Vec<Action>)
    requires
        old(sim).wf(),
        actor < old(sim).actors@.len(),
    ensures
        final(sim).wf(),
        final(sim).actors@.len() == old(sim).actors@.len(),
        final(sim).actors@[actor as int].pending@ == plan@,
        final(sim).actors@[actor as int] == (Actor {
            pending: final(sim).actors@[actor as int].pending,
            ..old(sim).actors@[actor as int]
        }),
        forall|a: int| 0 <= a < old(sim).actors@.len() && a != actor ==> #[trigger] final(sim).actors@[a] == old(sim).actors@[a],
        *final(sim) == (Simulation { actors: final(sim).actors, ..*old(sim) }),
{
    let ghost old_sim = *sim;
    sim.actors[actor].pending = plan;
    proof {
        assert forall|a: int, b: int|
            0 <= a < sim.actors@.len() && 0 <= b < sim.actors@.len() && #[trigger] sim.actors@[a].entity.is_player
                && #[trigger] sim.actors@[b].entity.is_player implies a == b by {
            assert(old_sim.actors@[a].entity.is_player && old_sim.actors@[b].entity.is_player);
        }
        assert forall|i: int| 0 <= i < crate::grid::CELLS && #[trigger] sim.world.blocking@[i] is Some implies {
            let a = sim.world.blocking@[i].unwrap() as int;
            &&& 0 <= a < sim.actors@.len()
            &&& in_grid(sim.actors@[a].entity.position)
            &&& cell_of(sim.actors@[a].entity.position) == i
            &&& sim.actors@[a].entity.blocking
        } by {
            let a = sim.world.blocking@[i].unwrap() as int;
            assert(sim.actors@[a].entity == old_sim.actors@[a].entity);
        }
    }
}

/// Resolves `AIThink(actor)`: with no player in the world the actor waits
/// instead and nothing changes, whatever the actor; an unknown actor does
/// nothing; otherwise `behaviour` plans from a read-only view, its plan
/// replaces the actor's pending actions, and nothing follows at once.
pub fn execute_think<B: Behaviour>(sim: &mut Simulation, actor: usize, behaviour: &B) -> (r: Vec<Action>)
    requires
        old(sim).wf(),
    ensures
        final(sim).wf(),
        !has_player(old(sim).actors@) ==> *final(sim) == *old(sim) && r@ == seq![Action::Wait { actor }],
        has_player(old(sim).actors@) && actor >= old(sim).actors@.len() ==> *final(sim) == *old(sim)
            && r@ == Seq::<Action>::empty(),
        actor < old(sim).actors@.len() && has_player(old(sim).actors@) ==> {
            &&& r@ == Seq::<Action>::empty()
            &&& *final(sim) == (Simulation { actors: final(sim).actors, ..*old(sim) })
            &&& final(sim).actors@.len() == old(sim).actors@.len()
            &&& final(sim).actors@[actor as int] == (Actor {
                pending: final(sim).actors@[actor as int].pending,
                ..old(sim).actors@[actor as int]
            })
            &&& forall|a: int| 0 <= a < old(sim).actors@.len() && a != actor ==> #[trigger] final(sim).actors@[a] == old(sim).actors@[a]
        },
{
    match sim.get_player() {
        None => {
            let mut v = Vec::new();
            v.push(a_wait(actor));
            v
        },
        Some(_) => {
            if actor >= sim.actors.len() {
                return Vec::new();
            }
            let plan = behaviour.do_thinking(actor, sim);
            replace_plan(sim, actor, plan);
            Vec::new()
        },
    }
}

/// Resolves one action and returns its follow-up actions, to be resolved
/// before any other pending work. `behaviour` plans for `AIThink`.
pub fn do_action<B: Behaviour>(sim: &mut Simulation, action: Action, behaviour: &B) -> (r: Vec<Action>)
    requires
        old(sim).wf(),
    ensures
        final(sim).wf(),
        crate::fov::memory_grows(old(sim).world, final(sim).world),
        action matches Action::Move { actor, direction } ==> move_resolved(*old(sim), *final(sim), actor, direction, r@),
        action matches Action::Melee { actor, direction } ==> melee_resolved(*old(sim), *final(sim), actor, direction, r@),
        action is Wait ==> *final(sim) == *old(sim) && r@ == Seq::<Action>::empty(),
        action matches Action::AIThink { actor } ==> (!has_player(old(sim).actors@)
            ==> r@ == seq![Action::Wait { actor }] && *final(sim) == *old(sim)),
        action matches Action::AIThink { actor } ==> (has_player(old(sim).actors@) && actor >= old(sim).actors@.len()
            ==> r@ == Seq::<Action>::empty() && *final(sim) == *old(sim)),
        action matches Action::AIThink { actor } ==> (has_player(old(sim).actors@) && actor < old(sim).actors@.len() ==> {
            &&& r@ == Seq::<Action>::empty()
            &&& *final(sim) == (Simulation { actors: final(sim).actors, ..*old(sim) })
            &&& final(sim).actors@.len() == old(sim).actors@.len()
            &&& final(sim).actors@[actor as int] == (Actor {
                pending: final(sim).actors@[actor as int].pending,
                ..old(sim).actors@[actor as int]
            })
            &&& forall|a: int| 0 <= a < old(sim).actors@.len() && a != actor ==> #[trigger] final(sim).actors@[a] == old(sim).actors@[a]
        }),
{
    match action {
        Action::Move { actor, direction } => execute_move(sim, actor, direction),
        Action::Melee { actor, direction } => execute_melee(sim, actor, direction),
        Action::Wait { .. } => Vec::new(),
        Action::AIThink { actor } => execute_think(sim, actor, behaviour),
    }
}

/// After a successful move of a blocking actor, exactly one blocking entry
/// names it, at its new position, and its old position is clear unless
/// another actor is recorded there, whose entry stays.
pub proof fn lemma_move_occupancy(old: Simulation, new: Simulation, actor: usize, d: Coord, r: Seq<Action>)
    requires
        old.wf(),
        new.wf(),
        move_resolved(old, new, actor, d, r),
        actor < old.actors@.len(),
        !is_zero(d),
        move_plan_of(old.world, old.actors@, actor as int, d) is MoveSucceed,
        old.actors@[actor as int].entity.blocking,
    ensures
        new.world.blocker_at(new.actors@[actor as int].entity.position) == Some(actor),
        forall|c: Coord| #[trigger] new.world.blocker_at(c) == Some(actor) ==> c == new.actors@[actor as int].entity.position,
        old.world.blocker_at(old.actors@[actor as int].entity.position) is Some
            && old.world.blocker_at(old.actors@[actor as int].entity.position) != Some(actor)
            ==> new.world.blocker_at(old.actors@[actor as int].entity.position) == old.world.blocker_at(
            old.actors@[actor as int].entity.position,
        ),
        old.world.blocker_at(old.actors@[actor as int].entity.position) is None
            || old.world.blocker_at(old.actors@[actor as int].entity.position) == Some(actor)
            ==> new.world.blocker_at(old.actors@[actor as int].entity.position) is None,
{
    let from = old.actors@[actor as int].entity.position;
    let t = new.actors@[actor as int].entity.position;
    assert(in_grid(t));
    assert forall|c: Coord| #[trigger] new.world.blocker_at(c) == Some(actor) implies c == t by {
        assert(in_grid(c));
        assert(new.world.blocking@[cell_of(c)] is Some);
        crate::grid::lemma_cell_injective(c, t);
    }
    if in_grid(from) {
        crate::grid::lemma_cell_of(from);
        crate::grid::lemma_cell_of(t);
        assert(from != t);
        if cell_of(from) == cell_of(t) {
            crate::grid::lemma_cell_injective(from, t);
        }
    }
}

/// A move into a cell held by a blocking actor, where the cell is not solid
/// terrain, changes nothing and yields exactly one melee attack in the same
/// direction.
pub proof fn lemma_move_becomes_melee(old: Simulation, new: Simulation, actor: usize, d: Coord, r: Seq<Action>)
    requires
        old.wf(),
        move_resolved(old, new, actor, d, r),
        actor < old.actors@.len(),
        !is_zero(d),
        step_target(old.actors@[actor as int].entity.position, d) matches Some(t) && !old.world.solid_at(t)
            && old.world.blocker_at(t) is Some,
    ensures
        new == old,
        new.actors@[actor as int].entity.position == old.actors@[actor as int].entity.position,
        r == seq![Action::Melee { actor, direction: d }],
{
}

} // verus!
