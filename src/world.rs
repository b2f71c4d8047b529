//! Actors and the simulation context that owns the world store, the actors,
//! the level counters, the random stream and the turn order.

use vstd::prelude::*;
use crate::actions::Action;
use crate::character::{Character, CharacterStat};
use crate::grid::{cell_of, in_grid, Coord, WorldData, WorldEntityKind, CELLS};
use crate::rng::Random;

verus! {

/// The part of an actor that the grid sees.
pub struct WorldEntity {
    pub name: String,
    pub position: Coord,
    pub sprite_index: usize,
    pub blocking: bool,
    pub is_player: bool,
}

/// How an actor other than the player is shown.
#[derive(Clone, Copy, PartialEq, Eq, Structural, Debug)]
pub enum EntityVisibility {
    /// Seen now, drawn at its true position.
    Visible,
    /// Seen before, not now: drawn greyed at its last known position.
    Remembered,
    /// Not shown.
    Hidden,
}

/// What an item is.
#[derive(Clone, Copy, PartialEq, Eq, Structural, Debug)]
pub enum ItemType {
    Scroll,
    Weapon,
}

/// An item's properties: its type and its stat bonuses, in the order rolled.
pub struct Item {
    pub item_type: ItemType,
    pub stats: Vec<(CharacterStat, i32)>,
}

/// A monster archetype.
#[derive(Clone, Copy, PartialEq, Eq, Structural, Debug)]
pub enum MonsterKind {
    Orc,
    Goblin,
    Bat,
    Acolyte,
    Thaumaturge,
    Healer,
}

/// A monster's archetype and whether it starts out aggressive.
#[derive(Clone, Copy, PartialEq, Eq, Structural, Debug)]
pub struct Monster {
    pub kind: MonsterKind,
    pub aggro: bool,
}

/// Everything the simulation holds about one actor.
pub struct Actor {
    pub entity: WorldEntity,
    pub kind: WorldEntityKind,
    pub character: Character,
    /// Remaining health; the pool is empty at zero or below.
    pub hitpoints: i32,
    /// Base sight radius.
    pub sight: u32,
    /// Held in an inventory, so not shown on its own.
    pub carried: bool,
    /// Where the actor is drawn.
    pub rendered: Coord,
    pub visibility: EntityVisibility,
    /// Where the player last saw this actor.
    pub last_seen: Option<Coord>,
    /// Actions planned for later turns, first one first.
    pub pending: Vec<Action>,
    pub item: Option<Item>,
    pub monster: Option<Monster>,
}

/// The level counter and an auxiliary tuning value.
#[derive(Clone, Copy, PartialEq, Eq, Structural, Debug)]
pub struct LevelDepth(pub u32, pub i32);

/// The squared radius of the playable disc.
#[derive(Clone, Copy, PartialEq, Eq, Structural, Debug)]
pub struct MapRadius(pub i32);

/// One entry of the turn order: an actor and its energy.
#[derive(Clone, Copy, PartialEq, Eq, Structural, Debug)]
pub struct TurnEntry {
    pub actor: usize,
    pub energy: i32,
}

/// The simulation context, owned by the driver and passed by reference to
/// the generator, the visibility engine and the action engine.
pub struct Simulation {
    pub world: WorldData,
    pub actors: Vec<Actor>,
    pub depth: LevelDepth,
    pub radius: MapRadius,
    pub rng: Random,
    pub turn_order: Vec<TurnEntry>,
    /// A visibility recomputation was requested; requests coalesce.
    pub fov_requested: bool,
    /// Movement-feedback cues emitted and not yet consumed.
    pub step_cues: u64,
    /// The turn order was reset and should progress.
    pub turn_progress: bool,
}

/// Every blocking entry names an existing blocking actor that stands on
/// exactly that cell.
pub open spec fn occupancy_ok(world: WorldData, actors: Seq<Actor>) -> bool {
    forall|i: int|
        0 <= i < CELLS && #[trigger] world.blocking@[i] is Some ==> {
            let a = world.blocking@[i].unwrap() as int;
            &&& 0 <= a < actors.len()
            &&& in_grid(actors[a].entity.position)
            &&& cell_of(actors[a].entity.position) == i
            &&& actors[a].entity.blocking
        }
}

/// At most one actor is flagged as the player.
pub open spec fn player_unique(actors: Seq<Actor>) -> bool {
    forall|a: int, b: int|
        0 <= a < actors.len() && 0 <= b < actors.len() && #[trigger] actors[a].entity.is_player
            && #[trigger] actors[b].entity.is_player ==> a == b
}

/// Some actor is flagged as the player.
pub open spec fn has_player(actors: Seq<Actor>) -> bool {
    exists|a: int| 0 <= a < actors.len() && #[trigger] actors[a].entity.is_player
}

impl Simulation {
    /// The store has the grid's sizes, occupancy is consistent and there is
    /// at most one player.
    pub open spec fn wf(&self) -> bool {
        &&& self.world.wf()
        &&& occupancy_ok(self.world, self.actors@)
        &&& player_unique(self.actors@)
    }

    /// A session before any level: an empty world, no actors, depth 1,
    /// radius 800, and a random stream seeded with `seed`.
    pub fn new(seed: u64) -> (r: Simulation)
        ensures
            r.wf(),
            r.actors@.len() == 0,
            r.depth == LevelDepth(1, 0),
            r.radius == MapRadius(800),
            r.rng@ == seed,
            r.turn_order@.len() == 0,
            r.world.is_fresh(),
            !r.fov_requested,
            r.step_cues == 0,
            !r.turn_progress,
    {
        Simulation {
            world: WorldData::new(),
            actors: Vec::new(),
            depth: LevelDepth(1, 0),
            radius: MapRadius(800),
            rng: Random::new(seed),
            turn_order: Vec::new(),
            fov_requested: false,
            step_cues: 0,
            turn_progress: false,
        }
    }

    /// The index of the player actor, if there is one.
    pub fn get_player(&self) -> (r: Option<usize>)
        ensures
            r matches Some(a) ==> a < self.actors@.len() && self.actors@[a as int].entity.is_player,
            r is None ==> !has_player(self.actors@),
    {
        let mut i: usize = 0;
        while i < self.actors.len()
            invariant
                i <= self.actors@.len(),
                forall|k: int| 0 <= k < i ==> !(#[trigger] self.actors@[k]).entity.is_player,
            decreases self.actors@.len() - i,
        {
            if self.actors[i].entity.is_player {
                return Some(i);
            }
            i = i + 1;
        }
        None
    }
}

} // verus!
