use svarog::actions::{
    a_melee, a_move, a_think, a_wait, do_action, execute_move, Action, Behaviour,
};
use svarog::character::CharacterStat;
use svarog::grid::{cell_index, Coord, Passability};
use svarog::population::{new_monster, new_player};
use svarog::world::{MonsterKind, Simulation};

fn c(x: i32, y: i32) -> Coord {
    Coord { x, y }
}

fn sim_with_player_at(p: Coord) -> Simulation {
    let mut sim = Simulation::new(1);
    sim.actors.push(new_player(p));
    sim.world.mark_blocking(p, 0);
    sim
}

fn add_monster(sim: &mut Simulation, at: Coord) -> usize {
    sim.actors.push(new_monster(MonsterKind::Goblin, false, at));
    let i = sim.actors.len() - 1;
    sim.world.mark_blocking(at, i);
    i
}

fn blocking_entries_for(sim: &Simulation, actor: usize) -> usize {
    sim.world.blocking.iter().filter(|b| **b == Some(actor)).count()
}

struct Planner(Vec<Action>);

impl Behaviour for Planner {
    fn do_thinking(&self, _actor: usize, _sim: &Simulation) -> Vec<Action> {
        self.0.clone()
    }
}

#[test]
fn move_into_free_cell_moves_and_keeps_one_blocking_entry() {
    let mut sim = sim_with_player_at(c(0, 0));
    let r = execute_move(&mut sim, 0, c(1, 0));
    assert!(r.is_empty());
    assert_eq!(sim.actors[0].entity.position, c(1, 0));
    assert_eq!(sim.actors[0].rendered, c(1, 0));
    assert_eq!(sim.world.blocker(c(1, 0)), Some(0));
    assert_eq!(sim.world.blocker(c(0, 0)), None);
    assert_eq!(blocking_entries_for(&sim, 0), 1);
    assert!(sim.fov_requested);
    assert_eq!(sim.step_cues, 1);
}

#[test]
fn monster_move_redraws_but_does_not_request_visibility() {
    let mut sim = sim_with_player_at(c(0, 0));
    let m = add_monster(&mut sim, c(5, 5));
    let r = execute_move(&mut sim, m, c(-1, 1));
    assert!(r.is_empty());
    assert_eq!(sim.actors[m].entity.position, c(4, 6));
    assert_eq!(sim.actors[m].rendered, c(4, 6));
    assert_eq!(sim.world.blocker(c(4, 6)), Some(m));
    assert_eq!(sim.world.blocker(c(5, 5)), None);
    assert!(!sim.fov_requested);
}

#[test]
fn move_into_solid_cell_is_cancelled() {
    let mut sim = sim_with_player_at(c(0, 0));
    let i = cell_index(c(0, 1)).unwrap();
    sim.world.solid[i] = true;
    sim.world.passability[i] = Passability::Blocking;
    let r = execute_move(&mut sim, 0, c(0, 1));
    assert!(r.is_empty());
    assert_eq!(sim.actors[0].entity.position, c(0, 0));
    assert_eq!(sim.world.blocker(c(0, 0)), Some(0));
    assert!(!sim.fov_requested);
    assert_eq!(sim.step_cues, 0);
}

#[test]
fn move_off_the_grid_is_cancelled() {
    let mut sim = sim_with_player_at(c(60, 0));
    let r = execute_move(&mut sim, 0, c(1, 0));
    assert!(r.is_empty());
    assert_eq!(sim.actors[0].entity.position, c(60, 0));
}

#[test]
fn move_into_occupied_cell_becomes_melee() {
    let mut sim = sim_with_player_at(c(0, 0));
    let m = add_monster(&mut sim, c(1, 1));
    let r = execute_move(&mut sim, 0, c(1, 1));
    assert_eq!(r, vec![Action::Melee { actor: 0, direction: c(1, 1) }]);
    assert_eq!(sim.actors[0].entity.position, c(0, 0));
    assert_eq!(sim.actors[m].hitpoints, 10);
    let follow = do_action(&mut sim, r[0], &Planner(vec![]));
    assert!(follow.is_empty());
    assert_eq!(sim.actors[m].hitpoints, 9);
}

#[test]
fn zero_move_and_unknown_actor_do_nothing() {
    let mut sim = sim_with_player_at(c(0, 0));
    assert!(execute_move(&mut sim, 0, c(0, 0)).is_empty());
    assert!(execute_move(&mut sim, 9, c(1, 0)).is_empty());
    assert_eq!(sim.actors[0].entity.position, c(0, 0));
    assert_eq!(sim.step_cues, 0);
}

#[test]
fn melee_into_empty_cell_misses() {
    let mut sim = sim_with_player_at(c(0, 0));
    let r = do_action(&mut sim, a_melee(0, c(1, 0)), &Planner(vec![]));
    assert!(r.is_empty());
    assert_eq!(sim.actors[0].hitpoints, 18);
}

#[test]
fn melee_stops_at_empty_health() {
    let mut sim = sim_with_player_at(c(0, 0));
    let m = add_monster(&mut sim, c(0, 1));
    sim.actors[m].hitpoints = 1;
    do_action(&mut sim, a_melee(0, c(0, 1)), &Planner(vec![]));
    assert_eq!(sim.actors[m].hitpoints, 0);
    do_action(&mut sim, a_melee(0, c(0, 1)), &Planner(vec![]));
    assert_eq!(sim.actors[m].hitpoints, 0);
}

#[test]
fn wait_changes_nothing() {
    let mut sim = sim_with_player_at(c(0, 0));
    let r = do_action(&mut sim, a_wait(0), &Planner(vec![]));
    assert!(r.is_empty());
    assert_eq!(sim.actors[0].entity.position, c(0, 0));
}

#[test]
fn think_without_player_waits() {
    let mut sim = Simulation::new(3);
    sim.actors.push(new_monster(MonsterKind::Orc, true, c(2, 2)));
    let r = do_action(&mut sim, a_think(0), &Planner(vec![a_wait(0)]));
    assert_eq!(r, vec![Action::Wait { actor: 0 }]);
    assert!(sim.actors[0].pending.is_empty());
}

#[test]
fn think_replaces_the_pending_plan() {
    let mut sim = sim_with_player_at(c(0, 0));
    let m = add_monster(&mut sim, c(3, 3));
    sim.actors[m].pending = vec![a_wait(m)];
    let plan = vec![a_move(m, c(-1, 0)), a_move(m, c(-1, 0))];
    let r = do_action(&mut sim, a_think(m), &Planner(plan.clone()));
    assert!(r.is_empty());
    assert_eq!(sim.actors[m].pending, plan);
}

#[test]
fn actions_name_their_governing_attribute() {
    assert_eq!(a_move(0, c(1, 0)).get_affiliated_stat(), CharacterStat::AGI);
    assert_eq!(a_think(0).get_affiliated_stat(), CharacterStat::INT);
    assert_eq!(a_melee(0, c(1, 0)).get_affiliated_stat(), CharacterStat::STR);
    assert_eq!(a_wait(0).get_affiliated_stat(), CharacterStat::WIL);
}

#[test]
fn moving_off_a_shared_cell_keeps_the_other_entry() {
    let mut sim = sim_with_player_at(c(0, 0));
    sim.actors.push(new_monster(MonsterKind::Bat, false, c(0, 0)));
    // the player holds the shared cell's entry
    let r = execute_move(&mut sim, 1, c(1, 0));
    assert!(r.is_empty());
    assert_eq!(sim.actors[1].entity.position, c(1, 0));
    assert_eq!(sim.world.blocker(c(1, 0)), Some(1));
    assert_eq!(sim.world.blocker(c(0, 0)), Some(0));
    let r = execute_move(&mut sim, 0, c(0, 1));
    assert!(r.is_empty());
    assert_eq!(sim.world.blocker(c(0, 0)), None);
    assert_eq!(sim.world.blocker(c(0, 1)), Some(0));
}

#[test]
fn think_without_player_waits_even_for_unknown_actor() {
    let mut sim = Simulation::new(3);
    let r = do_action(&mut sim, a_think(7), &Planner(vec![a_wait(7)]));
    assert_eq!(r, vec![Action::Wait { actor: 7 }]);
}

#[test]
fn think_for_unknown_actor_with_player_does_nothing() {
    let mut sim = sim_with_player_at(c(0, 0));
    let r = do_action(&mut sim, a_think(7), &Planner(vec![a_wait(7)]));
    assert!(r.is_empty());
    assert!(sim.actors[0].pending.is_empty());
}
