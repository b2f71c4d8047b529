use svarog::actions::execute_move;
use svarog::fov::{apply_field_of_view, recalculate_fov, sight_affected_by_stats};
use svarog::grid::{Grid, FOV_CELLS, FOV_W};
use svarog::grid::{buffer_index, cell_index, CellVisibility, Coord};
use svarog::population::{new_monster, new_player};
use svarog::world::{EntityVisibility, MonsterKind, Simulation};

fn c(x: i32, y: i32) -> Coord {
    Coord { x, y }
}

fn sim_with_player_at(p: Coord) -> Simulation {
    let mut sim = Simulation::new(1);
    sim.actors.push(new_player(p));
    sim.world.mark_blocking(p, 0);
    sim
}

fn vis(sim: &Simulation, at: Coord) -> CellVisibility {
    sim.world.visibility[cell_index(at).unwrap()]
}

#[test]
fn sight_formula_examples() {
    assert_eq!(sight_affected_by_stats(6, 5, 5), 15);
    assert_eq!(sight_affected_by_stats(2, -3, -2), 1);
    assert_eq!(sight_affected_by_stats(6, 3, 3), 12);
    assert_eq!(sight_affected_by_stats(6, -10, -10), 3);
    assert_eq!(sight_affected_by_stats(7, -10, 0), 4);
    assert_eq!(sight_affected_by_stats(0, 0, 0), 1);
    assert_eq!(sight_affected_by_stats(1, -5, 0), 1);
}

#[test]
fn no_request_means_no_recomputation() {
    let mut sim = sim_with_player_at(c(0, 0));
    recalculate_fov(&mut sim);
    assert_eq!(vis(&sim, c(0, 0)), CellVisibility::Unseen);
}

#[test]
fn request_without_player_is_consumed() {
    let mut sim = Simulation::new(1);
    sim.fov_requested = true;
    recalculate_fov(&mut sim);
    assert!(!sim.fov_requested);
    assert!(sim.world.memory.iter().all(|m| !*m));
}

#[test]
fn cells_within_sight_are_visible_and_far_ones_unseen() {
    let mut sim = sim_with_player_at(c(0, 0));
    sim.actors[0].sight = 2;
    sim.actors[0].character.willpower = 0;
    sim.actors[0].character.intelligence = 0;
    sim.fov_requested = true;
    recalculate_fov(&mut sim);
    assert!(!sim.fov_requested);
    assert_eq!(vis(&sim, c(0, 0)), CellVisibility::Visible);
    assert_eq!(vis(&sim, c(1, 1)), CellVisibility::Visible);
    assert_eq!(vis(&sim, c(10, 0)), CellVisibility::Unseen);
    assert_eq!(vis(&sim, c(-20, 5)), CellVisibility::Unseen);
}

#[test]
fn opaque_cells_cast_shadows() {
    let mut sim = sim_with_player_at(c(0, 0));
    sim.actors[0].sight = 10;
    for y in -3..=3 {
        let b = buffer_index(c(2, y));
        sim.world.transparent[b] = false;
    }
    sim.fov_requested = true;
    recalculate_fov(&mut sim);
    assert_eq!(vis(&sim, c(1, 0)), CellVisibility::Visible);
    assert_eq!(vis(&sim, c(2, 0)), CellVisibility::Visible);
    assert_eq!(vis(&sim, c(4, 0)), CellVisibility::Unseen);
    assert_eq!(vis(&sim, c(-4, 0)), CellVisibility::Visible);
}

#[test]
fn memory_persists_after_moving_away() {
    let mut sim = sim_with_player_at(c(0, 0));
    sim.actors[0].sight = 1;
    sim.actors[0].character.willpower = 0;
    sim.actors[0].character.intelligence = 0;
    sim.fov_requested = true;
    recalculate_fov(&mut sim);
    assert_eq!(vis(&sim, c(-1, 0)), CellVisibility::Visible);
    for _ in 0..5 {
        execute_move(&mut sim, 0, c(1, 0));
    }
    assert!(sim.fov_requested);
    recalculate_fov(&mut sim);
    assert_eq!(vis(&sim, c(-1, 0)), CellVisibility::Remembered);
    assert!(sim.world.memory[cell_index(c(-1, 0)).unwrap()]);
    assert_eq!(vis(&sim, c(5, 0)), CellVisibility::Visible);
    assert_eq!(vis(&sim, c(-10, 0)), CellVisibility::Unseen);
}

#[test]
fn monsters_are_ghosted_at_their_last_seen_position() {
    let mut sim = sim_with_player_at(c(0, 0));
    sim.actors[0].sight = 3;
    sim.actors[0].character.willpower = 0;
    sim.actors[0].character.intelligence = 0;
    sim.actors.push(new_monster(MonsterKind::Bat, false, c(2, 0)));
    sim.world.mark_blocking(c(2, 0), 1);
    sim.actors.push(new_monster(MonsterKind::Orc, false, c(20, 0)));
    sim.world.mark_blocking(c(20, 0), 2);
    sim.fov_requested = true;
    recalculate_fov(&mut sim);
    assert_eq!(sim.actors[1].visibility, EntityVisibility::Visible);
    assert_eq!(sim.actors[1].last_seen, Some(c(2, 0)));
    assert_eq!(sim.actors[2].visibility, EntityVisibility::Hidden);
    assert_eq!(sim.actors[2].last_seen, None);
    for _ in 0..10 {
        execute_move(&mut sim, 1, c(1, 0));
    }
    sim.fov_requested = true;
    recalculate_fov(&mut sim);
    assert_eq!(sim.actors[1].entity.position, c(12, 0));
    assert_eq!(sim.actors[1].visibility, EntityVisibility::Remembered);
    assert_eq!(sim.actors[1].rendered, c(2, 0));
    assert_eq!(sim.actors[1].last_seen, Some(c(2, 0)));
}

#[test]
fn carried_actors_are_left_alone() {
    let mut sim = sim_with_player_at(c(0, 0));
    let mut m = new_monster(MonsterKind::Bat, false, c(1, 0));
    m.carried = true;
    sim.actors.push(m);
    sim.fov_requested = true;
    recalculate_fov(&mut sim);
    assert_eq!(sim.actors[1].visibility, EntityVisibility::Hidden);
    assert_eq!(sim.actors[1].last_seen, None);
}

#[test]
fn empty_health_reveals_the_board() {
    let mut sim = sim_with_player_at(c(0, 0));
    sim.actors[0].hitpoints = 0;
    sim.actors.push(new_monster(MonsterKind::Orc, false, c(40, 20)));
    sim.fov_requested = true;
    recalculate_fov(&mut sim);
    assert!(sim.world.visibility.iter().all(|v| *v == CellVisibility::Visible));
    assert_eq!(sim.actors[1].visibility, EntityVisibility::Visible);
    assert_eq!(sim.actors[1].rendered, c(40, 20));
    assert!(sim.world.memory.iter().all(|m| !*m));
}

#[test]
fn a_given_field_of_view_classifies_cells_and_actors() {
    let mut sim = sim_with_player_at(c(0, 0));
    sim.actors.push(new_monster(MonsterKind::Goblin, false, c(3, 3)));
    sim.world.mark_blocking(c(3, 3), 1);
    sim.actors.push(new_monster(MonsterKind::Bat, false, c(-3, 3)));
    sim.world.mark_blocking(c(-3, 3), 2);
    let mut fov = vec![false; FOV_CELLS];
    let (x, y) = Grid::new().norm(c(3, 3));
    fov[x + y * FOV_W] = true;
    apply_field_of_view(&mut sim, fov);
    assert_eq!(vis(&sim, c(3, 3)), CellVisibility::Visible);
    assert_eq!(vis(&sim, c(0, 0)), CellVisibility::Unseen);
    assert!(sim.world.memory[cell_index(c(3, 3)).unwrap()]);
    assert_eq!(sim.actors[1].visibility, EntityVisibility::Visible);
    assert_eq!(sim.actors[1].last_seen, Some(c(3, 3)));
    assert_eq!(sim.actors[2].visibility, EntityVisibility::Hidden);
    apply_field_of_view(&mut sim, vec![false; FOV_CELLS]);
    assert_eq!(vis(&sim, c(3, 3)), CellVisibility::Remembered);
    assert_eq!(sim.actors[1].visibility, EntityVisibility::Remembered);
    assert_eq!(sim.actors[1].rendered, c(3, 3));
}

#[test]
fn dead_player_leaves_the_field_of_view_alone() {
    let mut sim = sim_with_player_at(c(0, 0));
    sim.actors[0].hitpoints = 0;
    let b = buffer_index(c(4, 4));
    sim.world.fov[b] = true;
    sim.fov_requested = true;
    recalculate_fov(&mut sim);
    assert!(sim.world.fov[b]);
    assert_eq!(sim.world.fov.iter().filter(|v| **v).count(), 1);
}
