use svarog::grid::{cell_index, coord_at, CellVisibility, Coord, Grid, Passability, WorldData, CELLS};

#[test]
fn norm_shifts_and_clamps() {
    let g = Grid::new();
    assert_eq!(g.norm(Coord { x: 0, y: 0 }), (61, 32));
    assert_eq!(g.norm(Coord { x: -61, y: -32 }), (0, 0));
    assert_eq!(g.norm(Coord { x: 60, y: 31 }), (120, 62));
    assert_eq!(g.norm(Coord { x: 59, y: 29 }), (120, 61));
    assert_eq!(g.norm(Coord { x: -70, y: 0 }), (120, 32));
}

#[test]
fn tile_position_scales_by_tile_size() {
    let g = Grid::new();
    let t = g.get_tile_position(Coord { x: 3, y: -2 });
    assert_eq!((t.x, t.y), (48, -32));
}

#[test]
fn cell_numbering_round_trips() {
    assert_eq!(cell_index(Coord { x: -60, y: -31 }), Some(0));
    assert_eq!(cell_index(Coord { x: 60, y: 31 }), Some(CELLS - 1));
    assert_eq!(cell_index(Coord { x: 61, y: 0 }), None);
    assert_eq!(cell_index(Coord { x: 0, y: -32 }), None);
    for i in [0, 1, 120, 121, 4000, CELLS - 1] {
        assert_eq!(cell_index(coord_at(i)), Some(i));
    }
}

#[test]
fn fresh_world_is_open_and_off_grid_is_solid() {
    let mut w = WorldData::new();
    assert!(!w.is_solid(Coord { x: 0, y: 0 }));
    assert!(w.is_solid(Coord { x: 100, y: 0 }));
    assert!(!w.is_blocked(Coord { x: 1, y: 1 }));
    w.mark_blocking(Coord { x: 1, y: 1 }, 7);
    assert_eq!(w.blocker(Coord { x: 1, y: 1 }), Some(7));
    w.clear_blocking(Coord { x: 1, y: 1 });
    assert!(!w.is_blocked(Coord { x: 1, y: 1 }));
}

#[test]
fn fresh_world_cells_start_plain() {
    let w = WorldData::new();
    assert_eq!(w.tiles.len(), CELLS);
    assert!(w.tiles.iter().all(|t| *t == 0));
    assert!(w.passability.iter().all(|p| *p == Passability::Passable));
    assert!(w.visibility.iter().all(|v| *v == CellVisibility::Unseen));
    assert!(w.memory.iter().all(|m| !*m));
}
