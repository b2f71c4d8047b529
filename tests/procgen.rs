use svarog::grid::{cell_index, coord_at, Coord, CELLS};
use svarog::procgen::{carve_disc, generate_level, shrink_radius, ProcGenEvent};
use svarog::population::placement_candidates;
use svarog::rng::Random;
use svarog::grid::WorldData;
use svarog::character::{Character, CharacterStat};
use svarog::world::{ItemType, MapRadius, MonsterKind, Simulation, TurnEntry};
use svarog::world::MonsterKind::{Acolyte, Bat, Goblin, Healer, Orc, Thaumaturge};

fn restarted(seed: u64) -> Simulation {
    let mut sim = Simulation::new(seed);
    generate_level(&mut sim, ProcGenEvent::RestartWorld);
    sim
}

fn fingerprint(sim: &Simulation) -> Vec<String> {
    let mut out = Vec::new();
    out.push(format!("{:?}", sim.world.tiles));
    out.push(format!("{:?}", sim.world.solid));
    out.push(format!("{:?}", sim.world.transparent));
    out.push(format!("{:?}", sim.world.passability));
    for a in &sim.actors {
        out.push(format!(
            "{} {:?} {} {:?} {:?}",
            a.entity.name,
            a.entity.position,
            a.entity.sprite_index,
            a.item.as_ref().map(|i| (i.item_type, i.stats.clone())),
            a.monster
        ));
    }
    out
}

#[test]
fn radius_shrinks_by_fifty_per_next_level_and_restart_keeps_it() {
    let mut sim = restarted(11);
    assert_eq!(sim.radius, MapRadius(800));
    let mut seen = Vec::new();
    for _ in 0..3 {
        generate_level(&mut sim, ProcGenEvent::NextLevel);
        seen.push(sim.radius.0);
    }
    assert_eq!(seen, vec![750, 700, 650]);
    generate_level(&mut sim, ProcGenEvent::RestartWorld);
    assert_eq!(sim.radius, MapRadius(650));
    assert_eq!(sim.depth.0, 1);
}

#[test]
fn radius_floor_is_fifty() {
    assert_eq!(shrink_radius(MapRadius(800)), MapRadius(750));
    assert_eq!(shrink_radius(MapRadius(101)), MapRadius(51));
    assert_eq!(shrink_radius(MapRadius(100)), MapRadius(50));
    assert_eq!(shrink_radius(MapRadius(80)), MapRadius(50));
    assert_eq!(shrink_radius(MapRadius(-5)), MapRadius(50));
}

#[test]
fn restart_places_player_scrolls_and_turn_order() {
    let sim = restarted(2024);
    assert_eq!(sim.depth.0, 1);
    let player = &sim.actors[0];
    assert!(player.entity.is_player);
    assert!(!sim.world.is_solid(player.entity.position));
    assert_eq!(player.hitpoints, 18);
    assert_eq!(player.sight, 6);
    assert_eq!(player.character.agility, 5);
    assert_eq!(sim.actors.iter().filter(|a| a.entity.is_player).count(), 1);
    let scrolls = sim
        .actors
        .iter()
        .filter(|a| a.item.as_ref().map(|i| i.item_type == ItemType::Scroll).unwrap_or(false))
        .count();
    assert!(scrolls >= 3);
    assert_eq!(sim.turn_order[0], TurnEntry { actor: 0, energy: 0 });
    assert!(sim.turn_order.iter().all(|e| e.energy == 0));
    assert!(sim.fov_requested);
    assert!(sim.turn_progress);
    assert_eq!(sim.world.blocker(player.entity.position), Some(0));
}

#[test]
fn same_seed_same_level() {
    let a = restarted(77);
    let b = restarted(77);
    assert_eq!(fingerprint(&a), fingerprint(&b));
    let mut a2 = a;
    let mut b2 = b;
    generate_level(&mut a2, ProcGenEvent::NextLevel);
    generate_level(&mut b2, ProcGenEvent::NextLevel);
    assert_eq!(fingerprint(&a2), fingerprint(&b2));
    let c = restarted(78);
    assert_ne!(fingerprint(&restarted(77)), fingerprint(&c));
}

#[test]
fn nothing_is_placed_on_solid_cells_except_the_fallback() {
    for seed in [1u64, 2, 3] {
        let mut sim = restarted(seed);
        for _ in 0..4 {
            for a in &sim.actors {
                let p = a.entity.position;
                assert!(!sim.world.is_solid(p) || p == Coord { x: 0, y: 0 });
            }
            generate_level(&mut sim, ProcGenEvent::NextLevel);
        }
    }
}

#[test]
fn candidates_are_never_solid() {
    let mut world = WorldData::new();
    let mut rng = Random::new(5);
    let layout = carve_disc(&mut world, &mut rng, 800);
    let (interiors, open) = placement_candidates(&world, &layout, &mut rng);
    assert!(!open.is_empty());
    for c in interiors.iter().chain(open.iter()) {
        assert!(!world.is_solid(*c));
    }
}

#[test]
fn carved_disc_matches_radius() {
    let mut world = WorldData::new();
    let mut rng = Random::new(5);
    let layout = carve_disc(&mut world, &mut rng, 100);
    for i in 0..CELLS {
        let c = coord_at(i);
        let inside = c.x * c.x + c.y * c.y < 100;
        assert_eq!(world.solid[i], !inside);
        assert_eq!(layout.okay[i], inside);
    }
    assert!(world.is_solid(Coord { x: 10, y: 0 }));
    assert!(!world.is_solid(Coord { x: 9, y: 4 }));
}

#[test]
fn next_level_keeps_the_player_and_advances_depth() {
    let mut sim = restarted(9);
    sim.actors[0].hitpoints = 7;
    generate_level(&mut sim, ProcGenEvent::NextLevel);
    assert_eq!(sim.depth.0, 2);
    assert!(sim.actors[0].entity.is_player);
    assert_eq!(sim.actors[0].hitpoints, 7);
    assert_eq!(sim.actors.iter().filter(|a| a.entity.is_player).count(), 1);
    let p = sim.actors[0].entity.position;
    assert!(!sim.world.is_solid(p));
    assert_eq!(sim.actors[0].rendered, p);
    assert_eq!(sim.turn_order[0], TurnEntry { actor: 0, energy: 0 });
}

#[test]
fn next_level_without_player_does_nothing() {
    let mut sim = Simulation::new(4);
    let r = generate_level(&mut sim, ProcGenEvent::NextLevel);
    assert_eq!(r.spawn_candidates, 0);
    assert_eq!(sim.radius, MapRadius(800));
    assert_eq!(sim.depth.0, 1);
    assert!(sim.actors.is_empty());
}

#[test]
fn deep_levels_have_no_monsters() {
    let mut sim = restarted(12);
    assert!(sim.actors.iter().any(|a| a.monster.is_some()));
    for _ in 0..5 {
        generate_level(&mut sim, ProcGenEvent::NextLevel);
    }
    assert_eq!(sim.depth.0, 6);
    assert!(sim.actors.iter().all(|a| a.monster.is_none()));
    let outside = cell_index(Coord { x: 0, y: 31 }).unwrap();
    assert!(sim.world.solid[outside]);
}

#[test]
fn item_bonuses_follow_their_weapon() {
    let sim = restarted(31);
    for a in &sim.actors {
        if let Some(item) = &a.item {
            match a.entity.name.as_str() {
                "Arcane Writ" => assert!(item.stats.is_empty()),
                "Staff" => {
                    assert!(item.stats.len() >= 2 && item.stats.len() <= 4);
                    assert_eq!(item.stats[0].1, 1);
                    assert_eq!(item.stats[1].1, 1);
                }
                "Sword" | "Dagger" => {
                    assert!(item.stats.len() <= 2);
                    assert_eq!(item.stats[0].1, 2);
                }
                other => panic!("unexpected item {}", other),
            }
        }
    }
}

fn count(sim: &Simulation, kind: MonsterKind) -> usize {
    sim.actors
        .iter()
        .filter(|a| a.monster.map(|m| m.kind == kind).unwrap_or(false))
        .count()
}

#[test]
fn roster_follows_the_depth_table() {
    for seed in [3u64, 4] {
        let mut sim = restarted(seed);
        let mut ranges = vec![
            vec![(Orc, 1, 2), (Goblin, 3, 6), (Bat, 0, 4), (Acolyte, 0, 0), (Thaumaturge, 0, 0), (Healer, 0, 0)],
            vec![(Orc, 0, 2), (Goblin, 1, 7), (Bat, 2, 5), (Acolyte, 0, 0), (Thaumaturge, 0, 0), (Healer, 0, 0)],
            vec![(Orc, 0, 0), (Goblin, 0, 3), (Bat, 0, 2), (Acolyte, 0, 6), (Thaumaturge, 0, 0), (Healer, 0, 0)],
            vec![(Orc, 0, 0), (Goblin, 0, 4), (Bat, 0, 0), (Acolyte, 2, 3), (Thaumaturge, 0, 2), (Healer, 0, 0)],
            vec![(Orc, 0, 0), (Goblin, 0, 3), (Bat, 0, 3), (Acolyte, 2, 3), (Thaumaturge, 2, 2), (Healer, 1, 1)],
        ]
        .into_iter();
        for depth in 1..=5u32 {
            assert_eq!(sim.depth.0, depth);
            for (kind, lo, hi) in ranges.next().unwrap() {
                let n = count(&sim, kind);
                assert!(n >= lo && n <= hi, "depth {} {:?}: {}", depth, kind, n);
            }
            for a in &sim.actors {
                if let Some(m) = a.monster {
                    assert!(a.entity.blocking);
                    assert_eq!(sim.world.blocker(a.entity.position).is_some(), true);
                    if m.aggro {
                        assert_eq!(m.kind, Orc);
                    }
                }
            }
            let takers = sim.actors.iter().filter(|a| a.entity.is_player || a.monster.is_some()).count();
            assert_eq!(sim.turn_order.len(), takers);
            generate_level(&mut sim, ProcGenEvent::NextLevel);
        }
    }
}

#[test]
fn staff_count_grows_with_depth() {
    let mut sim = restarted(21);
    for depth in 1..=3u32 {
        let staffs = sim.actors.iter().filter(|a| a.entity.name == "Staff").count();
        assert_eq!(staffs as u32, 4 + depth);
        generate_level(&mut sim, ProcGenEvent::NextLevel);
    }
}

#[test]
fn restart_spawns_the_named_player() {
    let sim = restarted(8);
    let p = &sim.actors[0];
    assert_eq!(p.entity.name, "You");
    assert_eq!(p.entity.sprite_index, 79);
    assert!(p.entity.blocking);
    assert_eq!(p.character, Character { agility: 5, ..Character::default() });
    assert_eq!(sim.world.blocker(p.entity.position), Some(0));
}

#[test]
fn next_level_keeps_the_player_state() {
    let mut sim = restarted(10);
    sim.actors[0].hitpoints = 4;
    sim.actors[0].character.wisdom = 9;
    sim.actors[0].pending = vec![svarog::actions::a_wait(0)];
    generate_level(&mut sim, ProcGenEvent::NextLevel);
    let p = &sim.actors[0];
    assert_eq!(p.entity.name, "You");
    assert_eq!(p.hitpoints, 4);
    assert_eq!(p.character.wisdom, 9);
    assert_eq!(p.pending.len(), 1);
    assert_eq!(sim.world.blocker(p.entity.position), Some(0));
}

#[test]
fn items_and_monsters_are_named() {
    let sim = restarted(14);
    for a in &sim.actors[1..4] {
        assert_eq!(a.entity.name, "Arcane Writ");
        assert!(a.entity.sprite_index == 769 || a.entity.sprite_index == 768);
        assert!(!a.entity.blocking);
    }
    for a in &sim.actors {
        if let Some(m) = a.monster {
            let expected = format!("{:?}", m.kind);
            assert_eq!(a.entity.name, expected);
        }
    }
}

#[test]
fn staff_rolls_mostly_avoid_their_primaries() {
    let mut avoided = 0;
    let mut total = 0;
    for seed in 0..5u64 {
        let sim = restarted(seed);
        for a in &sim.actors {
            if a.entity.name == "Staff" {
                let stats = &a.item.as_ref().unwrap().stats;
                for (s, p) in &stats[2..] {
                    total += 1;
                    if *s != CharacterStat::ARC && *s != CharacterStat::WIS && *p != 0 {
                        avoided += 1;
                    }
                }
            }
        }
    }
    assert!(total > 0);
    assert_eq!(avoided, total);
}
