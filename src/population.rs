//! Filling a generated level: candidate cells, the player, items with
//! rolled stat bonuses, and the per-depth monster roster.

use vstd::prelude::*;
use crate::actions::Action;
use crate::character::{Character, CharacterStat};
use crate::grid::{coord_at, coord_of, in_grid, Coord, WorldData, WorldEntityKind, CELLS};
use crate::procgen::{layout_ok, Layout};
use crate::rng::{gen_value, next_state, pick_index, shuffle_from, Random};
use crate::sprites::{self, Tile};
use crate::world::{Actor, EntityVisibility, Item, ItemType, Monster, MonsterKind, WorldEntity};

verus! {

broadcast use vstd::seq_lib::to_multiset_contains;

/// The fallback cell used when no candidate is left.
pub open spec fn origin() -> Coord {
    Coord { x: 0, y: 0 }
}

/// Every coordinate of `list` lies on the grid and is not solid.
pub open spec fn all_placeable(world: WorldData, list: Seq<Coord>) -> bool {
    forall|k: int| 0 <= k < list.len() ==> in_grid(#[trigger] list[k]) && !world.solid_at(list[k])
}

/// A placed actor other than the player stands on a cell that is not solid,
/// or on the fallback cell.
pub open spec fn placed_ok(world: WorldData, a: Actor) -> bool {
    &&& !a.entity.is_player
    &&& !world.solid_at(a.entity.position) || a.entity.position == origin()
}

/// The cells among the first `n` whose flag in `marked` is set, and whose
/// flag in `excluded` is not, in cell order.
pub open spec fn cells_where(marked: Seq<bool>, excluded: Seq<bool>, n: nat) -> Seq<Coord>
    decreases n,
{
    if n == 0 {
        Seq::empty()
    } else {
        let prev = cells_where(marked, excluded, (n - 1) as nat);
        let k = n - 1;
        if marked[k] && !excluded[k] { prev.push(coord_of(k)) } else { prev }
    }
}

/// No cell flag is set.
pub open spec fn no_cells() -> Seq<bool> {
    Seq::new(CELLS as nat, |_k: int| false)
}

/// The interior candidates in cell order, before shuffling.
pub open spec fn interior_cells(layout: Layout) -> Seq<Coord> {
    cells_where(layout.interior@, no_cells(), CELLS as nat)
}

/// The open, non-interior candidates in cell order, before shuffling.
pub open spec fn open_cells(layout: Layout) -> Seq<Coord> {
    cells_where(layout.okay@, layout.interior@, CELLS as nat)
}

/// The random state after the interior candidates are shuffled.
pub open spec fn next_after_interiors(s: u64, layout: Layout) -> u64 {
    shuffle_from(s, interior_cells(layout), interior_cells(layout).len()).1
}

/// The candidate lists for placement, each shuffled by the session stream,
/// interior cells first: `.0` holds the interior cells, `.1` the open cells
/// that are not interior. No solid cell is ever a candidate.
pub fn placement_candidates(world: &WorldData, layout: &Layout, rng: &mut Random) -> (r: (Vec<Coord>, Vec<Coord>))
    requires
        layout_ok(*world, *layout),
    ensures
        all_placeable(*world, r.0@),
        all_placeable(*world, r.1@),
        r.0@.len() == interior_cells(*layout).len(),
        r.1@.len() == open_cells(*layout).len(),
        (r.0@, next_after_interiors(old(rng)@, *layout)) == shuffle_from(old(rng)@, interior_cells(*layout), interior_cells(*layout).len()),
        (r.1@, final(rng)@) == shuffle_from(
            next_after_interiors(old(rng)@, *layout),
            open_cells(*layout),
            open_cells(*layout).len(),
        ),
{
    let mut interiors: Vec<Coord> = Vec::new();
    let mut open: Vec<Coord> = Vec::new();
    let mut i: usize = 0;
    while i < CELLS
        invariant
            i <= CELLS,
            layout_ok(*world, *layout),
            all_placeable(*world, interiors@),
            all_placeable(*world, open@),
            interiors@ == cells_where(layout.interior@, no_cells(), i as nat),
            open@ == cells_where(layout.okay@, layout.interior@, i as nat),
        decreases CELLS - i,
    {
        let c = coord_at(i);
        if layout.interior[i] {
            interiors.push(c);
        } else if layout.okay[i] {
            open.push(c);
        }
        i = i + 1;
    }
    let shuffled_interiors = rng.shuffle(interiors);
    let shuffled_open = rng.shuffle(open);
    proof {
        lemma_shuffle_placeable(*world, interiors@, shuffled_interiors@);
        lemma_shuffle_placeable(*world, open@, shuffled_open@);
    }
    (shuffled_interiors, shuffled_open)
}

/// A rearrangement of placeable cells holds only placeable cells.
proof fn lemma_shuffle_placeable(world: WorldData, a: Seq<Coord>, b: Seq<Coord>)
    requires
        all_placeable(world, a),
        b.to_multiset() == a.to_multiset(),
    ensures
        all_placeable(world, b),
{
    assert forall|k: int| 0 <= k < b.len() implies in_grid(#[trigger] b[k]) && !world.solid_at(b[k]) by {
        assert(b.contains(b[k]));
        assert(b.to_multiset().count(b[k]) > 0);
        assert(a.to_multiset().count(b[k]) > 0);
        assert(a.contains(b[k]));
    }
}

/// Takes the last candidate of `list`, or the fallback cell if it is empty.
pub fn pop_or_origin(list: &mut Vec<Coord>) -> (r: Coord)
    ensures
        old(list)@.len() == 0 ==> r == origin() && final(list)@ == old(list)@,
        old(list)@.len() > 0 ==> r == old(list)@.last() && final(list)@ == old(list)@.drop_last(),
{
    match list.pop() {
        Some(c) => c,
        None => Coord { x: 0, y: 0 },
    }
}

/// A fresh actor named `name` at `pos` with sprite `sprite_index`: baseline
/// attributes, no health, not yet seen.
pub fn new_actor(name: &str, pos: Coord, sprite_index: usize, blocking: bool, kind: WorldEntityKind) -> (r: Actor)
    ensures
        r.entity.position == pos,
        r.entity.name@ == name@,
        r.entity.sprite_index == sprite_index,
        r.entity.blocking == blocking,
        r.entity.is_player == (kind == WorldEntityKind::Player),
        r.kind == kind,
        r.character == (Character { strength: 3, arcane: 3, intelligence: 3, wisdom: 3, willpower: 3, agility: 3 }),
        r.hitpoints == 0,
        r.sight == 0,
        r.visibility == EntityVisibility::Hidden,
        r.carried == false,
        r.rendered == pos,
        r.last_seen is None,
        r.pending@.len() == 0,
        r.item is None,
        r.monster is None,
{
    Actor {
        entity: WorldEntity {
            name: name.to_owned(),
            position: pos,
            sprite_index,
            blocking,
            is_player: matches!(kind, WorldEntityKind::Player),
        },
        kind,
        character: Character::default(),
        hitpoints: 0,
        sight: 0,
        carried: false,
        rendered: pos,
        visibility: EntityVisibility::Hidden,
        last_seen: None,
        pending: Vec::new(),
        item: None,
        monster: None,
    }
}

/// Health of a freshly spawned player.
pub const PLAYER_HEALTH: i32 = 18;

/// Base sight of a freshly spawned player.
pub const PLAYER_SIGHT: u32 = 6;

/// Sprite index of the player.
pub const PLAYER_SPRITE: usize = 79;

/// The player as spawned on a restart: baseline attributes with agility 5,
/// full health, base sight 6, blocking.
pub fn new_player(pos: Coord) -> (r: Actor)
    ensures
        r.entity.position == pos,
        r.entity.name@ == "You"@,
        r.entity.is_player,
        r.entity.blocking,
        r.kind == WorldEntityKind::Player,
        r.character == (Character { agility: 5, ..Character { strength: 3, arcane: 3, intelligence: 3, wisdom: 3, willpower: 3, agility: 3 } }),
        r.hitpoints == PLAYER_HEALTH,
        r.sight == PLAYER_SIGHT,
        r.entity.sprite_index == PLAYER_SPRITE,
        r.rendered == pos,
        r.visibility == EntityVisibility::Hidden,
        r.last_seen is None,
        r.pending@.len() == 0,
        !r.carried,
        r.item is None,
        r.monster is None,
{
    let mut a = new_actor("You", pos, sprites::emo_mage().index(), true, WorldEntityKind::Player);
    let base = Character::default();
    a.character = Character { agility: 5, ..base };
    a.hitpoints = PLAYER_HEALTH;
    a.sight = PLAYER_SIGHT;
    a
}

/// `new` is `old` with actors appended, each placed properly.
pub open spec fn appended_ok(world: WorldData, old: Seq<Actor>, new: Seq<Actor>) -> bool {
    &&& new.len() >= old.len()
    &&& forall|k: int| 0 <= k < old.len() ==> #[trigger] new[k] == old[k]
    &&& forall|k: int| old.len() <= k < new.len() ==> placed_ok(world, #[trigger] new[k])
}

/// Whether `a` is a scroll item.
pub open spec fn is_scroll(a: Actor) -> bool {
    &&& a.item is Some
    &&& a.item.unwrap().item_type == ItemType::Scroll
    &&& a.entity.name@ == scroll_name()
    &&& scroll_sprites().contains(a.entity.sprite_index)
}

/// An item to place: sprite, type, stat bonuses in order, and cell.
pub struct ItemSpawn {
    pub name: Seq<char>,
    pub sprite: usize,
    pub item_type: ItemType,
    pub stats: Seq<(CharacterStat, i32)>,
    pub position: Coord,
}

/// Actor `a` is the item `sp`.
pub open spec fn item_matches(a: Actor, sp: ItemSpawn) -> bool {
    &&& a.entity.name@ == sp.name
    &&& !a.entity.blocking
    &&& a.entity.sprite_index == sp.sprite
    &&& a.entity.position == sp.position
    &&& a.item is Some
    &&& a.item.unwrap().item_type == sp.item_type
    &&& a.item.unwrap().stats@ == sp.stats
}

/// The actors after position `base` are exactly the items of `spawns`.
pub open spec fn items_as(actors: Seq<Actor>, base: int, spawns: Seq<ItemSpawn>) -> bool {
    &&& actors.len() == base + spawns.len()
    &&& forall|k: int| 0 <= k < spawns.len() ==> #[trigger] item_matches(actors[base + k], spawns[k])
}

/// Whether `stat` is one of the (up to two) primary attributes a roll avoids.
pub open spec fn is_primary(stat: CharacterStat, avoid: (Option<CharacterStat>, Option<CharacterStat>)) -> bool {
    avoid.0 == Some(stat) || avoid.1 == Some(stat)
}

/// The attributes in roll order.
pub open spec fn stat_order() -> Seq<CharacterStat> {
    seq![
        CharacterStat::STR,
        CharacterStat::ARC,
        CharacterStat::INT,
        CharacterStat::WIS,
        CharacterStat::WIL,
        CharacterStat::AGI,
    ]
}

/// The redraws of a secondary roll from state `s`, holding `stat` and
/// `power` after `attempt` draws: while the power is zero or the attribute
/// is one of `avoid`, and at most ten times, power then attribute are drawn again.
/// Gives the final attribute, power and state.
pub open spec fn retry_from(
    s: u64,
    stat: CharacterStat,
    power: i32,
    attempt: int,
    lo: i32,
    hi: i32,
    avoid: (Option<CharacterStat>, Option<CharacterStat>),
) -> (CharacterStat, i32, u64)
    decreases 11 - attempt,
{
    if !(power == 0 || is_primary(stat, avoid)) || attempt > 10 || attempt < 1 {
        (stat, power, s)
    } else {
        let p = gen_value(s, lo, hi);
        let s1 = next_state(s);
        retry_from(next_state(s1), stat_order()[pick_index(s1, 6) as int], p, attempt + 1, lo, hi, avoid)
    }
}

/// One secondary roll from state `s`: an attribute drawn and set aside, a
/// power in `[lo, hi)` and an attribute, then the redraws.
pub open spec fn roll_from(s: u64, lo: i32, hi: i32, avoid: (Option<CharacterStat>, Option<CharacterStat>)) -> (CharacterStat, i32, u64) {
    let s1 = next_state(s);
    let p = gen_value(s1, lo, hi);
    let s2 = next_state(s1);
    retry_from(next_state(s2), stat_order()[pick_index(s2, 6) as int], p, 1, lo, hi, avoid)
}

/// Rolls `k` up to `rolls` appended to `acc`, with the final state.
pub open spec fn bonuses_acc(
    s: u64,
    acc: Seq<(CharacterStat, i32)>,
    k: int,
    rolls: int,
    lo: i32,
    hi: i32,
    avoid: (Option<CharacterStat>, Option<CharacterStat>),
) -> (Seq<(CharacterStat, i32)>, u64)
    decreases rolls - k,
{
    if k >= rolls {
        (acc, s)
    } else {
        let r = roll_from(s, lo, hi, avoid);
        bonuses_acc(r.2, acc.push((r.0, r.1)), k + 1, rolls, lo, hi, avoid)
    }
}

/// How one kind of weapon is made: its sprites, its fixed bonuses, the
/// exclusive bound on the number of further rolls, their power range and the
/// attribute they avoid.
pub struct WeaponRule {
    pub name: Seq<char>,
    pub tiles: Seq<usize>,
    pub base: Seq<(CharacterStat, i32)>,
    pub rolls_hi: i32,
    pub lo: i32,
    pub hi: i32,
    pub avoid: (Option<CharacterStat>, Option<CharacterStat>),
}

/// One weapon from state `s` on the next candidate of `list`: sprite drawn,
/// roll count drawn, rolls made; with the state and list left.
#[verifier::opaque]
pub open spec fn weapon_one(s: u64, list: Seq<Coord>, rule: WeaponRule) -> (ItemSpawn, u64, Seq<Coord>) {
    let tile = rule.tiles[pick_index(s, rule.tiles.len()) as int];
    let s1 = next_state(s);
    let rolls = gen_value(s1, 0, rule.rolls_hi);
    let b = bonuses_acc(next_state(s1), rule.base, 0, rolls as int, rule.lo, rule.hi, rule.avoid);
    let (pos, rest) = pop_spec(list);
    (ItemSpawn { name: rule.name, sprite: tile, item_type: ItemType::Weapon, stats: b.0, position: pos }, b.1, rest)
}

/// Weapons for counter values `n` up to `end` appended to `acc`.
pub open spec fn weapons_acc(s: u64, list: Seq<Coord>, acc: Seq<ItemSpawn>, n: int, end: int, rule: WeaponRule) -> (Seq<ItemSpawn>, u64, Seq<Coord>)
    decreases end - n,
{
    if n >= end {
        (acc, s, list)
    } else {
        let w = weapon_one(s, list, rule);
        weapons_acc(w.1, w.2, acc.push(w.0), n + 1, end, rule)
    }
}

/// Whether `sp` is a scroll: its type, name and one of the scroll sprites.
pub open spec fn scroll_spawn(sp: ItemSpawn) -> bool {
    &&& sp.item_type == ItemType::Scroll
    &&& sp.name == scroll_name()
    &&& scroll_sprites().contains(sp.sprite)
}

/// The name every scroll carries.
pub open spec fn scroll_name() -> Seq<char> {
    "Arcane Writ"@
}

/// Scroll sprites.
pub open spec fn scroll_sprites() -> Seq<usize> {
    seq![769usize, 768]
}

/// Scrolls for counter values `n` up to 3 appended to `acc`.
pub open spec fn scrolls_acc(s: u64, list: Seq<Coord>, acc: Seq<ItemSpawn>, n: int) -> (Seq<ItemSpawn>, u64, Seq<Coord>)
    decreases 4 - n,
{
    if n >= 4 {
        (acc, s, list)
    } else {
        let (pos, rest) = pop_spec(list);
        let scroll = ItemSpawn {
            name: scroll_name(),
            sprite: scroll_sprites()[pick_index(s, 2) as int],
            item_type: ItemType::Scroll,
            stats: Seq::empty(),
            position: pos,
        };
        scrolls_acc(next_state(s), rest, acc.push(scroll), n + 1)
    }
}

/// The depth used in the item formulas, capped at 10000.
pub open spec fn item_depth(depth: u32) -> int {
    if depth <= 10000 { depth as int } else { 10000 }
}

/// The bound on further staff rolls and on sword and dagger counts: `2 + d`,
/// at most 4.
pub open spec fn roll_cap(d: int) -> int {
    if 2 + d < 4 { 2 + d } else { 4 }
}

/// How staffs are made at formula depth `d`.
pub open spec fn staff_rule(d: int) -> WeaponRule {
    WeaponRule {
        name: "Staff"@,
        tiles: seq![228usize, 229, 230, 277, 278],
        base: seq![(CharacterStat::ARC, 1i32), (CharacterStat::WIS, 1i32)],
        rolls_hi: roll_cap(d) as i32,
        lo: (-1 - d) as i32,
        hi: (5 + d) as i32,
        avoid: (Some(CharacterStat::ARC), Some(CharacterStat::WIS)),
    }
}

/// How swords are made at formula depth `d`.
pub open spec fn sword_rule(d: int) -> WeaponRule {
    WeaponRule {
        name: "Sword"@,
        tiles: seq![375usize, 376, 377, 378, 379],
        base: seq![(CharacterStat::STR, (2 + d / 3) as i32)],
        rolls_hi: 2,
        lo: (-1 - d) as i32,
        hi: (5 + d) as i32,
        avoid: (Some(CharacterStat::STR), None),
    }
}

/// How daggers are made at formula depth `d`.
pub open spec fn dagger_rule(d: int) -> WeaponRule {
    WeaponRule {
        name: "Dagger"@,
        tiles: seq![326usize, 327, 328, 329, 330],
        base: seq![(CharacterStat::AGI, (2 + d / 3) as i32)],
        rolls_hi: 2,
        lo: (-2 - d) as i32,
        hi: (3 + d) as i32,
        avoid: (Some(CharacterStat::AGI), None),
    }
}

/// The items of a level at `depth` from state `s` and interior list `list`:
/// three scrolls, `4 + d` staffs, then swords and daggers, each count
/// `d + draw - 1` for a draw below `roll_cap(d)`.
#[verifier::opaque]
pub open spec fn items_from(s: u64, list: Seq<Coord>, depth: u32) -> (Seq<ItemSpawn>, u64, Seq<Coord>) {
    let d = item_depth(depth);
    let sc = scrolls_acc(s, list, Seq::empty(), 1);
    let st = weapons_acc(sc.1, sc.2, sc.0, 1, 5 + d, staff_rule(d));
    let sword_end = d + gen_value(st.1, 0, roll_cap(d) as i32);
    let sw = weapons_acc(next_state(st.1), st.2, st.0, 1, sword_end, sword_rule(d));
    let dagger_end = d + gen_value(sw.1, 0, roll_cap(d) as i32);
    weapons_acc(next_state(sw.1), sw.2, sw.0, 1, dagger_end, dagger_rule(d))
}

/// Whether `stat` is one of the attributes to avoid.
fn is_avoided(stat: CharacterStat, avoid: (Option<CharacterStat>, Option<CharacterStat>)) -> (r: bool)
    ensures
        r == is_primary(stat, avoid),
{
    let first = match avoid.0 {
        Some(s) => stat == s,
        None => false,
    };
    let second = match avoid.1 {
        Some(s) => stat == s,
        None => false,
    };
    first || second
}

/// The attributes in roll order.
fn all_stats() -> (r: Vec<CharacterStat>)
    ensures
        r@ == stat_order(),
{
    let r = vec![
        CharacterStat::STR,
        CharacterStat::ARC,
        CharacterStat::INT,
        CharacterStat::WIS,
        CharacterStat::WIL,
        CharacterStat::AGI,
    ];
    assert(r@ =~= stat_order());
    r
}

/// One secondary stat roll: draws an attribute, then redraws power and
/// attribute while the power is zero or the attribute is one of `avoid`, giving up
/// after the eleventh draw and keeping whatever it last drew.
fn roll_bonus(rng: &mut Random, stats: &Vec<CharacterStat>, lo: i32, hi: i32, avoid: (Option<CharacterStat>, Option<CharacterStat>)) -> (r: (CharacterStat, i32))
    requires
        stats@ == stat_order(),
        lo < hi,
    ensures
        (r.0, r.1, final(rng)@) == roll_from(old(rng)@, lo, hi, avoid),
{
    let _discarded = rng.pick(stats.as_slice());
    let mut power: i32 = rng.gen(lo, hi);
    let mut stat = rng.pick(stats.as_slice());
    let mut attempt: u32 = 1;
    let ghost target = roll_from(old(rng)@, lo, hi, avoid);
    while power == 0 || is_avoided(stat, avoid)
        invariant
            stats@ == stat_order(),
            lo < hi,
            1 <= attempt <= 11,
            retry_from(rng@, stat, power, attempt as int, lo, hi, avoid) == target,
        ensures
            (stat, power, rng@) == target,
        decreases 11 - attempt,
    {
        if attempt > 10 {
            break;
        }
        power = rng.gen(lo, hi);
        stat = rng.pick(stats.as_slice());
        attempt = attempt + 1;
    }
    (stat, power)
}

/// Places a weapon made by the rule given by `tiles`, `base`, `rolls_hi`,
/// `lo`, `hi` and `avoid` on the next candidate of `list`.
fn make_weapon(
    world: &WorldData,
    actors: &mut Vec<Actor>,
    rng: &mut Random,
    list: &mut Vec<Coord>,
    name: &str,
    tiles: &Vec<usize>,
    base: &Vec<(CharacterStat, i32)>,
    rolls_hi: i32,
    lo: i32,
    hi: i32,
    avoid: (Option<CharacterStat>, Option<CharacterStat>),
    stats: &Vec<CharacterStat>,
)
    requires
        all_placeable(*world, old(list)@),
        tiles@.len() > 0,
        stats@ == stat_order(),
        lo < hi,
    ensures
        all_placeable(*world, final(list)@),
        final(actors)@.len() == old(actors)@.len() + 1,
        appended_ok(*world, old(actors)@, final(actors)@),
        ({
            let w = weapon_one(
                old(rng)@,
                old(list)@,
                WeaponRule { name: name@, tiles: tiles@, base: base@, rolls_hi, lo, hi, avoid },
            );
            &&& items_as(final(actors)@, old(actors)@.len() as int, seq![w.0])
            &&& final(rng)@ == w.1
            &&& final(list)@ == w.2
        }),
{
    let sprite = rng.pick(tiles.as_slice());
    let rolls = rng.gen(0, rolls_hi);
    let mut bonuses: Vec<(CharacterStat, i32)> = Vec::new();
    let mut b: usize = 0;
    while b < base.len()
        invariant
            b <= base@.len(),
            bonuses@ == base@.subrange(0, b as int),
        decreases base@.len() - b,
    {
        bonuses.push(base[b]);
        b = b + 1;
        assert(bonuses@ =~= base@.subrange(0, b as int));
    }
    assert(bonuses@ =~= base@);
    let ghost target = bonuses_acc(rng@, base@, 0, rolls as int, lo, hi, avoid);
    let mut k: i32 = 0;
    while k < rolls
        invariant
            stats@ == stat_order(),
            lo < hi,
            0 <= k || k == 0,
            bonuses_acc(rng@, bonuses@, k as int, rolls as int, lo, hi, avoid) == target,
        decreases rolls - k,
    {
        let r = roll_bonus(rng, stats, lo, hi, avoid);
        bonuses.push(r);
        k = k + 1;
    }
    let pos = pop_or_origin(list);
    let mut a = new_actor(name, pos, sprite, false, WorldEntityKind::Item);
    a.item = Some(Item { item_type: ItemType::Weapon, stats: bonuses });
    actors.push(a);
    proof {
        reveal(weapon_one);
        let base_len = old(actors)@.len() as int;
        let w = weapon_one(old(rng)@, old(list)@, WeaponRule { name: name@, tiles: tiles@, base: base@, rolls_hi, lo, hi, avoid });
        assert(actors@[base_len + 0] == a);
        assert(item_matches(actors@[base_len + 0], seq![w.0][0]));
    }
}

/// Places weapons for counter values 1 up to `end`, appending to the items
/// `prior` already placed after `base`.
fn make_weapons(
    world: &WorldData,
    actors: &mut Vec<Actor>,
    rng: &mut Random,
    list: &mut Vec<Coord>,
    name: &str,
    tiles: &Vec<usize>,
    base_stats: &Vec<(CharacterStat, i32)>,
    rolls_hi: i32,
    lo: i32,
    hi: i32,
    avoid: (Option<CharacterStat>, Option<CharacterStat>),
    stats: &Vec<CharacterStat>,
    end: i32,
    base: Ghost<int>,
    prior: Ghost<Seq<ItemSpawn>>,
)
    requires
        all_placeable(*world, old(list)@),
        tiles@.len() > 0,
        stats@ == stat_order(),
        lo < hi,
        0 <= base@ <= old(actors)@.len(),
        items_as(old(actors)@, base@, prior@),
    ensures
        all_placeable(*world, final(list)@),
        appended_ok(*world, old(actors)@, final(actors)@),
        ({
            let w = weapons_acc(
                old(rng)@,
                old(list)@,
                prior@,
                1,
                end as int,
                WeaponRule { name: name@, tiles: tiles@, base: base_stats@, rolls_hi, lo, hi, avoid },
            );
            &&& items_as(final(actors)@, base@, w.0)
            &&& final(rng)@ == w.1
            &&& final(list)@ == w.2
        }),
{
    let ghost rule = WeaponRule { name: name@, tiles: tiles@, base: base_stats@, rolls_hi, lo, hi, avoid };
    let ghost target = weapons_acc(rng@, list@, prior@, 1, end as int, rule);
    let ghost a0 = actors@;
    let ghost mut acc = prior@;
    let mut n: i32 = 1;
    while n < end
        invariant
            all_placeable(*world, list@),
            tiles@.len() > 0,
            stats@ == stat_order(),
            lo < hi,
            0 <= base@ <= a0.len(),
            rule == (WeaponRule { name: name@, tiles: tiles@, base: base_stats@, rolls_hi, lo, hi, avoid }),
            appended_ok(*world, a0, actors@),
            items_as(actors@, base@, acc),
            weapons_acc(rng@, list@, acc, n as int, end as int, rule) == target,
        decreases end - n,
    {
        let ghost before = actors@;
        let ghost w = weapon_one(rng@, list@, rule);
        make_weapon(world, actors, rng, list, name, tiles, base_stats, rolls_hi, lo, hi, avoid, stats);
        proof {
            assert(item_matches(actors@[before.len() as int + 0], seq![w.0][0]));
            assert forall|k: int| 0 <= k < acc.len() + 1 implies #[trigger] item_matches(actors@[base@ + k], acc.push(w.0)[k]) by {
                if k < acc.len() {
                    assert(actors@[base@ + k] == before[base@ + k]);
                    assert(item_matches(before[base@ + k], acc[k]));
                } else {
                    assert(actors@[before.len() as int + 0] == actors@[base@ + k]);
                }
            }
            acc = acc.push(w.0);
        }
        n = n + 1;
    }
}

/// Places the three scrolls, appending to the items `prior` placed after
/// `base`.
fn make_scrolls(
    world: &WorldData,
    actors: &mut Vec<Actor>,
    rng: &mut Random,
    list: &mut Vec<Coord>,
)
    requires
        all_placeable(*world, old(list)@),
    ensures
        all_placeable(*world, final(list)@),
        appended_ok(*world, old(actors)@, final(actors)@),
        ({
            let w = scrolls_acc(old(rng)@, old(list)@, Seq::empty(), 1);
            &&& items_as(final(actors)@, old(actors)@.len() as int, w.0)
            &&& final(rng)@ == w.1
            &&& final(list)@ == w.2
        }),
{
    let scroll_tiles: Vec<usize> = vec![sprites::scroll1().index(), sprites::scroll2().index()];
    assert(scroll_tiles@ =~= scroll_sprites());
    let ghost target = scrolls_acc(rng@, list@, Seq::empty(), 1);
    let ghost a0 = actors@;
    let ghost mut acc: Seq<ItemSpawn> = Seq::empty();
    let mut n: u32 = 1;
    while n < 4
        invariant
            1 <= n <= 4,
            scroll_tiles@ == scroll_sprites(),
            all_placeable(*world, list@),
            appended_ok(*world, a0, actors@),
            items_as(actors@, a0.len() as int, acc),
            scrolls_acc(rng@, list@, acc, n as int) == target,
        decreases 4 - n,
    {
        let ghost before = actors@;
        let ghost s0 = rng@;
        let sprite = rng.pick(scroll_tiles.as_slice());
        let pos = pop_or_origin(list);
        let mut a = new_actor("Arcane Writ", pos, sprite, false, WorldEntityKind::Item);
        a.item = Some(Item { item_type: ItemType::Scroll, stats: Vec::new() });
        actors.push(a);
        proof {
            let scroll = ItemSpawn { name: scroll_name(), sprite, item_type: ItemType::Scroll, stats: Seq::empty(), position: pos };
            assert(a.item.unwrap().stats@ =~= Seq::<(CharacterStat, i32)>::empty());
            assert forall|k: int| 0 <= k < acc.len() + 1 implies #[trigger] item_matches(actors@[a0.len() + k], acc.push(scroll)[k]) by {
                if k < acc.len() {
                    assert(actors@[a0.len() + k] == before[a0.len() + k]);
                    assert(item_matches(before[a0.len() + k], acc[k]));
                }
            }
            acc = acc.push(scroll);
        }
        n = n + 1;
    }
}

/// Places the level's items on interior candidates: three scrolls, then
/// `4 + d` staffs (arcane and wisdom +1 and fewer than `roll_cap(d)` further
/// rolls, which avoid arcane and wisdom), then swords (strength `2 + d / 3`) and daggers (agility
/// `2 + d / 3`), each with fewer than two further rolls and a count drawn
/// from the stream; `d` is the depth, capped at 10000.
pub fn place_items(world: &WorldData, actors: &mut Vec<Actor>, rng: &mut Random, list: &mut Vec<Coord>, depth: u32)
    requires
        all_placeable(*world, old(list)@),
    ensures
        all_placeable(*world, final(list)@),
        appended_ok(*world, old(actors)@, final(actors)@),
        final(actors)@.len() >= old(actors)@.len() + 3,
        forall|k: int| old(actors)@.len() <= k < old(actors)@.len() + 3 ==> is_scroll(#[trigger] final(actors)@[k]),
        ({
            let w = items_from(old(rng)@, old(list)@, depth);
            &&& items_as(final(actors)@, old(actors)@.len() as int, w.0)
            &&& final(rng)@ == w.1
            &&& final(list)@ == w.2
        }),
{
    let d: i32 = if depth <= 10000 { depth as i32 } else { 10000 };
    let stats = all_stats();
    let base = Ghost(actors@.len() as int);
    make_scrolls(world, actors, rng, list);
    let ghost sc = scrolls_acc(old(rng)@, old(list)@, Seq::empty(), 1);
    let ghost after_scrolls = actors@;
    let cap: i32 = if 2 + d < 4 { 2 + d } else { 4 };
    let staff_tiles: Vec<usize> = vec![
        sprites::staff1().index(),
        sprites::staff2().index(),
        sprites::staff3().index(),
        sprites::staff4().index(),
        sprites::staff5().index(),
    ];
    let staff_base: Vec<(CharacterStat, i32)> = vec![(CharacterStat::ARC, 1), (CharacterStat::WIS, 1)];
    proof {
        assert(staff_tiles@ =~= staff_rule(d as int).tiles);
        assert(staff_base@ =~= staff_rule(d as int).base);
    }
    make_weapons(world, actors, rng, list, "Staff", &staff_tiles, &staff_base, cap, -1 - d, 5 + d, (Some(CharacterStat::ARC), Some(CharacterStat::WIS)), &stats, 5 + d, base, Ghost(sc.0));
    let sword_end = d + rng.gen(0, cap);
    let sword_tiles: Vec<usize> = vec![
        sprites::sword1().index(),
        sprites::sword2().index(),
        sprites::sword3().index(),
        sprites::sword4().index(),
        sprites::sword5().index(),
    ];
    let sword_base: Vec<(CharacterStat, i32)> = vec![(CharacterStat::STR, 2 + d / 3)];
    proof {
        assert(sword_tiles@ =~= sword_rule(d as int).tiles);
        assert(sword_base@ =~= sword_rule(d as int).base);
    }
    let ghost st = weapons_acc(sc.1, sc.2, sc.0, 1, 5 + d as int, staff_rule(d as int));
    make_weapons(world, actors, rng, list, "Sword", &sword_tiles, &sword_base, 2, -1 - d, 5 + d, (Some(CharacterStat::STR), None), &stats, sword_end, base, Ghost(st.0));
    let dagger_end = d + rng.gen(0, cap);
    let dagger_tiles: Vec<usize> = vec![
        sprites::dagger1().index(),
        sprites::dagger2().index(),
        sprites::dagger3().index(),
        sprites::dagger4().index(),
        sprites::dagger5().index(),
    ];
    let dagger_base: Vec<(CharacterStat, i32)> = vec![(CharacterStat::AGI, 2 + d / 3)];
    proof {
        assert(dagger_tiles@ =~= dagger_rule(d as int).tiles);
        assert(dagger_base@ =~= dagger_rule(d as int).base);
    }
    let ghost sw = weapons_acc(next_state(st.1), st.2, st.0, 1, sword_end as int, sword_rule(d as int));
    make_weapons(world, actors, rng, list, "Dagger", &dagger_tiles, &dagger_base, 2, -2 - d, 3 + d, (Some(CharacterStat::AGI), None), &stats, dagger_end, base, Ghost(sw.0));
    proof {
        reveal(items_from);
        lemma_scrolls_first(old(rng)@, old(list)@, depth);
        lemma_items_scrolls(actors@, base@, items_from(old(rng)@, old(list)@, depth).0);
    }
}

/// Items placed after `base` whose first three are scrolls are scroll actors.
proof fn lemma_items_scrolls(actors: Seq<Actor>, base: int, spawns: Seq<ItemSpawn>)
    requires
        items_as(actors, base, spawns),
        spawns.len() >= 3,
        forall|k: int| 0 <= k < 3 ==> scroll_spawn(#[trigger] spawns[k]),
    ensures
        forall|k: int| base <= k < base + 3 ==> is_scroll(#[trigger] actors[k]),
{
    assert forall|k: int| base <= k < base + 3 implies is_scroll(#[trigger] actors[k]) by {
        assert(item_matches(actors[base + (k - base)], spawns[k - base]));
    }
}

/// The first three items of a level are scrolls.
proof fn lemma_scrolls_first(s: u64, list: Seq<Coord>, depth: u32)
    ensures
        items_from(s, list, depth).0.len() >= 3,
        forall|k: int| 0 <= k < 3 ==> scroll_spawn(#[trigger] items_from(s, list, depth).0[k]),
{
    reveal(items_from);
    let d = item_depth(depth);
    lemma_scrolls_acc(s, list, Seq::empty(), 1);
    let sc = scrolls_acc(s, list, Seq::empty(), 1);
    lemma_weapons_keep_prefix(sc.1, sc.2, sc.0, 1, 5 + d, staff_rule(d));
    let st = weapons_acc(sc.1, sc.2, sc.0, 1, 5 + d, staff_rule(d));
    let sword_end = d + gen_value(st.1, 0, roll_cap(d) as i32);
    lemma_weapons_keep_prefix(next_state(st.1), st.2, st.0, 1, sword_end, sword_rule(d));
    let sw = weapons_acc(next_state(st.1), st.2, st.0, 1, sword_end, sword_rule(d));
    let dagger_end = d + gen_value(sw.1, 0, roll_cap(d) as i32);
    lemma_weapons_keep_prefix(next_state(sw.1), sw.2, sw.0, 1, dagger_end, dagger_rule(d));
}

/// Scrolls `n` to 3 are appended after `acc`.
proof fn lemma_scrolls_acc(s: u64, list: Seq<Coord>, acc: Seq<ItemSpawn>, n: int)
    requires
        1 <= n <= 4,
    ensures
        scrolls_acc(s, list, acc, n).0.len() == acc.len() + 4 - n,
        forall|k: int| 0 <= k < acc.len() ==> #[trigger] scrolls_acc(s, list, acc, n).0[k] == acc[k],
        forall|k: int|
            acc.len() <= k < acc.len() + 4 - n ==> scroll_spawn(#[trigger] scrolls_acc(s, list, acc, n).0[k]),
    decreases 4 - n,
{
    if n < 4 {
        let (pos, rest) = pop_spec(list);
        let scroll = ItemSpawn {
            name: scroll_name(),
            sprite: scroll_sprites()[pick_index(s, 2) as int],
            item_type: ItemType::Scroll,
            stats: Seq::empty(),
            position: pos,
        };
        lemma_scrolls_acc(next_state(s), rest, acc.push(scroll), n + 1);
        let r = scrolls_acc(s, list, acc, n).0;
        assert forall|k: int| 0 <= k < acc.len() implies #[trigger] r[k] == acc[k] by {
            assert(acc.push(scroll)[k] == acc[k]);
        }
        assert forall|k: int| acc.len() <= k < acc.len() + 4 - n implies scroll_spawn(#[trigger] r[k]) by {
            if k == acc.len() {
                assert(acc.push(scroll)[k] == scroll);
                assert(scroll_sprites().contains(scroll.sprite)) by {
                    assert(scroll_sprites()[pick_index(s, 2) as int] == scroll.sprite);
                }
            }
        }
    }
}

/// Making weapons only appends to `acc`.
proof fn lemma_weapons_keep_prefix(s: u64, list: Seq<Coord>, acc: Seq<ItemSpawn>, n: int, end: int, rule: WeaponRule)
    ensures
        weapons_acc(s, list, acc, n, end, rule).0.len() >= acc.len(),
        forall|k: int| 0 <= k < acc.len() ==> #[trigger] weapons_acc(s, list, acc, n, end, rule).0[k] == acc[k],
    decreases end - n,
{
    if n < end {
        let w = weapon_one(s, list, rule);
        lemma_weapons_keep_prefix(w.1, w.2, acc.push(w.0), n + 1, end, rule);
        assert forall|k: int| 0 <= k < acc.len() implies #[trigger] weapons_acc(s, list, acc, n, end, rule).0[k] == acc[k] by {
            assert(acc.push(w.0)[k] == acc[k]);
        }
    }
}

/// Health of a freshly spawned monster.
pub const MONSTER_HEALTH: i32 = 10;

/// Base sight of a freshly spawned monster.
pub const MONSTER_SIGHT: u32 = 6;

/// A monster of archetype `kind` at `pos`: blocking, baseline attributes.
pub fn new_monster(kind: MonsterKind, aggro: bool, pos: Coord) -> (r: Actor)
    ensures
        r.entity.position == pos,
        !r.entity.is_player,
        r.entity.blocking,
        r.kind == WorldEntityKind::NPC,
        r.monster == Some(Monster { kind, aggro }),
        r.entity.name@ == monster_name(kind),
        r.entity.sprite_index == monster_sprite(kind),
        r.hitpoints == MONSTER_HEALTH,
        r.sight == MONSTER_SIGHT,
        r.character == (Character { strength: 3, arcane: 3, intelligence: 3, wisdom: 3, willpower: 3, agility: 3 }),
        r.rendered == pos,
        r.visibility == EntityVisibility::Hidden,
        r.pending@.len() == 0,
        r.item is None,
        !r.carried,
        r.last_seen is None,
{
    let mut a = match kind {
        MonsterKind::Orc => new_actor("Orc", pos, sprites::orc().index(), true, WorldEntityKind::NPC),
        MonsterKind::Goblin => new_actor("Goblin", pos, sprites::goblin().index(), true, WorldEntityKind::NPC),
        MonsterKind::Bat => new_actor("Bat", pos, sprites::bat().index(), true, WorldEntityKind::NPC),
        MonsterKind::Acolyte => new_actor("Acolyte", pos, sprites::evoker().index(), true, WorldEntityKind::NPC),
        MonsterKind::Thaumaturge => new_actor("Thaumaturge", pos, sprites::thaumaturge().index(), true, WorldEntityKind::NPC),
        MonsterKind::Healer => new_actor("Healer", pos, sprites::healer().index(), true, WorldEntityKind::NPC),
    };
    a.monster = Some(Monster { kind, aggro });
    a.hitpoints = MONSTER_HEALTH;
    a.sight = MONSTER_SIGHT;
    a
}

/// Whether `a` is a monster.
pub open spec fn is_monster(a: Actor) -> bool {
    a.monster is Some && !a.entity.is_player
}

/// A row of the monster roster: archetype, first counter value, the range
/// the end value is drawn from, and the chance of starting aggressive (no
/// roll when absent).
#[derive(Clone, Copy, PartialEq, Eq, Structural, Debug)]
pub struct GroupRule {
    pub kind: MonsterKind,
    pub start: i32,
    pub lo: i32,
    pub hi: i32,
    pub aggro_chance: Option<u32>,
}

/// A monster to spawn and where.
#[derive(Clone, Copy, PartialEq, Eq, Structural, Debug)]
pub struct Spawn {
    pub monster: Monster,
    pub position: Coord,
}

/// The cell `pop_or_origin` takes from `list`, and the list left.
pub open spec fn pop_spec(list: Seq<Coord>) -> (Coord, Seq<Coord>) {
    if list.len() == 0 {
        (origin(), list)
    } else {
        (list.last(), list.drop_last())
    }
}

/// The spawns of a group for counter values `n` up to `end`, from random
/// state `s` and candidate list `list`; with the random state and list left.
pub open spec fn group_from(s: u64, list: Seq<Coord>, rule: GroupRule, n: int, end: int) -> (Seq<Spawn>, u64, Seq<Coord>)
    decreases end - n,
{
    if n >= end {
        (Seq::empty(), s, list)
    } else {
        let aggro = match rule.aggro_chance {
            Some(p) => gen_value(s, 0, 100) < p,
            None => false,
        };
        let s1 = match rule.aggro_chance {
            Some(_) => next_state(s),
            None => s,
        };
        let (pos, rest_list) = pop_spec(list);
        let rest = group_from(s1, rest_list, rule, n + 1, end);
        (seq![Spawn { monster: Monster { kind: rule.kind, aggro }, position: pos }] + rest.0, rest.1, rest.2)
    }
}

/// The spawns of the groups `rules`, in order: each draws its end value,
/// then spawns from its start.
pub open spec fn groups_from(s: u64, list: Seq<Coord>, rules: Seq<GroupRule>) -> (Seq<Spawn>, u64, Seq<Coord>)
    decreases rules.len(),
{
    if rules.len() == 0 {
        (Seq::empty(), s, list)
    } else {
        let r = rules[0];
        let g = group_from(next_state(s), list, r, r.start as int, gen_value(s, r.lo, r.hi) as int);
        let rest = groups_from(g.1, g.2, rules.subrange(1, rules.len() as int));
        (g.0 + rest.0, rest.1, rest.2)
    }
}

/// The monster roster of a depth.
#[verifier::opaque]
pub open spec fn roster_table(depth: u32) -> Seq<GroupRule> {
    if depth == 1 {
        seq![
            GroupRule { kind: MonsterKind::Orc, start: 2, lo: 3, hi: 5, aggro_chance: Some(20u32) },
            GroupRule { kind: MonsterKind::Goblin, start: 3, lo: 6, hi: 10, aggro_chance: None },
            GroupRule { kind: MonsterKind::Bat, start: 0, lo: 0, hi: 5, aggro_chance: None },
        ]
    } else if depth == 2 {
        seq![
            GroupRule { kind: MonsterKind::Orc, start: 2, lo: 2, hi: 5, aggro_chance: Some(20u32) },
            GroupRule { kind: MonsterKind::Goblin, start: 2, lo: 3, hi: 10, aggro_chance: None },
            GroupRule { kind: MonsterKind::Bat, start: 0, lo: 2, hi: 6, aggro_chance: None },
        ]
    } else if depth == 3 {
        seq![
            GroupRule { kind: MonsterKind::Acolyte, start: 3, lo: 3, hi: 10, aggro_chance: None },
            GroupRule { kind: MonsterKind::Goblin, start: 2, lo: 2, hi: 6, aggro_chance: None },
            GroupRule { kind: MonsterKind::Bat, start: 0, lo: 0, hi: 3, aggro_chance: None },
        ]
    } else if depth == 4 {
        seq![
            GroupRule { kind: MonsterKind::Acolyte, start: 2, lo: 4, hi: 6, aggro_chance: None },
            GroupRule { kind: MonsterKind::Thaumaturge, start: 1, lo: 1, hi: 4, aggro_chance: None },
            GroupRule { kind: MonsterKind::Orc, start: 1, lo: 1, hi: 2, aggro_chance: Some(70u32) },
            GroupRule { kind: MonsterKind::Goblin, start: 1, lo: 1, hi: 6, aggro_chance: None },
        ]
    } else if depth == 5 {
        seq![
            GroupRule { kind: MonsterKind::Bat, start: 5, lo: 5, hi: 9, aggro_chance: None },
            GroupRule { kind: MonsterKind::Goblin, start: 5, lo: 5, hi: 9, aggro_chance: None },
            GroupRule { kind: MonsterKind::Acolyte, start: 1, lo: 3, hi: 5, aggro_chance: None },
            GroupRule { kind: MonsterKind::Thaumaturge, start: 1, lo: 3, hi: 4, aggro_chance: None },
        ]
    } else {
        Seq::empty()
    }
}

/// The roster of `depth` as spawns, random state and list left; depth 5
/// adds one healer on the next candidate, with no draw.
pub open spec fn roster_from(s: u64, list: Seq<Coord>, depth: u32) -> (Seq<Spawn>, u64, Seq<Coord>) {
    let g = groups_from(s, list, roster_table(depth));
    if depth == 5 {
        let (pos, rest) = pop_spec(g.2);
        (g.0.push(Spawn { monster: Monster { kind: MonsterKind::Healer, aggro: false }, position: pos }), g.1, rest)
    } else {
        g
    }
}

/// The actors appended after position `base` are exactly the monsters of
/// `spawns`, in order.
pub open spec fn spawned_as(actors: Seq<Actor>, base: int, spawns: Seq<Spawn>) -> bool {
    &&& actors.len() == base + spawns.len()
    &&& forall|k: int| 0 <= k < spawns.len() ==> #[trigger] monster_matches(actors[base + k], spawns[k])
}

/// Actor `a` is the monster `sp`.
pub open spec fn monster_matches(a: Actor, sp: Spawn) -> bool {
    &&& a.monster == Some(sp.monster)
    &&& a.entity.position == sp.position
    &&& a.entity.name@ == monster_name(sp.monster.kind)
    &&& a.entity.sprite_index == monster_sprite(sp.monster.kind)
    &&& a.entity.blocking
    &&& a.hitpoints == MONSTER_HEALTH
}

/// The sprite index of a monster archetype.
pub open spec fn monster_sprite(kind: MonsterKind) -> usize {
    match kind {
        MonsterKind::Orc => 124,
        MonsterKind::Goblin => 123,
        MonsterKind::Bat => 418,
        MonsterKind::Acolyte => 24,
        MonsterKind::Thaumaturge => 122,
        MonsterKind::Healer => 75,
    }
}

/// The name of a monster archetype.
pub open spec fn monster_name(kind: MonsterKind) -> Seq<char> {
    match kind {
        MonsterKind::Orc => "Orc"@,
        MonsterKind::Goblin => "Goblin"@,
        MonsterKind::Bat => "Bat"@,
        MonsterKind::Acolyte => "Acolyte"@,
        MonsterKind::Thaumaturge => "Thaumaturge"@,
        MonsterKind::Healer => "Healer"@,
    }
}

/// The roster rows of `depth`.
fn roster_rules(depth: u32) -> (r: Vec<GroupRule>)
    ensures
        r@ == roster_table(depth),
{
    let r = if depth == 1 {
        vec![
            GroupRule { kind: MonsterKind::Orc, start: 2, lo: 3, hi: 5, aggro_chance: Some(20) },
            GroupRule { kind: MonsterKind::Goblin, start: 3, lo: 6, hi: 10, aggro_chance: None },
            GroupRule { kind: MonsterKind::Bat, start: 0, lo: 0, hi: 5, aggro_chance: None },
        ]
    } else if depth == 2 {
        vec![
            GroupRule { kind: MonsterKind::Orc, start: 2, lo: 2, hi: 5, aggro_chance: Some(20) },
            GroupRule { kind: MonsterKind::Goblin, start: 2, lo: 3, hi: 10, aggro_chance: None },
            GroupRule { kind: MonsterKind::Bat, start: 0, lo: 2, hi: 6, aggro_chance: None },
        ]
    } else if depth == 3 {
        vec![
            GroupRule { kind: MonsterKind::Acolyte, start: 3, lo: 3, hi: 10, aggro_chance: None },
            GroupRule { kind: MonsterKind::Goblin, start: 2, lo: 2, hi: 6, aggro_chance: None },
            GroupRule { kind: MonsterKind::Bat, start: 0, lo: 0, hi: 3, aggro_chance: None },
        ]
    } else if depth == 4 {
        vec![
            GroupRule { kind: MonsterKind::Acolyte, start: 2, lo: 4, hi: 6, aggro_chance: None },
            GroupRule { kind: MonsterKind::Thaumaturge, start: 1, lo: 1, hi: 4, aggro_chance: None },
            GroupRule { kind: MonsterKind::Orc, start: 1, lo: 1, hi: 2, aggro_chance: Some(70) },
            GroupRule { kind: MonsterKind::Goblin, start: 1, lo: 1, hi: 6, aggro_chance: None },
        ]
    } else if depth == 5 {
        vec![
            GroupRule { kind: MonsterKind::Bat, start: 5, lo: 5, hi: 9, aggro_chance: None },
            GroupRule { kind: MonsterKind::Goblin, start: 5, lo: 5, hi: 9, aggro_chance: None },
            GroupRule { kind: MonsterKind::Acolyte, start: 1, lo: 3, hi: 5, aggro_chance: None },
            GroupRule { kind: MonsterKind::Thaumaturge, start: 1, lo: 3, hi: 4, aggro_chance: None },
        ]
    } else {
        Vec::new()
    };
    proof {
        reveal(roster_table);
    }
    assert(r@ =~= roster_table(depth));
    r
}

/// Spawns one roster group: draws an end value in `[lo, hi)` and spawns one
/// monster for each integer from `start` up to it; for each, when an
/// aggression chance is given, first rolls whether it starts aggressive.
fn spawn_group(world: &WorldData, actors: &mut Vec<Actor>, rng: &mut Random, list: &mut Vec<Coord>, rule: GroupRule)
    requires
        all_placeable(*world, old(list)@),
    ensures
        all_placeable(*world, final(list)@),
        appended_ok(*world, old(actors)@, final(actors)@),
        forall|k: int| old(actors)@.len() <= k < final(actors)@.len() ==> is_monster(#[trigger] final(actors)@[k]),
        ({
            let g = group_from(next_state(old(rng)@), old(list)@, rule, rule.start as int, gen_value(old(rng)@, rule.lo, rule.hi) as int);
            spawned_as(final(actors)@, old(actors)@.len() as int, g.0) && final(rng)@ == g.1 && final(list)@ == g.2
        }),
{
    let end = rng.gen(rule.lo, rule.hi);
    let ghost a0 = actors@;
    let ghost target = group_from(rng@, list@, rule, rule.start as int, end as int);
    let mut n: i32 = rule.start;
    while n < end
        invariant
            all_placeable(*world, list@),
            appended_ok(*world, a0, actors@),
            forall|k: int| a0.len() <= k < actors@.len() ==> is_monster(#[trigger] actors@[k]),
            n <= end || n == rule.start,
            ({
                let g = group_from(rng@, list@, rule, n as int, end as int);
                &&& actors@.len() >= a0.len()
                &&& spawned_as(actors@, a0.len() as int, target.0.subrange(0, actors@.len() - a0.len()))
                &&& target.0 == target.0.subrange(0, actors@.len() - a0.len()) + g.0
                &&& g.1 == target.1
                &&& g.2 == target.2
            }),
        decreases end - n,
    {
        let ghost g0 = group_from(rng@, list@, rule, n as int, end as int);
        let aggro = match rule.aggro_chance {
            Some(p) => rng.percent(p),
            None => false,
        };
        let pos = pop_or_origin(list);
        actors.push(new_monster(rule.kind, aggro, pos));
        proof {
            let g1 = group_from(rng@, list@, rule, n + 1, end as int);
            let done = (actors@.len() - 1 - a0.len()) as int;
            assert(g0.0 == seq![Spawn { monster: Monster { kind: rule.kind, aggro }, position: pos }] + g1.0);
            assert(target.0.subrange(0, done + 1) =~= target.0.subrange(0, done).push(g0.0[0]));
            assert(target.0 =~= target.0.subrange(0, done + 1) + g1.0);
        }
        n = n + 1;
    }
    proof {
        let g = group_from(rng@, list@, rule, n as int, end as int);
        assert(g.0.len() == 0);
        assert(target.0.subrange(0, actors@.len() - a0.len()) =~= target.0);
    }
}

/// Spawns the groups `rules`, in order.
fn spawn_groups(world: &WorldData, actors: &mut Vec<Actor>, rng: &mut Random, list: &mut Vec<Coord>, rules: &Vec<GroupRule>)
    requires
        all_placeable(*world, old(list)@),
    ensures
        all_placeable(*world, final(list)@),
        appended_ok(*world, old(actors)@, final(actors)@),
        forall|k: int| old(actors)@.len() <= k < final(actors)@.len() ==> is_monster(#[trigger] final(actors)@[k]),
        ({
            let r = groups_from(old(rng)@, old(list)@, rules@);
            spawned_as(final(actors)@, old(actors)@.len() as int, r.0) && final(rng)@ == r.1 && final(list)@ == r.2
        }),
{
    let ghost a0 = actors@;
    let ghost target = groups_from(rng@, list@, rules@);
    let mut i: usize = 0;
    assert(rules@.subrange(0, rules@.len() as int) =~= rules@);
    while i < rules.len()
        invariant
            i <= rules@.len(),
            all_placeable(*world, list@),
            appended_ok(*world, a0, actors@),
            forall|k: int| a0.len() <= k < actors@.len() ==> is_monster(#[trigger] actors@[k]),
            ({
                let g = groups_from(rng@, list@, rules@.subrange(i as int, rules@.len() as int));
                &&& actors@.len() >= a0.len()
                &&& spawned_as(actors@, a0.len() as int, target.0.subrange(0, actors@.len() - a0.len()))
                &&& target.0 == target.0.subrange(0, actors@.len() - a0.len()) + g.0
                &&& g.1 == target.1
                &&& g.2 == target.2
            }),
        decreases rules@.len() - i,
    {
        let ghost rest = rules@.subrange(i as int, rules@.len() as int);
        let ghost before = actors@;
        let rule = rules[i];
        let ghost g0 = groups_from(rng@, list@, rest);
        let ghost gr = group_from(next_state(rng@), list@, rule, rule.start as int, gen_value(rng@, rule.lo, rule.hi) as int);
        proof {
            assert(rest[0] == rule);
            assert(rest.subrange(1, rest.len() as int) =~= rules@.subrange(i + 1, rules@.len() as int));
        }
        spawn_group(world, actors, rng, list, rule);
        proof {
            let g1 = groups_from(rng@, list@, rules@.subrange(i + 1, rules@.len() as int));
            let done = before.len() - a0.len();
            assert(g0.0 == gr.0 + g1.0);
            assert(target.0.subrange(0, done + gr.0.len()) =~= target.0.subrange(0, done) + gr.0);
            assert(target.0 =~= target.0.subrange(0, done + gr.0.len()) + g1.0);
            assert forall|k: int| 0 <= k < done + gr.0.len() implies #[trigger] monster_matches(
                actors@[a0.len() + k],
                target.0.subrange(0, done + gr.0.len())[k],
            ) by {
                if k < done {
                    assert(actors@[a0.len() + k] == before[a0.len() + k]);
                    assert(monster_matches(before[a0.len() + k], target.0.subrange(0, done)[k]));
                } else {
                    assert(actors@[before.len() + (k - done)] == actors@[a0.len() + k]);
                    assert(monster_matches(actors@[before.len() + (k - done)], gr.0[k - done]));
                }
            }
        }
        i = i + 1;
    }
    proof {
        assert(rules@.subrange(i as int, rules@.len() as int) =~= Seq::<GroupRule>::empty());
        assert(target.0.subrange(0, actors@.len() - a0.len()) =~= target.0);
    }
}

/// Spawns the monster roster of `depth` on interior candidates, group by
/// group as `roster_table` lists them; depth 5 adds one healer. Deeper
/// levels have no monsters.
pub fn place_monsters(world: &WorldData, actors: &mut Vec<Actor>, rng: &mut Random, list: &mut Vec<Coord>, depth: u32)
    requires
        all_placeable(*world, old(list)@),
    ensures
        all_placeable(*world, final(list)@),
        appended_ok(*world, old(actors)@, final(actors)@),
        forall|k: int| old(actors)@.len() <= k < final(actors)@.len() ==> is_monster(#[trigger] final(actors)@[k]),
        ({
            let r = roster_from(old(rng)@, old(list)@, depth);
            spawned_as(final(actors)@, old(actors)@.len() as int, r.0) && final(rng)@ == r.1 && final(list)@ == r.2
        }),
{
    let rules = roster_rules(depth);
    spawn_groups(world, actors, rng, list, &rules);
    let ghost a0 = actors@;
    let ghost target = groups_from(old(rng)@, old(list)@, rules@);
    if depth == 5 {
        let ghost before = actors@;
        let pos = pop_or_origin(list);
        actors.push(new_monster(MonsterKind::Healer, false, pos));
        proof {
            let base = old(actors)@.len() as int;
            let healer = Spawn { monster: Monster { kind: MonsterKind::Healer, aggro: false }, position: pos };
            assert forall|k: int| 0 <= k < target.0.len() + 1 implies #[trigger] monster_matches(
                actors@[base + k],
                target.0.push(healer)[k],
            ) by {
                if k < target.0.len() {
                    assert(actors@[base + k] == before[base + k]);
                    assert(monster_matches(before[base + k], target.0[k]));
                }
            }
        }
    }
}

} // verus!
