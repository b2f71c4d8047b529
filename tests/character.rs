use svarog::character::{Character, CharacterStat};

#[test]
fn default_character_has_all_threes() {
    let c = Character::default();
    for s in [
        CharacterStat::STR,
        CharacterStat::ARC,
        CharacterStat::INT,
        CharacterStat::WIS,
        CharacterStat::WIL,
        CharacterStat::AGI,
    ] {
        assert_eq!(c.index(s), 3);
    }
}

#[test]
fn index_reads_the_named_attribute() {
    let c = Character { strength: 1, arcane: 2, intelligence: 3, wisdom: 4, willpower: 5, agility: 6 };
    assert_eq!(c.index(CharacterStat::STR), 1);
    assert_eq!(c.index(CharacterStat::ARC), 2);
    assert_eq!(c.index(CharacterStat::INT), 3);
    assert_eq!(c.index(CharacterStat::WIS), 4);
    assert_eq!(c.index(CharacterStat::WIL), 5);
    assert_eq!(c.index(CharacterStat::AGI), 6);
}

#[test]
fn cost_table_by_attribute_value() {
    let expected = [
        (i32::MIN, 200),
        (-5, 200),
        (0, 200),
        (1, 150),
        (2, 125),
        (3, 100),
        (4, 75),
        (5, 60),
        (6, 50),
        (7, 40),
        (8, 30),
        (9, 25),
        (10, 20),
        (i32::MAX, 20),
    ];
    for (v, cost) in expected {
        let c = Character { agility: v, ..Character::default() };
        assert_eq!(c.calculate_cost(CharacterStat::AGI), cost, "agility {}", v);
    }
}
