//! Character attributes and the turn cost they imply.

use vstd::prelude::*;

verus! {

/// One of the six character attributes.
#[derive(Clone, Copy, PartialEq, Eq, Structural, Debug)]
pub enum CharacterStat {
    STR,
    ARC,
    INT,
    WIS,
    WIL,
    AGI,
}

/// The attribute block of an actor.
#[derive(Clone, Copy, PartialEq, Eq, Structural, Debug)]
pub struct Character {
    pub strength: i32,
    pub arcane: i32,
    pub intelligence: i32,
    pub wisdom: i32,
    pub willpower: i32,
    pub agility: i32,
}

/// The value of one attribute.
pub open spec fn stat_of(c: Character, s: CharacterStat) -> i32 {
    match s {
        CharacterStat::STR => c.strength,
        CharacterStat::ARC => c.arcane,
        CharacterStat::INT => c.intelligence,
        CharacterStat::WIS => c.wisdom,
        CharacterStat::WIL => c.willpower,
        CharacterStat::AGI => c.agility,
    }
}

/// The energy an action costs when it is governed by an attribute of value `v`:
/// the higher the attribute, the cheaper the action.
pub open spec fn cost_of(v: i32) -> i32 {
    if v <= 0 {
        200
    } else if v == 1 {
        150
    } else if v == 2 {
        125
    } else if v == 3 {
        100
    } else if v == 4 {
        75
    } else if v == 5 {
        60
    } else if v == 6 {
        50
    } else if v == 7 {
        40
    } else if v == 8 {
        30
    } else if v == 9 {
        25
    } else {
        20
    }
}

impl Default for Character {
    /// Every attribute at the baseline value 3.
    fn default() -> (r: Character)
        ensures
            r == (Character {
                strength: 3,
                arcane: 3,
                intelligence: 3,
                wisdom: 3,
                willpower: 3,
                agility: 3,
            }),
    {
        Character { strength: 3, arcane: 3, intelligence: 3, wisdom: 3, willpower: 3, agility: 3 }
    }
}

impl Character {
    /// The value of the attribute `stat`.
    pub fn index(&self, stat: CharacterStat) -> (r: i32)
        ensures
            r == stat_of(*self, stat),
    {
        match stat {
            CharacterStat::STR => self.strength,
            CharacterStat::ARC => self.arcane,
            CharacterStat::INT => self.intelligence,
            CharacterStat::WIS => self.wisdom,
            CharacterStat::WIL => self.willpower,
            CharacterStat::AGI => self.agility,
        }
    }

    /// The energy cost of an action governed by `stat`.
    pub fn calculate_cost(&self, stat: CharacterStat) -> (r: i32)
        ensures
            r == cost_of(stat_of(*self, stat)),
    {
        let v = self.index(stat);
        if v <= 0 {
            200
        } else if v == 1 {
            150
        } else if v == 2 {
            125
        } else if v == 3 {
            100
        } else if v == 4 {
            75
        } else if v == 5 {
            60
        } else if v == 6 {
            50
        } else if v == 7 {
            40
        } else if v == 8 {
            30
        } else if v == 9 {
            25
        } else {
            20
        }
    }
}

} // verus!
