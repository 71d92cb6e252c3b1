//! The player: hit points and the weapon in hand.

use crate::cards::Card;
use vstd::prelude::*;

verus! {

/// Hit points a run starts with, and the most a potion can restore to.
pub const MAX_HP: i32 = 20;

/// The strongest blow a single card can deal: an ace.
pub const MAX_MONSTER: u8 = 14;

/// The equipped weapon and what it has killed.
#[derive(Debug, Clone)]
pub struct WeaponState {
    /// Power of the weapon.
    pub value: u8,
    /// Value of the monster last fought with it; `None` until its first fight.
    pub last_monster: Option<u8>,
    /// The monsters fought with it, oldest first.
    pub stack: Vec<Card>,
}

/// A weapon as a mathematical value.
pub ghost struct WeaponView {
    pub value: u8,
    pub last_monster: Option<u8>,
    pub stack: Seq<Card>,
}

impl View for WeaponState {
    type V = WeaponView;

    open spec fn view(&self) -> WeaponView {
        WeaponView { value: self.value, last_monster: self.last_monster, stack: self.stack@ }
    }
}

impl WeaponView {
    /// A weapon that has not fought yet.
    pub open spec fn fresh(value: u8) -> WeaponView {
        WeaponView { value, last_monster: None, stack: Seq::empty() }
    }

    /// A weapon serves against a monster unless it has already fought a
    /// weaker one.
    pub open spec fn can_use_on(self, monster_value: u8) -> bool {
        match self.last_monster {
            None => true,
            Some(prev) => monster_value <= prev,
        }
    }

    /// What gets through the weapon when it meets a monster.
    pub open spec fn damage_from(self, monster_value: u8) -> int {
        if monster_value > self.value {
            monster_value - self.value
        } else {
            0
        }
    }

    /// The weapon after it has fought `card`.
    pub open spec fn after_kill(self, card: Card) -> WeaponView {
        WeaponView {
            value: self.value,
            last_monster: Some(card.monster_value()),
            stack: self.stack.push(card),
        }
    }

    /// The kills never rise: no monster on the stack is stronger than one
    /// that was fought before it.
    pub open spec fn kills_never_rise(self) -> bool {
        forall|i: int, j: int|
            0 <= i <= j < self.stack.len() ==> self.stack[i].monster_value()
                >= self.stack[j].monster_value()
    }

    /// The stack is in order and `last_monster` is the value of its newest
    /// card.
    pub open spec fn wf(self) -> bool {
        &&& self.kills_never_rise()
        &&& self.last_monster == if self.stack.len() == 0 {
            None
        } else {
            Some(self.stack.last().monster_value())
        }
    }
}

impl WeaponState {
    /// A weapon of the given power that has not fought yet.
    pub fn new(value: u8) -> (w: WeaponState)
        ensures
            w@ == WeaponView::fresh(value),
    {
        WeaponState { value, last_monster: None, stack: Vec::new() }
    }

    /// Whether the weapon can be used on a monster of the given value: it
    /// has not fought yet, or the monster is no stronger than the last one
    /// it fought.
    pub fn can_use_on(&self, monster_value: u8) -> (b: bool)
        ensures
            b == self@.can_use_on(monster_value),
    {
        match self.last_monster {
            None => true,
            Some(prev) => monster_value <= prev,
        }
    }

    /// Tests whether the weapon is well formed.
    pub fn is_well_formed(&self) -> (b: bool)
        ensures
            b == self@.wf(),
    {
        let n = self.stack.len();
        if n == 0 {
            return self.last_monster.is_none();
        }
        let mut k: usize = 1;
        while k < n
            invariant
                1 <= k <= n,
                n == self.stack@.len(),
                forall|i: int, j: int|
                    0 <= i <= j < k ==> self.stack@[i].monster_value()
                        >= self.stack@[j].monster_value(),
            decreases n - k,
        {
            if self.stack[k - 1].monster_value() < self.stack[k].monster_value() {
                assert(!(self.stack@[k - 1].monster_value() >= self.stack@[k as int].monster_value()));
                return false;
            }
            assert forall|i: int, j: int| 0 <= i <= j < k + 1 implies self.stack@[i].monster_value()
                >= self.stack@[j].monster_value() by {
                if j == k && i < k {
                    assert(self.stack@[i].monster_value() >= self.stack@[k - 1].monster_value());
                }
            }
            k = k + 1;
        }
        match self.last_monster {
            Some(v) => v == self.stack[n - 1].monster_value(),
            None => false,
        }
    }
}

/// The player: health, its cap, and the weapon in hand.
#[derive(Debug, Clone)]
pub struct Player {
    pub hp: i32,
    pub max_hp: i32,
    pub weapon: Option<WeaponState>,
}

/// A player as a mathematical value.
pub ghost struct PlayerView {
    pub hp: int,
    pub max_hp: int,
    pub weapon: Option<WeaponView>,
}

/// The weapon in hand, if any, as a mathematical value.
pub open spec fn weapon_view(weapon: Option<WeaponState>) -> Option<WeaponView> {
    match weapon {
        Some(w) => Some(w@),
        None => None,
    }
}

impl View for Player {
    type V = PlayerView;

    open spec fn view(&self) -> PlayerView {
        PlayerView {
            hp: self.hp as int,
            max_hp: self.max_hp as int,
            weapon: weapon_view(self.weapon),
        }
    }
}

impl PlayerView {
    /// A player at full health with empty hands.
    pub open spec fn fresh() -> PlayerView {
        PlayerView { hp: MAX_HP as int, max_hp: MAX_HP as int, weapon: None }
    }

    /// The health cap is that of the ruleset, health is at most the cap and
    /// no lower than one ace below a last hit point, and the weapon, if any,
    /// is well formed.
    pub open spec fn wf(self) -> bool {
        &&& self.max_hp == MAX_HP
        &&& -(MAX_MONSTER as int) < self.hp <= self.max_hp
        &&& match self.weapon {
            Some(w) => w.wf(),
            None => true,
        }
    }
}

impl Player {
    /// A player at full health with empty hands.
    pub fn new() -> (p: Player)
        ensures
            p@ == PlayerView::fresh(),
    {
        Player { hp: MAX_HP, max_hp: MAX_HP, weapon: None }
    }

    /// Tests whether the player is well formed.
    pub fn is_well_formed(&self) -> (b: bool)
        ensures
            b == self@.wf(),
    {
        if self.max_hp != MAX_HP || self.hp > self.max_hp || self.hp <= -(MAX_MONSTER as i32) {
            return false;
        }
        match &self.weapon {
            Some(w) => w.is_well_formed(),
            None => true,
        }
    }
}

} // verus!
