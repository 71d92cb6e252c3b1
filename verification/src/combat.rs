//! Resolving a card taken from the room: potions, weapons and monsters.

use crate::cards::{Card, Rank, Suit};
use crate::game::{Game, GameEvent, GamePhase, UseMode};
use crate::player::WeaponState;
use crate::text::{
    barehand_message, equip_message, log_line, log_message, potion_message, strike_clean_message,
    strike_hurt_message,
};
use vstd::prelude::*;

verus! {

impl Game {
    /// Drinks a potion: the first of a turn heals, any further one is
    /// wasted, and the card is discarded either way.
    pub fn drink_potion(&mut self, card: Card)
        requires
            old(self)@.in_bounds(),
        ensures
            final(self)@ == old(self)@.drink(card),
            final(self)@.in_bounds(),
    {
        let val = card.monster_value();
        if !self.potion_used_this_turn {
            let before = self.player.hp;
            let healed = before + val as i32;
            self.player.hp = if healed < self.player.max_hp {
                healed
            } else {
                self.player.max_hp
            };
            log_message(&mut self.log, potion_message(val, before, self.player.hp));
            self.last_card_potion_value = Some(val);
            self.history.push(
                GameEvent::Potion { value: val, hp_before: before, hp_after: self.player.hp },
            );
        } else {
            log_line(&mut self.log, "You already used a potion this turn; this one is discarded.");
            self.history.push(GameEvent::PotionDiscarded { value: val });
        }
        self.potion_used_this_turn = true;
        self.discard.push(card);
    }

    /// Equips a weapon. The weapon in hand, if any, is discarded together
    /// with the monsters stacked on it.
    pub fn equip_weapon(&mut self, card: Card)
        ensures
            final(self)@ == old(self)@.equip(card),
            old(self)@.in_bounds() ==> final(self)@.in_bounds(),
    {
        if let Some(mut w) = self.player.weapon.take() {
            self.discard.push(Card::new(Suit::Diamonds, Rank::new(w.value)));
            self.discard.append(&mut w.stack);
        }
        let val = card.monster_value();
        self.player.weapon = Some(WeaponState::new(val));
        log_message(&mut self.log, equip_message(val));
        self.history.push(GameEvent::Weapon { value: val });
        self.last_card_potion_value = None;
    }

    /// Fights a monster, with the weapon if it can be used on it and the
    /// player does not insist on bare hands.
    pub fn fight_monster(&mut self, card: Card, mode: UseMode)
        requires
            old(self)@.in_bounds(),
            old(self).player.hp >= 1,
        ensures
            final(self)@ == old(self)@.fight(card, mode),
            final(self)@.in_bounds(),
    {
        let mval = card.monster_value();
        let mut with_weapon: Option<u8> = None;
        if let Some(w) = &self.player.weapon {
            if w.can_use_on(mval) {
                match mode {
                    UseMode::Default | UseMode::Weapon => {
                        with_weapon = Some(w.value);
                    },
                    UseMode::Barehand => {},
                }
            }
        }
        let before = self.player.hp;
        match with_weapon {
            Some(power) => {
                let dmg: i32 = if mval > power {
                    (mval - power) as i32
                } else {
                    0
                };
                if dmg > 0 {
                    self.player.hp = before - dmg;
                    log_message(
                        &mut self.log,
                        strike_hurt_message(power, mval, dmg, before, self.player.hp),
                    );
                } else {
                    log_message(&mut self.log, strike_clean_message(power, mval));
                }
                self.history.push(
                    GameEvent::Fight {
                        monster: mval,
                        with_weapon: Some(power),
                        damage_taken: dmg as u8,
                    },
                );
                let w = self.player.weapon.as_mut().unwrap();
                w.stack.push(card);
                w.last_monster = Some(mval);
            },
            None => {
                self.player.hp = before - mval as i32;
                log_message(&mut self.log, barehand_message(mval, before, self.player.hp));
                self.discard.push(card);
                self.history.push(
                    GameEvent::Fight { monster: mval, with_weapon: None, damage_taken: mval },
                );
            },
        }
        self.last_card_potion_value = None;
    }

    /// What taking the selected card the default way would cost the player.
    pub fn projected_damage(&self) -> (d: i32)
        requires
            self.selected < 4,
        ensures
            d == self@.projected_damage(),
            0 <= d <= 14,
    {
        if self.phase != GamePhase::Running {
            return 0;
        }
        match self.room[self.selected] {
            Some(card) => {
                if !card.is_monster() {
                    return 0;
                }
                let mval = card.monster_value();
                match &self.player.weapon {
                    Some(w) => if w.can_use_on(mval) {
                        if mval > w.value {
                            (mval - w.value) as i32
                        } else {
                            0
                        }
                    } else {
                        mval as i32
                    },
                    None => mval as i32,
                }
            },
            None => 0,
        }
    }

    /// Lets a card taken from the room take effect.
    pub fn resolve_card(&mut self, card: Card, mode: UseMode)
        requires
            old(self)@.in_bounds(),
            old(self).player.hp >= 1,
        ensures
            final(self)@ == old(self)@.resolve(card, mode),
            final(self)@.in_bounds(),
    {
        match card.suit {
            Suit::Hearts => self.drink_potion(card),
            Suit::Diamonds => self.equip_weapon(card),
            Suit::Clubs | Suit::Spades => self.fight_monster(card, mode),
        }
    }
}

} // verus!
