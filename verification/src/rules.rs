//! The rules of the game as mathematics: the state of a run as a value, and
//! each move as a function from one state to the next.
//!
//! The executable engine in [`crate::game`] is proved to follow these
//! functions step by step.

use crate::cards::{Card, Rank, Suit};
use crate::game::{GameEvent, GamePhase, UseMode};
use crate::leaderboard::{rank_shown, ranked, EntryView};
use crate::player::{PlayerView, WeaponView};
use crate::text::{
    avoid_line, barehand_line, death_line, default_name, equip_line, fresh_dungeon_line,
    hint_line, is_ascii_graphic, need_full_room_line, no_double_avoid_line, no_run_line,
    pick_limit_line, potion_line, strike_clean_line, strike_hurt_line, trimmed, victory_line,
    wasted_potion_line, welcome_line,
};
use vstd::prelude::*;
use vstd::utf8::encode_utf8;

verus! {

/// Cards in a freshly built deck, and so the most that deck and room can
/// hold between them.
pub const DECK_SIZE: usize = 44;

/// Cards that may be taken from one room.
pub const PICKS_PER_ROOM: u8 = 3;

/// Bytes at which a name being entered takes no further character.
pub const NAME_LIMIT: usize = 20;

/// 1 if slot `i` of the room is empty, 0 if it holds a card.
pub open spec fn gap(room: Seq<Option<Card>>, i: int) -> int {
    if room[i].is_none() {
        1
    } else {
        0
    }
}

/// The number of empty slots among the first `i` of the room.
pub open spec fn gaps_before(room: Seq<Option<Card>>, i: int) -> int {
    (if i > 0 {
        gap(room, 0)
    } else {
        0
    }) + (if i > 1 {
        gap(room, 1)
    } else {
        0
    }) + (if i > 2 {
        gap(room, 2)
    } else {
        0
    }) + (if i > 3 {
        gap(room, 3)
    } else {
        0
    })
}

/// The number of cards that lie face up in the room.
pub open spec fn occupied(room: Seq<Option<Card>>) -> int {
    4 - gaps_before(room, 4)
}

/// The first slot that holds a card.
pub open spec fn first_occupied(room: Seq<Option<Card>>) -> Option<int> {
    if room[0].is_some() {
        Some(0)
    } else if room[1].is_some() {
        Some(1)
    } else if room[2].is_some() {
        Some(2)
    } else if room[3].is_some() {
        Some(3)
    } else {
        None
    }
}

/// A room with no card in it.
pub open spec fn empty_room() -> Seq<Option<Card>> {
    seq![None, None, None, None]
}

/// Slot `i` after a refill: a card that lay there stays; an empty slot takes
/// the next card from the top of the deck, the empty slots being served in
/// slot order for as long as the deck lasts.
pub open spec fn refilled_slot(room: Seq<Option<Card>>, deck: Seq<Card>, i: int) -> Option<Card> {
    if room[i].is_some() {
        room[i]
    } else if gaps_before(room, i) < deck.len() {
        Some(deck[deck.len() - 1 - gaps_before(room, i)])
    } else {
        None
    }
}

/// The room after a refill from `deck`.
pub open spec fn refilled_room(room: Seq<Option<Card>>, deck: Seq<Card>) -> Seq<Option<Card>> {
    Seq::new(4, |i: int| refilled_slot(room, deck, i))
}

/// The number of cards that the first `i` slots draw in a refill.
pub open spec fn drawn_before(room: Seq<Option<Card>>, deck: Seq<Card>, i: int) -> int {
    if gaps_before(room, i) <= deck.len() {
        gaps_before(room, i)
    } else {
        deck.len() as int
    }
}

/// What is left of the deck after the room has been refilled from it.
pub open spec fn deck_after_refill(room: Seq<Option<Card>>, deck: Seq<Card>) -> Seq<Card> {
    deck.take(deck.len() - drawn_before(room, deck, 4))
}

/// The threat of what lies in one slot.
pub open spec fn slot_threat(slot: Option<Card>) -> int {
    match slot {
        Some(c) => c.threat(),
        None => 0,
    }
}

/// The summed values of the monsters in the room.
pub open spec fn room_threat(room: Seq<Option<Card>>) -> int {
    slot_threat(room[0]) + slot_threat(room[1]) + slot_threat(room[2]) + slot_threat(room[3])
}

/// The summed values of the monsters in a pile.
pub open spec fn pile_threat(cards: Seq<Card>) -> int
    decreases cards.len(),
{
    if cards.len() == 0 {
        0
    } else {
        pile_threat(cards.drop_last()) + cards.last().threat()
    }
}

/// The card that stands for an equipped weapon of the given power when the
/// weapon is thrown away.
pub open spec fn weapon_card(value: u8) -> Card {
    Card { suit: Suit::Diamonds, rank: Rank(value) }
}

/// The state of a game as a mathematical value.
pub ghost struct GameView {
    pub phase: GamePhase,
    pub player: PlayerView,
    pub deck: Seq<Card>,
    pub room: Seq<Option<Card>>,
    pub selected: int,
    pub choices_this_turn: int,
    pub avoided_last_turn: bool,
    pub potion_used_this_turn: bool,
    pub discard: Seq<Card>,
    pub log: Seq<Seq<char>>,
    pub show_help: bool,
    pub score: Option<int>,
    pub last_card_potion_value: Option<u8>,
    pub menu_selected: int,
    pub name_input: Seq<char>,
    pub player_name: Seq<char>,
    pub history: Seq<GameEvent>,
    pub leaderboard: Seq<EntryView>,
    pub new_rank_pos: Option<int>,
    pub room_number: int,
    pub game_over_scroll: int,
}

impl GameView {
    /// The room has four slots and the cursor points at one of them, the
    /// player is well formed, no more picks are counted than a room allows,
    /// and deck and room together hold no more cards than a full deck.
    pub open spec fn in_bounds(self) -> bool {
        &&& self.room.len() == 4
        &&& 0 <= self.selected < 4
        &&& self.player.wf()
        &&& 0 <= self.choices_this_turn <= PICKS_PER_ROOM
        &&& self.cards_ahead() <= DECK_SIZE
    }

    /// The number of cards in the deck and the room together.
    pub open spec fn cards_ahead(self) -> int {
        self.deck.len() + occupied(self.room)
    }

    /// A bound on the number of rooms that can still begin. A room that
    /// begins after a turn of play has cost at least one card; between two
    /// such rooms one room may be avoided, and a turn that stands at the
    /// pick limit may be ended without a card.
    pub open spec fn rooms_ahead(self) -> int {
        2 * self.cards_ahead() + (if self.avoided_last_turn {
            0int
        } else {
            1int
        }) + (if self.choices_this_turn >= PICKS_PER_ROOM {
            2int
        } else {
            0int
        })
    }

    /// The state is one that play can be in: it is within bounds, while the
    /// run lasts the player is alive, and the room counter can take every
    /// room that may still begin.
    pub open spec fn wf(self) -> bool {
        &&& self.in_bounds()
        &&& (self.phase == GamePhase::Running ==> self.player.hp >= 1)
        &&& 0 <= self.room_number
        &&& self.room_number + self.rooms_ahead() <= u32::MAX
    }

    /// The number of cards that lie face up in the room.
    pub open spec fn visible(self) -> int {
        occupied(self.room)
    }

    // ----- scoring -----

    /// The score list takes up the outcome of the run: an entry with the
    /// player's name, the score and the time is added, the list is ranked
    /// anew, and the rank of the run is the place of the first entry that
    /// shows its name, score and outcome, the first place being 1.
    pub open spec fn submit(self, won: bool, ts: u64) -> GameView {
        let score = match self.score {
            Some(s) => s,
            None => 0,
        };
        let board = ranked(
            self.leaderboard.push(EntryView { name: self.player_name, score, won, ts }),
        );
        GameView {
            leaderboard: board,
            new_rank_pos: rank_shown(board, self.player_name, score, won),
            ..self
        }
    }

    /// The score of a cleared dungeon: the health that is left, and on top of
    /// it the value of the last potion if that potion was the last card
    /// resolved and health is at its cap.
    pub open spec fn victory_score(self) -> int {
        self.player.hp + match self.last_card_potion_value {
            Some(v) if self.player.hp == self.player.max_hp => v as int,
            _ => 0,
        }
    }

    /// The score of a lost run: the health that is left, which is not
    /// positive, less the value of every monster still in the deck or the
    /// room.
    pub open spec fn death_score(self) -> int {
        self.player.hp - pile_threat(self.deck) - room_threat(self.room)
    }

    /// The state of a run that is over and scored, before it is entered in
    /// the score list.
    pub open spec fn ended(self, score: int, line: Seq<char>) -> GameView {
        GameView {
            phase: GamePhase::GameOver,
            score: Some(score),
            log: self.log.push(line),
            game_over_scroll: 0,
            ..self
        }
    }

    /// The room as a refill leaves it, with the cursor on a card if the
    /// room holds one.
    pub open spec fn filled(self) -> GameView {
        let room = refilled_room(self.room, self.deck);
        GameView {
            room,
            deck: deck_after_refill(self.room, self.deck),
            selected: match first_occupied(room) {
                Some(i) if room[self.selected].is_none() => i,
                _ => self.selected,
            },
            ..self
        }
    }

    /// The run ends with the given score.
    pub open spec fn finish(self, score: int, line: Seq<char>, won: bool, ts: u64) -> GameView {
        self.ended(score, line).submit(won, ts)
    }

    /// The run ends in victory.
    pub open spec fn finish_victory(self, ts: u64) -> GameView {
        self.finish(self.victory_score(), victory_line(self.victory_score()), true, ts)
    }

    /// The run ends in death.
    pub open spec fn finish_death(self, ts: u64) -> GameView {
        self.finish(self.death_score(), death_line(self.death_score()), false, ts)
    }

    // ----- the room -----

    /// Empty slots are filled from the top of the deck. If the cursor then
    /// points at an empty slot it moves to the first card. If neither deck
    /// nor room holds a card any more, the run is won.
    pub open spec fn refill(self, ts: u64) -> GameView {
        let filled = self.filled();
        if filled.deck.len() == 0 && occupied(filled.room) == 0 {
            filled.finish_victory(ts)
        } else {
            filled
        }
    }

    /// While the run lasts, the next room begins: the counter goes up and
    /// the history records the start of the room.
    pub open spec fn enter_next_room(self) -> GameView {
        if self.phase == GamePhase::Running {
            GameView {
                room_number: self.room_number + 1,
                history: self.history.push(
                    GameEvent::RoomStart { number: (self.room_number + 1) as u32 },
                ),
                ..self
            }
        } else {
            self
        }
    }

    /// The state with the counters of the turn reset.
    pub open spec fn turn_reset(self) -> GameView {
        GameView {
            avoided_last_turn: false,
            potion_used_this_turn: false,
            choices_this_turn: 0,
            ..self
        }
    }

    /// The turn ends: its counters are reset, the room is refilled and the
    /// next room begins.
    pub open spec fn end_turn(self, ts: u64) -> GameView {
        self.turn_reset().refill(ts).enter_next_room()
    }

    // ----- resolving a card -----

    /// A potion is drunk. The first of a turn heals by its value, up to the
    /// cap; any further one is wasted. Either way the card is discarded.
    pub open spec fn drink(self, card: Card) -> GameView {
        let v = card.monster_value();
        if !self.potion_used_this_turn {
            let after = if self.player.hp + v < self.player.max_hp {
                self.player.hp + v
            } else {
                self.player.max_hp
            };
            GameView {
                player: PlayerView { hp: after, ..self.player },
                log: self.log.push(potion_line(v as int, self.player.hp, after)),
                last_card_potion_value: Some(v),
                history: self.history.push(
                    GameEvent::Potion {
                        value: v,
                        hp_before: self.player.hp as i32,
                        hp_after: after as i32,
                    },
                ),
                potion_used_this_turn: true,
                discard: self.discard.push(card),
                ..self
            }
        } else {
            GameView {
                log: self.log.push(wasted_potion_line()),
                history: self.history.push(GameEvent::PotionDiscarded { value: v }),
                potion_used_this_turn: true,
                discard: self.discard.push(card),
                ..self
            }
        }
    }

    /// The discard pile once the weapon in hand, if any, has been thrown on
    /// it together with the monsters it killed.
    pub open spec fn discard_with_weapon(self) -> Seq<Card> {
        match self.player.weapon {
            Some(w) => self.discard.push(weapon_card(w.value)) + w.stack,
            None => self.discard,
        }
    }

    /// A weapon is equipped. The old one goes to the discard pile with its
    /// kills, and the new one starts without any.
    pub open spec fn equip(self, card: Card) -> GameView {
        let v = card.monster_value();
        GameView {
            player: PlayerView { weapon: Some(WeaponView::fresh(v)), ..self.player },
            discard: self.discard_with_weapon(),
            log: self.log.push(equip_line(v as int)),
            history: self.history.push(GameEvent::Weapon { value: v }),
            last_card_potion_value: None,
            ..self
        }
    }

    /// Whether a monster of the given value is fought with the weapon: there
    /// is a weapon, it can still be used on a monster of that value, and the
    /// player did not choose bare hands.
    pub open spec fn fights_with_weapon(self, monster_value: u8, mode: UseMode) -> bool {
        match self.player.weapon {
            Some(w) => w.can_use_on(monster_value) && !(mode is Barehand),
            None => false,
        }
    }

    /// A monster is fought with the weapon in hand: the player takes what
    /// the weapon does not absorb, and the monster goes on the weapon's
    /// stack and becomes its new ceiling.
    pub open spec fn fight_with_weapon(self, card: Card) -> GameView {
        let m = card.monster_value();
        let w = self.player.weapon.unwrap();
        let dmg = w.damage_from(m);
        let after = self.player.hp - dmg;
        GameView {
            player: PlayerView { hp: after, weapon: Some(w.after_kill(card)), ..self.player },
            log: self.log.push(
                if dmg > 0 {
                    strike_hurt_line(w.value as int, m as int, dmg, self.player.hp, after)
                } else {
                    strike_clean_line(w.value as int, m as int)
                },
            ),
            history: self.history.push(
                GameEvent::Fight { monster: m, with_weapon: Some(w.value), damage_taken: dmg as u8 },
            ),
            last_card_potion_value: None,
            ..self
        }
    }

    /// A monster is fought with bare hands: the player takes its full value
    /// and the monster is discarded.
    pub open spec fn fight_barehanded(self, card: Card) -> GameView {
        let m = card.monster_value();
        let after = self.player.hp - m;
        GameView {
            player: PlayerView { hp: after, ..self.player },
            log: self.log.push(barehand_line(m as int, self.player.hp, after)),
            discard: self.discard.push(card),
            history: self.history.push(
                GameEvent::Fight { monster: m, with_weapon: None, damage_taken: m },
            ),
            last_card_potion_value: None,
            ..self
        }
    }

    /// A monster is fought, with the weapon where that is possible and
    /// wanted, else with bare hands.
    pub open spec fn fight(self, card: Card, mode: UseMode) -> GameView {
        if self.fights_with_weapon(card.monster_value(), mode) {
            self.fight_with_weapon(card)
        } else {
            self.fight_barehanded(card)
        }
    }

    /// What taking the selected card the default way would cost the player:
    /// for a monster during a run, the health that the fight would take;
    /// for anything else, nothing.
    pub open spec fn projected_damage(self) -> int {
        if self.phase == GamePhase::Running {
            match self.room[self.selected] {
                Some(card) if card.is_monster() => self.player.hp - self.fight(
                    card,
                    UseMode::Default,
                ).player.hp,
                _ => 0,
            }
        } else {
            0
        }
    }

    /// A card taken from the room takes effect, by its suit.
    pub open spec fn resolve(self, card: Card, mode: UseMode) -> GameView {
        match card.suit {
            Suit::Hearts => self.drink(card),
            Suit::Diamonds => self.equip(card),
            Suit::Clubs | Suit::Spades => self.fight(card, mode),
        }
    }

    // ----- the moves -----

    /// Whether a take is cut short by the pick limit: three cards have been
    /// taken this turn and at least two still lie in the room.
    pub open spec fn pick_limit_reached(self) -> bool {
        self.choices_this_turn >= PICKS_PER_ROOM && self.visible() >= 2
    }

    /// The state with one more pick counted.
    pub open spec fn pick_counted(self) -> GameView {
        GameView { choices_this_turn: self.choices_this_turn + 1, ..self }
    }

    /// What follows the resolution of a card: death if health is gone;
    /// else the pick is counted, and the turn ends if at most one card is
    /// left in the room or three have been taken.
    pub open spec fn after_resolution(self, ts: u64) -> GameView {
        if self.player.hp <= 0 {
            self.finish_death(ts)
        } else {
            let counted = self.pick_counted();
            if counted.visible() <= 1 || counted.choices_this_turn >= PICKS_PER_ROOM {
                counted.end_turn(ts)
            } else {
                counted
            }
        }
    }

    /// The state with one more line in the log.
    pub open spec fn noted(self, line: Seq<char>) -> GameView {
        GameView { log: self.log.push(line), ..self }
    }

    /// The state with the card lifted from the selected slot.
    pub open spec fn lifted(self) -> GameView {
        GameView { room: self.room.update(self.selected, None), ..self }
    }

    /// The selected card is taken. Outside a run nothing happens but that a
    /// notice is logged. At the pick limit the turn is ended instead, with
    /// a notice. An empty slot is passed over in silence.
    pub open spec fn take(self, mode: UseMode, ts: u64) -> GameView {
        if self.phase != GamePhase::Running {
            self.noted(no_run_line())
        } else if self.pick_limit_reached() {
            self.noted(pick_limit_line()).end_turn(ts)
        } else {
            match self.room[self.selected] {
                None => self,
                Some(card) => self.lifted().resolve(card, mode).after_resolution(ts),
            }
        }
    }

    /// The deck once the four cards of a full room have been slid under it
    /// one after the other, slot 0 first.
    pub open spec fn deck_with_room_under(self) -> Seq<Card> {
        seq![
            self.room[3].unwrap(),
            self.room[2].unwrap(),
            self.room[1].unwrap(),
            self.room[0].unwrap(),
        ] + self.deck
    }

    /// Whether the room may be avoided: a run is on, the last turn was not
    /// an avoidance, and the room is full.
    pub open spec fn may_avoid(self) -> bool {
        self.phase == GamePhase::Running && !self.avoided_last_turn && self.visible() == 4
    }

    /// The state once a full room has been scooped up: its cards lie under
    /// the deck, the room is empty, the turn is marked as an avoidance and
    /// log and history record it.
    pub open spec fn scooped(self) -> GameView {
        GameView {
            deck: self.deck_with_room_under(),
            room: empty_room(),
            avoided_last_turn: true,
            potion_used_this_turn: false,
            choices_this_turn: 0,
            log: self.log.push(avoid_line()),
            history: self.history.push(GameEvent::Avoid),
            ..self
        }
    }

    /// The room is avoided: its cards go under the deck, a new room is
    /// dealt and the next room begins. Where that is not allowed, a notice
    /// is logged and nothing else changes.
    pub open spec fn avoid(self, ts: u64) -> GameView {
        if self.phase != GamePhase::Running {
            self.noted(no_run_line())
        } else if self.avoided_last_turn {
            self.noted(no_double_avoid_line())
        } else if self.visible() < 4 {
            self.noted(need_full_room_line())
        } else {
            self.scooped().refill(ts).enter_next_room()
        }
    }

    /// The state in which a run is set up, before the first room is dealt:
    /// a fresh player, the given deck, an empty table and a new log.
    pub open spec fn cleared(self, deck: Seq<Card>) -> GameView {
        GameView {
            player: PlayerView::fresh(),
            deck,
            room: empty_room(),
            selected: 0,
            choices_this_turn: 0,
            avoided_last_turn: false,
            potion_used_this_turn: false,
            discard: Seq::empty(),
            score: None,
            last_card_potion_value: None,
            history: Seq::empty(),
            phase: GamePhase::Running,
            log: seq![fresh_dungeon_line()],
            ..self
        }
    }

    /// A run begins with the given deck: the player is fresh, the table is
    /// cleared, the first room is dealt and recorded as room 1.
    pub open spec fn begin_run(self, deck: Seq<Card>, ts: u64) -> GameView {
        let dealt = self.cleared(deck).refill(ts);
        GameView {
            room_number: 1,
            history: dealt.history.push(GameEvent::RoomStart { number: 1 }),
            ..dealt
        }
    }

    /// The state in which a game opens: on the menu, with a deck ready and
    /// the score list as it was loaded.
    pub open spec fn opening(deck: Seq<Card>, board: Seq<EntryView>) -> GameView {
        GameView {
            phase: GamePhase::Menu,
            player: PlayerView::fresh(),
            deck,
            room: empty_room(),
            selected: 0,
            choices_this_turn: 0,
            avoided_last_turn: false,
            potion_used_this_turn: false,
            discard: Seq::empty(),
            log: seq![welcome_line(), hint_line()],
            show_help: false,
            score: None,
            last_card_potion_value: None,
            menu_selected: 0,
            name_input: Seq::empty(),
            player_name: default_name(),
            history: Seq::empty(),
            leaderboard: board,
            new_rank_pos: None,
            room_number: 0,
            game_over_scroll: 0,
        }
    }

    /// The help overlay is switched on or off.
    pub open spec fn toggle_help(self) -> GameView {
        GameView { show_help: !self.show_help, ..self }
    }

    /// The menu cursor moves up one entry, unless it is on the first.
    pub open spec fn select_menu_up(self) -> GameView {
        if self.menu_selected > 0 {
            GameView { menu_selected: self.menu_selected - 1, ..self }
        } else {
            self
        }
    }

    /// The menu cursor moves down one entry, unless it is on the third or
    /// beyond.
    pub open spec fn select_menu_down(self) -> GameView {
        if self.menu_selected < 2 {
            GameView { menu_selected: self.menu_selected + 1, ..self }
        } else {
            self
        }
    }

    /// The selected menu entry is activated: the first leads to name entry
    /// with an empty input, the second to the score list. Quitting is left
    /// to the caller.
    pub open spec fn menu_activate(self) -> GameView {
        if self.menu_selected == 0 {
            GameView { phase: GamePhase::NameEntry, name_input: Seq::empty(), ..self }
        } else if self.menu_selected == 1 {
            GameView { phase: GamePhase::Leaderboard, ..self }
        } else {
            self
        }
    }

    /// Whether the name being entered takes the character: it is a space or
    /// a printable ASCII character, and the name is shorter than 20 bytes.
    pub open spec fn name_takes(self, ch: char) -> bool {
        (is_ascii_graphic(ch) || ch == ' ') && encode_utf8(self.name_input).len() < NAME_LIMIT
    }

    /// A character is typed into the name.
    pub open spec fn name_input_char(self, ch: char) -> GameView {
        if self.name_takes(ch) {
            GameView { name_input: self.name_input.push(ch), ..self }
        } else {
            self
        }
    }

    /// The last character of the name is deleted, if there is one.
    pub open spec fn name_input_backspace(self) -> GameView {
        if self.name_input.len() > 0 {
            GameView { name_input: self.name_input.drop_last(), ..self }
        } else {
            self
        }
    }

    /// The name is entered and a run begins with the given deck. A name
    /// that is blank leaves the player's name as it was.
    pub open spec fn name_input_submit(self, deck: Seq<Card>, ts: u64) -> GameView {
        if trimmed(self.name_input).len() > 0 {
            GameView { player_name: trimmed(self.name_input), ..self }.begin_run(deck, ts)
        } else {
            self.begin_run(deck, ts)
        }
    }

    /// The cursor moves `dx` slots to the right, stopping at either end of
    /// the room. Outside a run it stays.
    pub open spec fn move_selection(self, dx: int) -> GameView {
        if self.phase != GamePhase::Running {
            self
        } else {
            GameView {
                selected: if self.selected + dx < 0 {
                    0
                } else if self.selected + dx > 3 {
                    3
                } else {
                    self.selected + dx
                },
                ..self
            }
        }
    }
}

} // verus!
