//! The engine: the state of a game, and how a finished run is scored and
//! entered in the score list.
//!
//! The moves are spread over the modules [`crate::menu`], [`crate::turn`]
//! and [`crate::combat`]; each is a method of [`Game`].

pub use crate::leaderboard::ScoreEntry;
pub use crate::player::{Player, WeaponState};

use crate::cards::Card;
use crate::deck::Deck;
use crate::leaderboard::{board_view, find_rank, sort_descending};
use crate::rules::{pile_threat, slot_threat, GameView};
use crate::text::{death_message, lines_view, log_message, victory_message};
use std::time::{SystemTime, UNIX_EPOCH};
use vstd::prelude::*;

verus! {

/// The screen the game is on. Only `Running` takes moves.
#[derive(Debug, Clone, Copy, PartialEq, Eq, Structural)]
pub enum GamePhase {
    Menu,
    NameEntry,
    Leaderboard,
    Running,
    GameOver,
}

/// How the player wants to meet a monster.
#[derive(Debug, Clone, Copy, PartialEq, Eq, Structural)]
pub enum UseMode {
    /// With the weapon if it can be used, else with bare hands.
    Default,
    /// With bare hands, weapon or not.
    Barehand,
    /// With the weapon if it can be used, else with bare hands.
    Weapon,
}

/// One entry of the history of a run.
#[derive(Debug, Clone, Copy, PartialEq, Eq, Structural)]
pub enum GameEvent {
    RoomStart { number: u32 },
    Potion { value: u8, hp_before: i32, hp_after: i32 },
    PotionDiscarded { value: u8 },
    Weapon { value: u8 },
    Fight { monster: u8, with_weapon: Option<u8>, damage_taken: u8 },
    Avoid,
}

/// A game: the screen it is on, the run in progress, the log, the menu and
/// the score list. The fields are open to read and to set up; the moves ask
/// for a state that is well formed, which [`Game::is_well_formed`] tests.
#[derive(Debug, Clone)]
pub struct Game {
    pub phase: GamePhase,
    pub player: Player,
    pub deck: Deck,
    pub room: [Option<Card>; 4],
    pub selected: usize,
    pub choices_this_turn: u8,
    pub avoided_last_turn: bool,
    pub potion_used_this_turn: bool,
    pub discard: Vec<Card>,
    pub log: Vec<String>,
    pub show_help: bool,
    pub score: Option<i32>,
    /// Value of the potion that healed last, if no other card was resolved
    /// since.
    pub last_card_potion_value: Option<u8>,
    pub menu_selected: usize,
    pub name_input: String,
    pub player_name: String,
    pub history: Vec<GameEvent>,
    pub leaderboard: Vec<ScoreEntry>,
    /// Rank of the last finished run in `leaderboard`: 1 for the first
    /// entry, 2 for the second, and so on.
    pub new_rank_pos: Option<usize>,
    pub room_number: u32,
    pub game_over_scroll: u16,
}

impl View for Game {
    type V = GameView;

    open spec fn view(&self) -> GameView {
        GameView {
            phase: self.phase,
            player: self.player@,
            deck: self.deck@,
            room: self.room@,
            selected: self.selected as int,
            choices_this_turn: self.choices_this_turn as int,
            avoided_last_turn: self.avoided_last_turn,
            potion_used_this_turn: self.potion_used_this_turn,
            discard: self.discard@,
            log: lines_view(self.log@),
            show_help: self.show_help,
            score: match self.score {
                Some(s) => Some(s as int),
                None => None,
            },
            last_card_potion_value: self.last_card_potion_value,
            menu_selected: self.menu_selected as int,
            name_input: self.name_input@,
            player_name: self.player_name@,
            history: self.history@,
            leaderboard: board_view(self.leaderboard@),
            new_rank_pos: match self.new_rank_pos {
                Some(p) => Some(p as int),
                None => None,
            },
            room_number: self.room_number as int,
            game_over_scroll: self.game_over_scroll as int,
        }
    }
}

/// The system clock in whole seconds since the Unix epoch, read through
/// `SystemTime::now`; 0 if the clock stands before the epoch. The value
/// depends on when the call is made, so nothing is claimed of it.
#[verifier::external_body]
fn now_ts() -> u64 {
    match SystemTime::now().duration_since(UNIX_EPOCH) {
        Ok(d) => d.as_secs(),
        Err(_) => 0,
    }
}

/// The summed values of the monsters in a pile of at most a deck and a room.
fn pile_threat_of(cards: &Vec<Card>) -> (t: i32)
    requires
        cards@.len() <= 48,
    ensures
        t == pile_threat(cards@),
        0 <= t <= 14 * cards@.len(),
{
    let mut t: i32 = 0;
    let mut i: usize = 0;
    while i < cards.len()
        invariant
            i <= cards@.len() <= 48,
            t == pile_threat(cards@.take(i as int)),
            0 <= t <= 14 * i,
        decreases cards@.len() - i,
    {
        assert(cards@.take(i + 1).drop_last() == cards@.take(i as int));
        if cards[i].is_monster() {
            t = t + cards[i].monster_value() as i32;
        }
        i = i + 1;
    }
    assert(cards@.take(i as int) == cards@);
    t
}

/// The value of the monster in a slot, if there is one.
fn slot_threat_of(slot: Option<Card>) -> (t: i32)
    ensures
        t == slot_threat(slot),
        0 <= t <= 14,
{
    match slot {
        Some(card) => if card.is_monster() {
            card.monster_value() as i32
        } else {
            0
        },
        None => 0,
    }
}

impl Game {
    /// The state is one that play can be in: see [`GameView::wf`].
    pub open spec fn wf(&self) -> bool {
        self@.wf()
    }

    /// Tests whether the state is one that play can be in. A caller that
    /// has filled in fields by hand can find out with this whether the
    /// moves may be called.
    pub fn is_well_formed(&self) -> (b: bool)
        ensures
            b == self.wf(),
    {
        if !(self.selected < 4 && self.player.is_well_formed() && self.choices_this_turn <= 3
            && self.deck.len() <= 44 && self.deck.len() + self.visible_count() <= 44 && (self.phase
            != GamePhase::Running || self.player.hp >= 1)) {
            return false;
        }
        let cards: u64 = (self.deck.len() + self.visible_count()) as u64;
        let rooms_ahead: u64 = 2 * cards + (if self.avoided_last_turn {
            0
        } else {
            1
        }) + (if self.choices_this_turn >= 3 {
            2
        } else {
            0
        });
        self.room_number as u64 + rooms_ahead <= u32::MAX as u64
    }

    /// Enters the outcome of the run in the score list under the time
    /// stamp `ts`, ranks the list anew and notes the rank of the run,
    /// counted from 1.
    pub fn record_score(&mut self, won: bool, ts: u64)
        ensures
            final(self)@ == old(self)@.submit(won, ts),
    {
        let score = match self.score {
            Some(s) => s,
            None => 0,
        };
        let entry = ScoreEntry { name: self.player_name.clone(), score, won, ts };
        let ghost added = board_view(self.leaderboard@).push(entry@);
        self.leaderboard.push(entry);
        assert(board_view(self.leaderboard@) == added);
        sort_descending(&mut self.leaderboard);
        self.new_rank_pos = find_rank(&self.leaderboard, &self.player_name, score, won);
    }

    /// Enters the outcome of the run in the score list under the current
    /// time.
    pub fn push_score_and_rank(&mut self, won: bool)
        ensures
            exists|ts: u64| final(self)@ == old(self)@.submit(won, ts),
    {
        let ts = now_ts();
        self.record_score(won, ts);
    }

    /// Ends the run in victory and scores it.
    pub fn finish_victory(&mut self)
        requires
            old(self)@.in_bounds(),
        ensures
            exists|ts: u64| final(self)@ == old(self)@.finish_victory(ts),
            final(self)@.in_bounds(),
    {
        self.phase = GamePhase::GameOver;
        let mut score = self.player.hp;
        if self.player.hp == self.player.max_hp {
            if let Some(v) = self.last_card_potion_value {
                score = score + v as i32;
            }
        }
        self.score = Some(score);
        log_message(&mut self.log, victory_message(score));
        let ghost mid = self@;
        self.push_score_and_rank(true);
        let ghost ranked = self@;
        self.game_over_scroll = 0;
        proof {
            let ts = choose|ts: u64| ranked == mid.submit(true, ts);
            assert(self@ == old(self)@.finish_victory(ts));
        }
    }

    /// Ends the run in death and scores it.
    pub fn finish_death(&mut self)
        requires
            old(self)@.in_bounds(),
        ensures
            exists|ts: u64| final(self)@ == old(self)@.finish_death(ts),
            final(self)@.in_bounds(),
    {
        self.phase = GamePhase::GameOver;
        let penalty = pile_threat_of(&self.deck.cards) + slot_threat_of(self.room[0])
            + slot_threat_of(self.room[1]) + slot_threat_of(self.room[2]) + slot_threat_of(
            self.room[3],
        );
        let score = self.player.hp - penalty;
        self.score = Some(score);
        log_message(&mut self.log, death_message(score));
        let ghost mid = self@;
        self.push_score_and_rank(false);
        let ghost ranked = self@;
        self.game_over_scroll = 0;
        proof {
            let ts = choose|ts: u64| ranked == mid.submit(false, ts);
            assert(self@ == old(self)@.finish_death(ts));
        }
    }
}

} // verus!
