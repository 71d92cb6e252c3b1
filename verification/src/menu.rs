//! Opening a game, the menu, entering a name and starting a run.

use crate::cards::Card;
use crate::deck::{scoundrel_cards, Deck};
use crate::game::{Game, GameEvent, GamePhase};
use crate::invariants::{
    lemma_begin_run_deals, lemma_begin_run_keeps_wf, lemma_begin_run_timeless,
};
use crate::leaderboard::{board_view, ScoreEntry};
use crate::player::Player;
use crate::rules::{empty_room, GameView, NAME_LIMIT};
use crate::tally::{lemma_begin_run_cards, lemma_new_run_holds_the_deck};
use crate::text::{fresh_dungeon_line, hint_line, lines_view, log_line, welcome_line};
use vstd::prelude::*;

verus! {

impl Game {
    /// Name of the file in which the score list is kept.
    pub fn scores_path() -> (p: &'static str)
        ensures
            p@ == "scoundrel_scores.json"@,
    {
        "scoundrel_scores.json"
    }

    /// Opens a game on the menu with the given deck and score list.
    pub fn with_deck(deck: Deck, leaderboard: Vec<ScoreEntry>) -> (g: Game)
        ensures
            g@ == GameView::opening(deck@, board_view(leaderboard@)),
    {
        let mut log: Vec<String> = Vec::new();
        log_line(&mut log, "Welcome to Scoundrel (terminal)!");
        log_line(&mut log, "Press 'n' for quick new run or use menu.");
        assert(lines_view(log@) == seq![welcome_line(), hint_line()]);
        let g = Game {
            phase: GamePhase::Menu,
            player: Player::new(),
            deck,
            room: [None, None, None, None],
            selected: 0,
            choices_this_turn: 0,
            avoided_last_turn: false,
            potion_used_this_turn: false,
            discard: Vec::new(),
            log,
            show_help: false,
            score: None,
            last_card_potion_value: None,
            menu_selected: 0,
            name_input: String::new(),
            player_name: "Scoundrel".to_string(),
            history: Vec::new(),
            leaderboard,
            new_rank_pos: None,
            room_number: 0,
            game_over_scroll: 0,
        };
        assert(g@.room == empty_room());
        assert(g@.history == Seq::<GameEvent>::empty());
        assert(g@.discard == Seq::<Card>::empty());
        g
    }

    /// Opens a game on the menu with a shuffled deck and the given score
    /// list.
    pub fn new(leaderboard: Vec<ScoreEntry>) -> (g: Game)
        ensures
            exists|deck: Seq<Card>|
                deck.to_multiset() == scoundrel_cards().to_multiset() && g@ == GameView::opening(
                    deck,
                    board_view(leaderboard@),
                ),
            g.wf(),
    {
        let mut deck = Deck::scoundrel_deck();
        deck.shuffle();
        let g = Game::with_deck(deck, leaderboard);
        assert(g@ == GameView::opening(g.deck@, board_view(leaderboard@)));
        g
    }

    /// Begins a run with the given deck: the player is fresh, the table is
    /// cleared and the first room is dealt.
    pub fn start_run(&mut self, deck: Deck)
        requires
            deck@.len() <= 44,
        ensures
            exists|ts: u64| final(self)@ == old(self)@.begin_run(deck@, ts),
            deck@.len() > 0 ==> final(self)@ == old(self)@.begin_run(deck@, 0),
            final(self).wf(),
            final(self)@.cards() == deck@.to_multiset(),
    {
        self.player = Player::new();
        self.deck = deck;
        self.room = [None, None, None, None];
        self.selected = 0;
        self.choices_this_turn = 0;
        self.avoided_last_turn = false;
        self.potion_used_this_turn = false;
        self.discard = Vec::new();
        self.score = None;
        self.last_card_potion_value = None;
        self.history = Vec::new();
        self.phase = GamePhase::Running;
        self.log = Vec::new();
        log_line(&mut self.log, "A fresh dungeon awaits...");
        let ghost cleared = self@;
        assert(cleared.room == empty_room());
        assert(cleared.log == seq![fresh_dungeon_line()]);
        assert(cleared.history == Seq::<GameEvent>::empty());
        assert(cleared.discard == Seq::<Card>::empty());
        self.refill_room();
        let ghost dealt = self@;
        self.room_number = 1;
        self.history.push(GameEvent::RoomStart { number: self.room_number });
        proof {
            let ts = choose|ts: u64| dealt == cleared.refill(ts);
            assert(self@ == old(self)@.begin_run(deck@, ts));
            lemma_begin_run_keeps_wf(old(self)@, deck@, ts);
            lemma_begin_run_cards(old(self)@, deck@, ts);
            if deck@.len() > 0 {
                lemma_begin_run_timeless(old(self)@, deck@, ts);
            }
        }
    }

    /// Begins a run with a freshly shuffled deck: the 44 cards of the game
    /// in some order, of which the top four are dealt into the room.
    pub fn new_run(&mut self)
        ensures
            exists|deck: Seq<Card>| #[trigger]
                deck.to_multiset() == scoundrel_cards().to_multiset() && final(self)@ == old(
                    self,
                )@.begin_run(deck, 0),
            final(self).wf(),
            final(self).phase == GamePhase::Running,
            final(self).room_number == 1,
            final(self)@.visible() == 4,
            final(self)@.deck.len() == 40,
            final(self)@.holds_the_deck(),
    {
        let mut deck = Deck::scoundrel_deck();
        deck.shuffle();
        let ghost shuffled = deck@;
        self.start_run(deck);
        proof {
            lemma_begin_run_deals(old(self)@, shuffled, 0);
            lemma_new_run_holds_the_deck(old(self)@, shuffled, 0);
            assert(shuffled.to_multiset() == scoundrel_cards().to_multiset() && self@ == old(
                self,
            )@.begin_run(shuffled, 0));
        }
    }

    /// Shows or hides the help overlay.
    pub fn toggle_help(&mut self)
        ensures
            final(self)@ == old(self)@.toggle_help(),
    {
        self.show_help = !self.show_help;
    }

    /// Moves the cursor `dx` slots to the right, stopping at either end of
    /// the room. The second argument is not used: the room is a single row.
    pub fn move_selection(&mut self, dx: i32, _dy: i32)
        requires
            old(self).selected < 4,
        ensures
            final(self)@ == old(self)@.move_selection(dx as int),
    {
        if self.phase != GamePhase::Running {
            return ;
        }
        let target: i64 = self.selected as i64 + dx as i64;
        self.selected = if target < 0 {
            0
        } else if target > 3 {
            3
        } else {
            target as usize
        };
    }

    /// Does nothing; the hook is kept for animations.
    pub fn tick(&mut self)
        ensures
            final(self)@ == old(self)@,
    {
    }

    /// Moves the menu cursor up.
    pub fn select_menu_up(&mut self)
        ensures
            final(self)@ == old(self)@.select_menu_up(),
    {
        if self.menu_selected > 0 {
            self.menu_selected = self.menu_selected - 1;
        }
    }

    /// Moves the menu cursor down.
    pub fn select_menu_down(&mut self)
        ensures
            final(self)@ == old(self)@.select_menu_down(),
    {
        if self.menu_selected < 2 {
            self.menu_selected = self.menu_selected + 1;
        }
    }

    /// Activates the selected menu entry.
    pub fn menu_activate(&mut self)
        ensures
            final(self)@ == old(self)@.menu_activate(),
    {
        if self.menu_selected == 0 {
            self.phase = GamePhase::NameEntry;
            self.name_input = String::new();
        } else if self.menu_selected == 1 {
            self.phase = GamePhase::Leaderboard;
        }
    }

    /// Types a character into the name.
    pub fn name_input_char(&mut self, ch: char)
        ensures
            final(self)@ == old(self)@.name_input_char(ch),
    {
        if (('!' <= ch && ch <= '~') || ch == ' ') && self.name_input.as_str().as_bytes().len()
            < NAME_LIMIT {
            self.name_input.push(ch);
        }
    }

    /// Deletes the last character of the name.
    pub fn name_input_backspace(&mut self)
        ensures
            final(self)@ == old(self)@.name_input_backspace(),
    {
        self.name_input.pop();
    }

    /// Takes the name that was entered, unless it is blank, and begins a
    /// run.
    pub fn name_input_submit(&mut self)
        ensures
            exists|deck: Seq<Card>| #[trigger]
                deck.to_multiset() == scoundrel_cards().to_multiset() && final(self)@ == old(
                    self,
                )@.name_input_submit(deck, 0),
            final(self).wf(),
            final(self).phase == GamePhase::Running,
            final(self).room_number == 1,
            final(self)@.visible() == 4,
            final(self)@.deck.len() == 40,
            final(self)@.holds_the_deck(),
    {
        if !self.name_input.as_str().trim().is_empty() {
            self.player_name = self.name_input.as_str().trim().to_owned();
        }
        let ghost named = self@;
        self.new_run();
        proof {
            let deck = choose|deck: Seq<Card>| #[trigger]
                deck.to_multiset() == scoundrel_cards().to_multiset() && self@ == named.begin_run(
                    deck,
                    0,
                );
            assert(deck.to_multiset() == scoundrel_cards().to_multiset() && self@ == old(
                self,
            )@.name_input_submit(deck, 0));
        }
    }
}

} // verus!
