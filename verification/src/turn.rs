//! The room state machine: refilling the room, ending a turn, taking a card
//! and avoiding a room.

use crate::cards::Card;
use crate::game::{Game, GameEvent, GamePhase, UseMode};
use crate::invariants::{lemma_avoid_keeps_wf, lemma_resolve_keeps_bounds, lemma_take_keeps_wf};
use crate::laws::lemma_time_only_marks_the_end;
use crate::rules::{
    deck_after_refill, drawn_before, empty_room, first_occupied, gaps_before, occupied,
    refilled_room, refilled_slot, GameView,
};
use crate::tally::lemma_moves_keep_the_deck_whole;
use crate::text::log_line;
use vstd::prelude::*;

verus! {

/// The number of slots that hold a card.
fn count_occupied(room: &[Option<Card>; 4]) -> (n: usize)
    ensures
        n == occupied(room@),
{
    let mut n: usize = 0;
    let mut i: usize = 0;
    while i < 4
        invariant
            i <= 4,
            n == i - gaps_before(room@, i as int),
        decreases 4 - i,
    {
        if room[i].is_some() {
            n = n + 1;
        }
        i = i + 1;
    }
    n
}

/// The first slot that holds a card.
fn find_occupied(room: &[Option<Card>; 4]) -> (r: Option<usize>)
    ensures
        match r {
            Some(i) => first_occupied(room@) == Some(i as int),
            None => first_occupied(room@).is_none(),
        },
{
    let mut i: usize = 0;
    while i < 4
        invariant
            i <= 4,
            forall|k: int| 0 <= k < i ==> room@[k].is_none(),
        decreases 4 - i,
    {
        if room[i].is_some() {
            return Some(i);
        }
        i = i + 1;
    }
    None
}

impl Game {
    /// The number of cards that lie face up in the room.
    pub fn visible_count(&self) -> (n: usize)
        ensures
            n == self@.visible(),
    {
        count_occupied(&self.room)
    }

    /// Fills the empty slots of the room from the top of the deck, moves the
    /// cursor off an empty slot, and ends the run in victory if deck and
    /// room are both empty.
    pub fn refill_room(&mut self)
        requires
            old(self)@.in_bounds(),
        ensures
            exists|ts: u64| final(self)@ == old(self)@.refill(ts),
            final(self)@.in_bounds(),
    {
        let ghost start = self@;
        let mut slot: usize = 0;
        while slot < 4
            invariant
                slot <= 4,
                start.room.len() == 4,
                self.room@ == Seq::new(
                    4,
                    |i: int|
                        if i < slot {
                            refilled_slot(start.room, start.deck, i)
                        } else {
                            start.room[i]
                        },
                ),
                self.deck@ == start.deck.take(
                    start.deck.len() - drawn_before(start.room, start.deck, slot as int),
                ),
                self@ == (GameView { room: self.room@, deck: self.deck@, ..start }),
            decreases 4 - slot,
        {
            if self.room[slot].is_none() {
                if let Some(c) = self.deck.draw() {
                    self.room[slot] = Some(c);
                }
            }
            slot = slot + 1;
        }
        assert(self.room@ == refilled_room(start.room, start.deck));
        assert(self.deck@ == deck_after_refill(start.room, start.deck));
        if self.room[self.selected].is_none() {
            if let Some(idx) = find_occupied(&self.room) {
                self.selected = idx;
            }
        }
        let ghost filled = self@;
        if self.deck.is_empty() && self.visible_count() == 0 {
            self.finish_victory();
            proof {
                let ts = choose|ts: u64| self@ == filled.finish_victory(ts);
                assert(self@ == start.refill(ts));
            }
        } else {
            assert(self@ == start.refill(0));
        }
    }

    /// Ends the turn: resets its counters, refills the room and, if the run
    /// goes on, begins the next room.
    pub fn end_turn(&mut self)
        requires
            old(self)@.turn_reset().in_bounds(),
            old(self).room_number < u32::MAX,
        ensures
            exists|ts: u64| final(self)@ == old(self)@.end_turn(ts),
            final(self)@.in_bounds(),
    {
        self.avoided_last_turn = false;
        self.potion_used_this_turn = false;
        self.choices_this_turn = 0;
        let ghost reset = self@;
        self.refill_room();
        let ghost filled = self@;
        self.enter_next_room();
        proof {
            let ts = choose|ts: u64| filled == reset.refill(ts);
            assert(self@ == old(self)@.end_turn(ts));
        }
    }

    /// While the run lasts, counts the next room and records its start.
    fn enter_next_room(&mut self)
        requires
            old(self).room_number < u32::MAX,
        ensures
            final(self)@ == old(self)@.enter_next_room(),
    {
        if self.phase == GamePhase::Running {
            self.room_number = self.room_number + 1;
            self.history.push(GameEvent::RoomStart { number: self.room_number });
        }
    }

    /// Follows up the resolution of a card: death if health is gone, else
    /// the pick is counted and the turn ended if the room or the pick limit
    /// calls for it.
    pub fn after_resolution(&mut self)
        requires
            old(self)@.in_bounds(),
            old(self).room_number < u32::MAX,
        ensures
            exists|ts: u64| final(self)@ == old(self)@.after_resolution(ts),
            final(self)@.in_bounds(),
    {
        if self.player.hp <= 0 {
            self.finish_death();
            proof {
                let ts = choose|ts: u64| self@ == old(self)@.finish_death(ts);
                assert(self@ == old(self)@.after_resolution(ts));
            }
            return ;
        }
        self.choices_this_turn = self.choices_this_turn + 1;
        if self.visible_count() <= 1 || self.choices_this_turn >= 3 {
            let ghost counted = self@;
            self.end_turn();
            proof {
                let ts = choose|ts: u64| self@ == counted.end_turn(ts);
                assert(self@ == old(self)@.after_resolution(ts));
            }
        } else {
            assert(self@ == old(self)@.after_resolution(0));
        }
    }

    /// Takes the selected card and resolves it by the given mode; see
    /// [`GameView::take`].
    #[verifier::rlimit(40)]
    pub fn take_selected(&mut self, mode: UseMode)
        requires
            old(self).wf(),
        ensures
            exists|ts: u64| final(self)@ == old(self)@.take(mode, ts),
            final(self).phase == GamePhase::Running ==> final(self)@ == old(self)@.take(mode, 0),
            final(self).wf(),
            old(self)@.holds_the_deck() ==> final(self)@.holds_the_deck(),
    {
        proof {
            assert forall|ts: u64| old(self)@.holds_the_deck() implies (#[trigger] old(self)@.take(
                mode,
                ts,
            )).holds_the_deck() by {
                lemma_moves_keep_the_deck_whole(old(self)@, mode, ts);
            }
        }
        if self.phase != GamePhase::Running {
            log_line(&mut self.log, "No run is in progress.");
            assert(self@ == old(self)@.take(mode, 0));
            proof {
                lemma_take_keeps_wf(old(self)@, mode, 0);
            }
            return ;
        }
        if self.choices_this_turn >= 3 && self.visible_count() >= 2 {
            log_line(&mut self.log, "You've already taken 3 cards. Ending turn.");
            let ghost noted = self@;
            self.end_turn();
            proof {
                let ts = choose|ts: u64| self@ == noted.end_turn(ts);
                assert(self@ == old(self)@.take(mode, ts));
                lemma_take_keeps_wf(old(self)@, mode, ts);
                lemma_time_only_marks_the_end(old(self)@, mode, ts);
            }
            return ;
        }
        let idx = self.selected;
        let card = match self.room[idx] {
            Some(card) => card,
            None => {
                assert(self@ == old(self)@.take(mode, 0));
                return ;
            },
        };
        self.room[idx] = None;
        let ghost taken = self@;
        assert(taken == old(self)@.lifted());
        self.resolve_card(card, mode);
        let ghost resolved = self@;
        proof {
            lemma_resolve_keeps_bounds(taken, card, mode);
        }
        self.after_resolution();
        proof {
            let ts = choose|ts: u64| self@ == resolved.after_resolution(ts);
            assert(self@ == old(self)@.take(mode, ts));
            lemma_take_keeps_wf(old(self)@, mode, ts);
            lemma_time_only_marks_the_end(old(self)@, mode, ts);
        }
    }

    /// Takes the selected card; a monster is met with the weapon if that is
    /// possible.
    pub fn take_selected_default(&mut self)
        requires
            old(self).wf(),
        ensures
            exists|ts: u64| final(self)@ == old(self)@.take(UseMode::Default, ts),
            final(self).phase == GamePhase::Running ==> final(self)@ == old(self)@.take(
                UseMode::Default,
                0,
            ),
            final(self).wf(),
            old(self)@.holds_the_deck() ==> final(self)@.holds_the_deck(),
    {
        self.take_selected(UseMode::Default);
    }

    /// Takes the selected card; a monster is met with bare hands.
    pub fn take_selected_barehand(&mut self)
        requires
            old(self).wf(),
        ensures
            exists|ts: u64| final(self)@ == old(self)@.take(UseMode::Barehand, ts),
            final(self).phase == GamePhase::Running ==> final(self)@ == old(self)@.take(
                UseMode::Barehand,
                0,
            ),
            final(self).wf(),
            old(self)@.holds_the_deck() ==> final(self)@.holds_the_deck(),
    {
        self.take_selected(UseMode::Barehand);
    }

    /// Takes the selected card; a monster is met with the weapon if that is
    /// possible.
    pub fn take_selected_weapon(&mut self)
        requires
            old(self).wf(),
        ensures
            exists|ts: u64| final(self)@ == old(self)@.take(UseMode::Weapon, ts),
            final(self).phase == GamePhase::Running ==> final(self)@ == old(self)@.take(
                UseMode::Weapon,
                0,
            ),
            final(self).wf(),
            old(self)@.holds_the_deck() ==> final(self)@.holds_the_deck(),
    {
        self.take_selected(UseMode::Weapon);
    }

    /// Avoids the room; see [`GameView::avoid`].
    pub fn avoid_room(&mut self)
        requires
            old(self).wf(),
        ensures
            exists|ts: u64| final(self)@ == old(self)@.avoid(ts),
            final(self).phase == GamePhase::Running ==> final(self)@ == old(self)@.avoid(0),
            final(self).wf(),
            old(self)@.holds_the_deck() ==> final(self)@.holds_the_deck(),
    {
        proof {
            assert forall|ts: u64| old(self)@.holds_the_deck() implies (#[trigger] old(self)@.avoid(
                ts,
            )).holds_the_deck() by {
                lemma_moves_keep_the_deck_whole(old(self)@, UseMode::Default, ts);
            }
        }
        if self.phase != GamePhase::Running {
            log_line(&mut self.log, "No run is in progress.");
            assert(self@ == old(self)@.avoid(0));
            return ;
        }
        if self.avoided_last_turn {
            log_line(&mut self.log, "You cannot avoid two rooms in a row.");
            assert(self@ == old(self)@.avoid(0));
            return ;
        }
        if self.visible_count() < 4 {
            log_line(&mut self.log, "You may only avoid when 4 cards are visible.");
            assert(self@ == old(self)@.avoid(0));
            return ;
        }
        let mut i: usize = 0;
        while i < 4
            invariant
                i <= 4,
                old(self)@.room.len() == 4,
                occupied(old(self)@.room) == 4,
                self.room@ == Seq::new(
                    4,
                    |k: int|
                        if k < i {
                            None
                        } else {
                            old(self)@.room[k]
                        },
                ),
                self.deck@ == Seq::new(i as nat, |k: int| old(self)@.room[i - 1 - k].unwrap())
                    + old(self)@.deck,
                self@ == (GameView { room: self.room@, deck: self.deck@, ..old(self)@ }),
            decreases 4 - i,
        {
            if let Some(card) = self.room[i] {
                self.room[i] = None;
                self.deck.push_bottom(card);
            }
            i = i + 1;
        }
        assert(self.room@ == empty_room());
        assert(self.deck@ == old(self)@.deck_with_room_under());
        self.avoided_last_turn = true;
        self.potion_used_this_turn = false;
        self.choices_this_turn = 0;
        log_line(&mut self.log, "You avoid the room, slipping past the dangers.");
        self.history.push(GameEvent::Avoid);
        let ghost scooped = self@;
        self.refill_room();
        let ghost filled = self@;
        self.enter_next_room();
        proof {
            let ts = choose|ts: u64| filled == scooped.refill(ts);
            assert(self@ == old(self)@.avoid(ts));
            lemma_avoid_keeps_wf(old(self)@, ts);
            lemma_time_only_marks_the_end(old(self)@, UseMode::Default, ts);
        }
    }
}

} // verus!
