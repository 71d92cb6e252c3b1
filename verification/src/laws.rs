//! What holds of every game, proved from the rules.

use crate::cards::{Card, Suit};
use crate::game::{GameEvent, GamePhase, UseMode};
use crate::invariants::{lemma_refill_keeps_wf, lemma_resolve_keeps_bounds};
use crate::leaderboard::{
    descending, first_shown_from, lemma_first_shown_from, lemma_ranked_descending,
    lemma_ranked_permutes, lemma_slot_from, ranked, slot_for, EntryView,
};
use crate::player::{WeaponView, MAX_MONSTER};
use crate::rules::{weapon_card, GameView};
use crate::text::{no_double_avoid_line, no_run_line, wasted_potion_line};
use vstd::prelude::*;

verus! {

/// One card picked from the room, with the way a monster is to be met.
pub ghost struct Pick {
    pub card: Card,
    pub mode: UseMode,
}

impl GameView {
    /// The state after the picks have been resolved one after the other
    /// within one turn.
    pub open spec fn resolve_all(self, picks: Seq<Pick>) -> GameView
        decreases picks.len(),
    {
        if picks.len() == 0 {
            self
        } else {
            self.resolve_all(picks.drop_last()).resolve(picks.last().card, picks.last().mode)
        }
    }

    /// The cursor is put on a slot and the card there is taken.
    #[verifier::opaque]
    pub open spec fn pick(self, slot: int, mode: UseMode, ts: u64) -> GameView {
        GameView { selected: slot, ..self }.take(mode, ts)
    }

    /// The weapon in hand, if any, is well formed.
    pub open spec fn weapon_wf(self) -> bool {
        match self.player.weapon {
            Some(w) => w.wf(),
            None => true,
        }
    }
}

// ----- the kills of a weapon never rise -----

/// A monster that is fought with the weapon is no stronger than the one
/// fought with it before, it becomes the ceiling for the next, and it goes
/// on top of the weapon's stack, which stays in order.
pub proof fn lemma_weapon_fight_never_rises(g: GameView, card: Card, mode: UseMode)
    requires
        g.weapon_wf(),
        card.suit.is_black(),
        g.fights_with_weapon(card.monster_value(), mode),
    ensures
        match g.player.weapon.unwrap().last_monster {
            Some(prev) => card.monster_value() <= prev,
            None => true,
        },
        g.resolve(card, mode).player.weapon == Some(g.player.weapon.unwrap().after_kill(card)),
        g.resolve(card, mode).player.weapon.unwrap().last_monster == Some(card.monster_value()),
        g.resolve(card, mode).weapon_wf(),
{
    let w = g.player.weapon.unwrap();
    let k = w.after_kill(card);
    assert forall|i: int, j: int| 0 <= i <= j < k.stack.len() implies k.stack[i].monster_value()
        >= k.stack[j].monster_value() by {
        if j == w.stack.len() && i < j {
            assert(w.stack[i].monster_value() >= w.stack.last().monster_value());
        }
    }
}

/// Whatever card is resolved, the weapon in hand stays well formed: its
/// kills never rise.
pub proof fn lemma_resolve_keeps_weapon(g: GameView, card: Card, mode: UseMode)
    requires
        g.weapon_wf(),
    ensures
        g.resolve(card, mode).weapon_wf(),
        card.suit != Suit::Diamonds && g.player.weapon.is_some() ==> {
            let before = g.player.weapon.unwrap();
            let after = g.resolve(card, mode).player.weapon.unwrap();
            &&& g.resolve(card, mode).player.weapon.is_some()
            &&& after.value == before.value
            &&& before.stack.is_prefix_of(after.stack)
        },
{
    if card.suit.is_black() && g.fights_with_weapon(card.monster_value(), mode) {
        lemma_weapon_fight_never_rises(g, card, mode);
    }
}

/// Over any sequence of resolutions the kills of the
/// weapon in hand never rise; and as long as no new weapon is equipped, the
/// weapon keeps every kill it had, in order, so that each monster fought
/// with it is no stronger than any that it fought before.
pub proof fn lemma_weapon_monotone(g: GameView, picks: Seq<Pick>)
    requires
        g.weapon_wf(),
    ensures
        g.resolve_all(picks).weapon_wf(),
        g.player.weapon.is_some() && (forall|i: int|
            0 <= i < picks.len() ==> (#[trigger] picks[i]).card.suit != Suit::Diamonds) ==> {
            let before = g.player.weapon.unwrap();
            let after = g.resolve_all(picks).player.weapon.unwrap();
            &&& g.resolve_all(picks).player.weapon.is_some()
            &&& after.value == before.value
            &&& before.stack.is_prefix_of(after.stack)
            &&& after.kills_never_rise()
        },
    decreases picks.len(),
{
    if picks.len() > 0 {
        let head = picks.drop_last();
        lemma_weapon_monotone(g, head);
        lemma_resolve_keeps_weapon(g.resolve_all(head), picks.last().card, picks.last().mode);
        if g.player.weapon.is_some() && (forall|i: int|
            0 <= i < picks.len() ==> (#[trigger] picks[i]).card.suit != Suit::Diamonds) {
            assert forall|i: int| 0 <= i < head.len() implies (#[trigger] head[i]).card.suit
                != Suit::Diamonds by {
                assert(head[i] == picks[i]);
            }
            assert(picks.last() == picks[picks.len() - 1]);
        }
    }
}

// ----- one event per resolution -----

/// Every resolution leaves exactly one event in the history and one line
/// in the log, behind what stood there, and the event is of the kind that
/// goes with the suit of the card.
pub proof fn lemma_one_event_per_resolution(g: GameView, card: Card, mode: UseMode)
    ensures
        g.resolve(card, mode).history.len() == g.history.len() + 1,
        g.resolve(card, mode).history.drop_last() == g.history,
        g.resolve(card, mode).log.len() == g.log.len() + 1,
        g.resolve(card, mode).log.drop_last() == g.log,
        match g.resolve(card, mode).history.last() {
            GameEvent::Potion { .. } => card.suit == Suit::Hearts && !g.potion_used_this_turn,
            GameEvent::PotionDiscarded { .. } => card.suit == Suit::Hearts
                && g.potion_used_this_turn,
            GameEvent::Weapon { .. } => card.suit == Suit::Diamonds,
            GameEvent::Fight { .. } => card.suit.is_black(),
            _ => false,
        },
{
}

/// A take that is cut short by the pick limit resolves nothing: the only
/// event it can leave is the start of the next room.
pub proof fn lemma_pick_limit_emits_no_resolution(g: GameView, mode: UseMode, ts: u64)
    requires
        g.wf(),
        g.phase == GamePhase::Running,
        g.pick_limit_reached(),
    ensures
        g.take(mode, ts).history == g.history.push(
            GameEvent::RoomStart { number: (g.room_number + 1) as u32 },
        ),
{
}

// ----- binding a new weapon -----

/// A weapon that is equipped while another is in hand
/// sends the old weapon's card and every monster stacked on it to the
/// discard pile, in that order, and starts without a kill and without a
/// ceiling. Health is not touched.
pub proof fn lemma_equip_unbinds(g: GameView, card: Card, mode: UseMode)
    requires
        card.suit == Suit::Diamonds,
        g.player.weapon.is_some(),
    ensures
        g.resolve(card, mode).discard == g.discard.push(
            weapon_card(g.player.weapon.unwrap().value),
        ) + g.player.weapon.unwrap().stack,
        g.resolve(card, mode).player.weapon == Some(WeaponView::fresh(card.monster_value())),
        g.resolve(card, mode).player.weapon.unwrap().stack.len() == 0,
        g.resolve(card, mode).player.weapon.unwrap().last_monster.is_none(),
        g.resolve(card, mode).player.weapon.unwrap().can_use_on(MAX_MONSTER),
        g.resolve(card, mode).player.hp == g.player.hp,
{
}

// ----- one potion per turn -----

/// A potion taken after another in the same turn is wasted: health stays
/// as it is, the card is discarded and the history says so.
pub proof fn lemma_second_potion_wasted(g: GameView, card: Card, mode: UseMode)
    requires
        card.suit == Suit::Hearts,
        g.potion_used_this_turn,
    ensures
        g.resolve(card, mode).player == g.player,
        g.resolve(card, mode).history == g.history.push(
            GameEvent::PotionDiscarded { value: card.monster_value() },
        ),
        g.resolve(card, mode).log == g.log.push(wasted_potion_line()),
        g.resolve(card, mode).discard == g.discard.push(card),
{
}

/// Once a potion has been taken in a turn, the turn remembers it whatever
/// is resolved next.
pub proof fn lemma_potion_flag_sticks(g: GameView, card: Card, mode: UseMode)
    ensures
        g.potion_used_this_turn || card.suit == Suit::Hearts ==> g.resolve(
            card,
            mode,
        ).potion_used_this_turn,
{
}

/// The flag sticks over any sequence of resolutions too.
proof fn lemma_potion_flag_sticks_over(g: GameView, picks: Seq<Pick>)
    requires
        g.potion_used_this_turn || exists|i: int|
            0 <= i < picks.len() && (#[trigger] picks[i]).card.suit == Suit::Hearts,
    ensures
        g.resolve_all(picks).potion_used_this_turn,
    decreases picks.len(),
{
    if picks.len() > 0 {
        let head = picks.drop_last();
        if g.potion_used_this_turn {
            lemma_potion_flag_sticks_over(g, head);
        } else {
            let i = choose|i: int|
                0 <= i < picks.len() && (#[trigger] picks[i]).card.suit == Suit::Hearts;
            if i < head.len() {
                assert(head[i].card.suit == Suit::Hearts);
                lemma_potion_flag_sticks_over(g, head);
            }
        }
    }
}

/// Among the cards resolved in one turn, a potion that comes
/// after another potion does not change health: at most one potion of a
/// turn heals. The later one is recorded as discarded.
pub proof fn lemma_one_potion_per_turn(g: GameView, picks: Seq<Pick>, i: int, j: int)
    requires
        0 <= i < j < picks.len(),
        picks[i].card.suit == Suit::Hearts,
        picks[j].card.suit == Suit::Hearts,
    ensures
        g.resolve_all(picks.take(j + 1)).player == g.resolve_all(picks.take(j)).player,
        g.resolve_all(picks.take(j + 1)).history == g.resolve_all(picks.take(j)).history.push(
            GameEvent::PotionDiscarded { value: picks[j].card.monster_value() },
        ),
{
    let before = picks.take(j);
    assert(before[i].card.suit == Suit::Hearts);
    lemma_potion_flag_sticks_over(g, before);
    assert(picks.take(j + 1).drop_last() == before);
    assert(picks.take(j + 1).last() == picks[j]);
    lemma_second_potion_wasted(g.resolve_all(before), picks[j].card, picks[j].mode);
}

// ----- no two rooms avoided in a row -----

/// Where a room is avoided, avoiding again at once does
/// nothing but log a notice.
pub proof fn lemma_no_double_avoid(g: GameView, ts1: u64, ts2: u64)
    requires
        g.wf(),
        g.may_avoid(),
    ensures
        g.avoid(ts1).phase == GamePhase::Running,
        g.avoid(ts1).avoided_last_turn,
        g.avoid(ts1).room_number == g.room_number + 1,
        g.avoid(ts1).avoid(ts2) == g.avoid(ts1).noted(no_double_avoid_line()),
{
    lemma_refill_keeps_wf(g.scooped(), ts1);
}

/// Outside a run neither a take nor an avoidance changes anything but the
/// log, which gets one line saying that no run is on.
pub proof fn lemma_moves_outside_a_run_only_log(g: GameView, mode: UseMode, ts: u64)
    requires
        g.phase != GamePhase::Running,
    ensures
        g.take(mode, ts) == g.noted(no_run_line()),
        g.avoid(ts) == g.noted(no_run_line()),
        g.noted(no_run_line()).log == g.log.push(no_run_line()),
        g.noted(no_run_line()) == (GameView { log: g.noted(no_run_line()).log, ..g }),
{
}

/// A turn that ends by taking cards lifts the ban: the flag that forbids
/// avoiding is cleared.
pub proof fn lemma_end_turn_allows_avoid(g: GameView, ts: u64)
    ensures
        !g.end_turn(ts).avoided_last_turn,
{
}

// ----- the room -----

/// A refill never moves a card that lies in the room, and it leaves a slot
/// empty only when the deck has run out.
pub proof fn lemma_refill_fills_the_gaps(g: GameView, ts: u64)
    requires
        g.room.len() == 4,
    ensures
        g.refill(ts).room.len() == 4,
        forall|k: int| 0 <= k < 4 && g.room[k].is_some() ==> g.refill(ts).room[k] == g.room[k],
        forall|k: int| 0 <= k < 4 && g.refill(ts).room[k].is_none() ==> g.refill(ts).deck.len() == 0,
        g.refill(ts).deck.is_prefix_of(g.deck),
{
}

/// While a run goes on, the time plays no part: a take or an avoidance
/// that leaves the run running comes out the same at any time. The time
/// only marks the entry that a finished run leaves in the score list.
pub proof fn lemma_time_only_marks_the_end(g: GameView, mode: UseMode, ts: u64)
    ensures
        g.take(mode, ts).phase == GamePhase::Running ==> g.take(mode, ts) == g.take(mode, 0),
        g.avoid(ts).phase == GamePhase::Running ==> g.avoid(ts) == g.avoid(0),
        g.end_turn(ts).phase == GamePhase::Running ==> g.end_turn(ts) == g.end_turn(0),
        g.refill(ts).phase == GamePhase::Running ==> g.refill(ts) == g.refill(0),
{
}

/// Whether two score lists are alike but for their time stamps.
pub open spec fn alike_but_for_time(a: Seq<EntryView>, b: Seq<EntryView>) -> bool {
    &&& a.len() == b.len()
    &&& forall|k: int|
        0 <= k < a.len() ==> (#[trigger] a[k]).shows(b[k].name, b[k].score, b[k].won)
}

/// The search for an entry by name, score and outcome does not look at
/// time stamps.
proof fn lemma_search_ignores_time(
    a: Seq<EntryView>,
    b: Seq<EntryView>,
    name: Seq<char>,
    score: int,
    won: bool,
    i: int,
)
    requires
        alike_but_for_time(a, b),
        0 <= i <= a.len(),
    ensures
        first_shown_from(a, name, score, won, i) == first_shown_from(b, name, score, won, i),
    decreases a.len() - i,
{
    if i < a.len() {
        assert(a[i].shows(b[i].name, b[i].score, b[i].won));
        if !a[i].shows(name, score, won) {
            lemma_search_ignores_time(a, b, name, score, won, i + 1);
        }
    }
}

impl GameView {
    /// Whether two states are alike but for the time stamps in their score
    /// lists.
    pub open spec fn same_but_for_time(self, other: GameView) -> bool {
        &&& alike_but_for_time(self.leaderboard, other.leaderboard)
        &&& self == (GameView { leaderboard: self.leaderboard, ..other })
    }
}

/// The time at which a run is entered in the score list decides nothing
/// but the time stamp of its entry: the entry stands at the same place, the
/// lists are alike but for that stamp, the rank is the same, and nothing
/// else in the game depends on it.
pub proof fn lemma_time_only_stamps_the_entry(g: GameView, won: bool, ts1: u64, ts2: u64)
    ensures
        g.submit(won, ts1).same_but_for_time(g.submit(won, ts2)),
        g.submit(won, ts1).new_rank_pos == g.submit(won, ts2).new_rank_pos,
{
    let score = match g.score {
        Some(s) => s,
        None => 0,
    };
    let e1 = EntryView { name: g.player_name, score, won, ts: ts1 };
    let e2 = EntryView { name: g.player_name, score, won, ts: ts2 };
    let base = ranked(g.leaderboard);
    let p = slot_for(base, score);
    lemma_ranked_descending(g.leaderboard);
    lemma_slot_from(base, score, 0);
    assert(g.leaderboard.push(e1).drop_last() == g.leaderboard);
    assert(g.leaderboard.push(e2).drop_last() == g.leaderboard);
    let a = g.submit(won, ts1).leaderboard;
    let b = g.submit(won, ts2).leaderboard;
    assert(a == base.insert(p, e1));
    assert(b == base.insert(p, e2));
    assert forall|k: int| 0 <= k < a.len() implies (#[trigger] a[k]).shows(
        b[k].name,
        b[k].score,
        b[k].won,
    ) by {
        if k < p {
            assert(a[k] == base[k] && b[k] == base[k]);
        } else if k > p {
            assert(a[k] == base[k - 1] && b[k] == base[k - 1]);
        }
    }
    lemma_search_ignores_time(a, b, g.player_name, score, won, 0);
}

/// A refill depends on the time only by the stamp of the entry that a won
/// run leaves.
proof fn lemma_refill_but_for_time(g: GameView, ts1: u64, ts2: u64)
    ensures
        g.refill(ts1).same_but_for_time(g.refill(ts2)),
{
    let filled = g.filled();
    let score = filled.victory_score();
    lemma_time_only_stamps_the_entry(
        filled.ended(score, crate::text::victory_line(score)),
        true,
        ts1,
        ts2,
    );
}

/// The end of a turn depends on the time only by that stamp.
proof fn lemma_end_turn_but_for_time(g: GameView, ts1: u64, ts2: u64)
    ensures
        g.end_turn(ts1).same_but_for_time(g.end_turn(ts2)),
{
    lemma_refill_but_for_time(g.turn_reset(), ts1, ts2);
}

/// What follows a resolution depends on the time only by that stamp.
proof fn lemma_after_resolution_but_for_time(g: GameView, ts1: u64, ts2: u64)
    ensures
        g.after_resolution(ts1).same_but_for_time(g.after_resolution(ts2)),
{
    if g.player.hp <= 0 {
        let score = g.death_score();
        lemma_time_only_stamps_the_entry(
            g.ended(score, crate::text::death_line(score)),
            false,
            ts1,
            ts2,
        );
    } else {
        lemma_end_turn_but_for_time(g.pick_counted(), ts1, ts2);
    }
}

/// Whenever a card is taken or a room avoided, the time decides nothing
/// but the time stamp of the entry that a finished run leaves in the score
/// list: two moves from one state at different times lead to states that
/// are alike but for that stamp.
pub proof fn lemma_moves_but_for_time(g: GameView, mode: UseMode, ts1: u64, ts2: u64)
    ensures
        g.take(mode, ts1).same_but_for_time(g.take(mode, ts2)),
        g.avoid(ts1).same_but_for_time(g.avoid(ts2)),
{
    assert(g.take(mode, ts1).same_but_for_time(g.take(mode, ts2))) by {
        if g.phase != GamePhase::Running {
        } else if g.pick_limit_reached() {
            lemma_end_turn_but_for_time(
                g.noted(crate::text::pick_limit_line()),
                ts1,
                ts2,
            );
        } else {
            match g.room[g.selected] {
                None => {},
                Some(card) => {
                    let lifted = g.lifted();
                    lemma_after_resolution_but_for_time(lifted.resolve(card, mode), ts1, ts2);
                },
            }
        }
    }
    assert(g.avoid(ts1).same_but_for_time(g.avoid(ts2))) by {
        if g.may_avoid() {
            let scooped = g.scooped();
            lemma_refill_but_for_time(scooped, ts1, ts2);
        }
    }
}

// ----- three picks per room -----

/// At the pick limit no card is taken: the turn ends, and every card that
/// lay in the room still lies in its slot.
pub proof fn lemma_pick_limit_takes_nothing(g: GameView, mode: UseMode, ts: u64)
    requires
        g.wf(),
        g.phase == GamePhase::Running,
        g.pick_limit_reached(),
    ensures
        g.take(mode, ts).player == g.player,
        g.take(mode, ts).discard == g.discard,
        g.take(mode, ts).choices_this_turn == 0,
        forall|k: int| 0 <= k < 4 && g.room[k].is_some() ==> g.take(mode, ts).room[k] == g.room[k],
{
}

/// A pick that neither kills the player nor empties the room down to one
/// card nor is the third of its turn leaves the turn open: the card is
/// gone from its slot, the pick is counted, and nothing else in the room
/// moves.
#[verifier::rlimit(40)]
pub proof fn lemma_pick_continues(g: GameView, slot: int, mode: UseMode, ts: u64)
    requires
        g.wf(),
        g.phase == GamePhase::Running,
        0 <= slot < 4,
        g.room[slot].is_some(),
        g.choices_this_turn < 2,
        g.visible() > 2,
        g.pick(slot, mode, ts).player.hp > 0,
    ensures
        g.pick(slot, mode, ts).wf(),
        g.pick(slot, mode, ts).phase == GamePhase::Running,
        g.pick(slot, mode, ts).choices_this_turn == g.choices_this_turn + 1,
        g.pick(slot, mode, ts).room == g.room.update(slot, None),
        g.pick(slot, mode, ts).visible() == g.visible() - 1,
        g.pick(slot, mode, ts).room_number == g.room_number,
{
    reveal(GameView::pick);
    let aimed = GameView { selected: slot, ..g };
    let card = aimed.room[slot].unwrap();
    let taken = aimed.lifted();
    lemma_resolve_keeps_bounds(taken, card, mode);
}

/// The third pick of a turn, if the player survives it, ends the turn: the
/// pick count is back at 0, every other card of the room lies where it
/// lay, and unless that leaves neither deck nor room with a card, the next
/// room begins.
#[verifier::rlimit(40)]
pub proof fn lemma_third_pick_ends_turn(g: GameView, slot: int, mode: UseMode, ts: u64)
    requires
        g.wf(),
        g.phase == GamePhase::Running,
        0 <= slot < 4,
        g.room[slot].is_some(),
        g.choices_this_turn == 2,
        g.pick(slot, mode, ts).player.hp > 0,
    ensures
        g.pick(slot, mode, ts).wf(),
        g.pick(slot, mode, ts).choices_this_turn == 0,
        forall|k: int|
            0 <= k < 4 && k != slot && g.room[k].is_some() ==> g.pick(slot, mode, ts).room[k]
                == g.room[k],
        g.visible() + g.deck.len() > 1 ==> g.pick(slot, mode, ts).phase == GamePhase::Running
            && g.pick(slot, mode, ts).room_number == g.room_number + 1,
{
    reveal(GameView::pick);
    let aimed = GameView { selected: slot, ..g };
    let card = aimed.room[slot].unwrap();
    let taken = aimed.lifted();
    lemma_resolve_keeps_bounds(taken, card, mode);
    let resolved = taken.resolve(card, mode);
    let counted = GameView { choices_this_turn: 3, ..resolved };
    let reset = counted.turn_reset();
    lemma_refill_keeps_wf(reset, ts);
    assert(g.pick(slot, mode, ts) == counted.end_turn(ts));
}

/// From a full room, three cards taken from three different
/// slots end the turn with the third, provided the player survives them:
/// the pick count is back at 0, the fourth card lies where it lay, and the
/// next room has begun.
pub proof fn lemma_pick_cap(
    g: GameView,
    s1: int,
    s2: int,
    s3: int,
    s4: int,
    m1: UseMode,
    m2: UseMode,
    m3: UseMode,
    ts: u64,
)
    requires
        g.wf(),
        g.phase == GamePhase::Running,
        g.visible() == 4,
        g.choices_this_turn == 0,
        0 <= s1 < 4 && 0 <= s2 < 4 && 0 <= s3 < 4 && 0 <= s4 < 4,
        s1 != s2 && s1 != s3 && s1 != s4 && s2 != s3 && s2 != s4 && s3 != s4,
        g.pick(s1, m1, ts).player.hp > 0,
        g.pick(s1, m1, ts).pick(s2, m2, ts).player.hp > 0,
        g.pick(s1, m1, ts).pick(s2, m2, ts).pick(s3, m3, ts).player.hp > 0,
    ensures
        ({
            let g1 = g.pick(s1, m1, ts);
            let g2 = g1.pick(s2, m2, ts);
            let g3 = g2.pick(s3, m3, ts);
            &&& g1.choices_this_turn == 1 && g1.visible() == 3 && g1.room_number == g.room_number
            &&& g2.choices_this_turn == 2 && g2.visible() == 2 && g2.room_number == g.room_number
            &&& g3.choices_this_turn == 0
            &&& g3.phase == GamePhase::Running
            &&& g3.room_number == g.room_number + 1
            &&& g3.room[s4] == g.room[s4]
            &&& g3.room[s4].is_some()
        }),
{
    let g1 = g.pick(s1, m1, ts);
    let g2 = g1.pick(s2, m2, ts);
    lemma_pick_continues(g, s1, m1, ts);
    lemma_pick_continues(g1, s2, m2, ts);
    lemma_third_pick_ends_turn(g2, s3, m3, ts);
}

// ----- the score list -----

/// Once a run has been entered in the score list, the list is in
/// descending order of score and holds what it held before and the new
/// entry. The run has a rank, counted from 1 and no greater than the length
/// of the list; the entry at that place shows the name, score and outcome
/// of the run, and no entry before it does.
pub proof fn lemma_submission_is_ranked(g: GameView, won: bool, ts: u64)
    ensures
        ({
            let score = match g.score {
                Some(s) => s,
                None => 0,
            };
            let entry = EntryView { name: g.player_name, score, won, ts };
            let after = g.submit(won, ts);
            &&& descending(after.leaderboard)
            &&& after.leaderboard.len() == g.leaderboard.len() + 1
            &&& after.leaderboard.to_multiset() == g.leaderboard.to_multiset().insert(entry)
            &&& after.new_rank_pos.is_some()
            &&& 1 <= after.new_rank_pos.unwrap() <= after.leaderboard.len()
            &&& after.leaderboard[after.new_rank_pos.unwrap() - 1].shows(
                g.player_name,
                score,
                won,
            )
            &&& forall|k: int|
                0 <= k < after.new_rank_pos.unwrap() - 1 ==> !after.leaderboard[k].shows(
                    g.player_name,
                    score,
                    won,
                )
        }),
{
    broadcast use vstd::seq_lib::group_to_multiset_ensures;

    let score = match g.score {
        Some(s) => s,
        None => 0,
    };
    let entry = EntryView { name: g.player_name, score, won, ts };
    let added = g.leaderboard.push(entry);
    let board = g.submit(won, ts).leaderboard;
    lemma_ranked_descending(added);
    lemma_ranked_permutes(added);
    lemma_first_shown_from(board, g.player_name, score, won, 0);
    // The new entry is on the board, so the search cannot come back empty.
    assert(added.to_multiset().count(entry) > 0);
    assert(board.to_multiset().count(entry) > 0);
    assert(board.contains(entry));
    let at = choose|k: int| 0 <= k < board.len() && board[k] == entry;
    assert(board[at].shows(g.player_name, score, won));
}


/// A run that scores more than every entry of the score list takes rank 1,
/// and the new entry leads the list.
pub proof fn lemma_best_run_ranks_first(g: GameView, won: bool, ts: u64)
    requires
        forall|k: int|
            0 <= k < g.leaderboard.len() ==> (#[trigger] g.leaderboard[k]).score < (match g.score {
                Some(s) => s,
                None => 0,
            }),
    ensures
        g.submit(won, ts).new_rank_pos == Some(1int),
        g.submit(won, ts).leaderboard[0] == (EntryView {
            name: g.player_name,
            score: match g.score {
                Some(s) => s,
                None => 0,
            },
            won,
            ts,
        }),
{
    broadcast use vstd::seq_lib::group_to_multiset_ensures;

    let score = match g.score {
        Some(s) => s,
        None => 0,
    };
    let entry = EntryView { name: g.player_name, score, won, ts };
    let base = ranked(g.leaderboard);
    lemma_ranked_descending(g.leaderboard);
    lemma_ranked_permutes(g.leaderboard);
    assert(g.leaderboard.push(entry).drop_last() == g.leaderboard);
    // Every entry of the ranked list is an entry of the list, so it scores less.
    if base.len() > 0 {
        assert(base.to_multiset().count(base[0]) > 0);
        assert(g.leaderboard.contains(base[0]));
        let k = choose|k: int| 0 <= k < g.leaderboard.len() && g.leaderboard[k] == base[0];
        assert(g.leaderboard[k].score < score);
    }
    assert(slot_for(base, score) == 0);
    let board = g.submit(won, ts).leaderboard;
    assert(board == base.insert(0, entry));
    assert(board[0] == entry);
    assert(board[0].shows(g.player_name, score, won));
}

} // verus!
