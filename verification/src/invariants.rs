//! Every move leads from a well-formed state to a well-formed state.

use crate::cards::Card;
use crate::game::{GamePhase, UseMode};
use crate::rules::{deck_after_refill, occupied, refilled_room, GameView};
use vstd::prelude::*;

verus! {

/// Resolving a card for a living player keeps the state within bounds. It
/// leaves deck, room, cursor, pick count and phase alone, and costs at most
/// the value of an ace.
pub proof fn lemma_resolve_keeps_bounds(g: GameView, card: Card, mode: UseMode)
    requires
        g.in_bounds(),
        g.player.hp >= 1,
    ensures
        g.resolve(card, mode).in_bounds(),
        g.resolve(card, mode).phase == g.phase,
        g.resolve(card, mode).deck == g.deck,
        g.resolve(card, mode).room == g.room,
        g.resolve(card, mode).selected == g.selected,
        g.resolve(card, mode).choices_this_turn == g.choices_this_turn,
        g.resolve(card, mode).avoided_last_turn == g.avoided_last_turn,
        g.resolve(card, mode).room_number == g.room_number,
{
    let r = g.resolve(card, mode);
    if card.suit.is_black() && g.fights_with_weapon(card.monster_value(), mode) {
        let w = g.player.weapon.unwrap();
        let k = w.after_kill(card);
        assert(k.kills_never_rise()) by {
            assert forall|i: int, j: int| 0 <= i <= j < k.stack.len() implies k.stack[i].monster_value()
                >= k.stack[j].monster_value() by {
                if j == w.stack.len() && i < j {
                    assert(w.stack[i].monster_value() >= w.stack.last().monster_value());
                }
            }
        }
    }
}

/// A refill keeps a well-formed state well formed. It moves cards from the
/// deck to the room and changes neither their number nor any counter, and
/// it ends a run exactly if neither deck nor room holds a card.
pub proof fn lemma_refill_keeps_wf(g: GameView, ts: u64)
    requires
        g.wf(),
    ensures
        g.refill(ts).wf(),
        g.refill(ts).cards_ahead() == g.cards_ahead(),
        g.refill(ts).choices_this_turn == g.choices_this_turn,
        g.refill(ts).avoided_last_turn == g.avoided_last_turn,
        g.refill(ts).room_number == g.room_number,
        g.phase == GamePhase::Running ==> (g.refill(ts).phase == GamePhase::GameOver
            <==> g.cards_ahead() == 0),
        g.phase != GamePhase::Running ==> g.refill(ts).phase == g.phase || g.refill(ts).phase
            == GamePhase::GameOver,
{
    let room = refilled_room(g.room, g.deck);
    let deck = deck_after_refill(g.room, g.deck);
    assert(deck.len() + occupied(room) == g.deck.len() + occupied(g.room));
}

/// Ending a turn leads to a well-formed state, provided the room counter
/// has room for the next room and for those that the cards still allow.
pub proof fn lemma_end_turn_keeps_wf(g: GameView, ts: u64)
    requires
        g.turn_reset().in_bounds(),
        g.phase == GamePhase::Running ==> g.player.hp >= 1,
        0 <= g.room_number,
        g.room_number + 2 * g.cards_ahead() + 2 <= u32::MAX,
    ensures
        g.end_turn(ts).wf(),
        g.end_turn(ts).choices_this_turn == 0,
        !g.end_turn(ts).avoided_last_turn,
        g.end_turn(ts).cards_ahead() == g.cards_ahead(),
        g.room_number <= g.end_turn(ts).room_number <= g.room_number + 1,
        g.end_turn(ts).room_number + g.end_turn(ts).rooms_ahead() <= g.room_number + 2
            * g.cards_ahead() + 2,
{
    lemma_refill_keeps_wf(g.turn_reset(), ts);
}

/// Taking a card keeps a well-formed state well formed. It begins at most
/// one room, and it does not raise the sum of the room counter and the
/// rooms that can still begin.
#[verifier::rlimit(40)]
pub proof fn lemma_take_keeps_wf(g: GameView, mode: UseMode, ts: u64)
    requires
        g.wf(),
    ensures
        g.take(mode, ts).wf(),
        g.room_number <= g.take(mode, ts).room_number <= g.room_number + 1,
        g.take(mode, ts).room_number + g.take(mode, ts).rooms_ahead() <= g.room_number
            + g.rooms_ahead(),
{
    if g.phase != GamePhase::Running {
    } else if g.pick_limit_reached() {
        lemma_end_turn_keeps_wf(g.noted(crate::text::pick_limit_line()), ts);
    } else {
        match g.room[g.selected] {
            None => {},
            Some(card) => {
                let lifted = g.lifted();
                assert(lifted.cards_ahead() == g.cards_ahead() - 1);
                lemma_resolve_keeps_bounds(lifted, card, mode);
                let resolved = lifted.resolve(card, mode);
                assert(resolved.cards_ahead() == lifted.cards_ahead());
                if resolved.player.hp > 0 {
                    let counted = resolved.pick_counted();
                    assert(counted.cards_ahead() == lifted.cards_ahead());
                    if counted.visible() <= 1 || counted.choices_this_turn >= 3 {
                        lemma_end_turn_keeps_wf(counted, ts);
                    }
                } else {
                    lemma_finish_keeps_counters(resolved, ts);
                }
            },
        }
    }
}

/// The death of the player moves no card and no counter.
proof fn lemma_finish_keeps_counters(g: GameView, ts: u64)
    ensures
        g.finish_death(ts).cards_ahead() == g.cards_ahead(),
        g.finish_death(ts).room_number == g.room_number,
        g.finish_death(ts).rooms_ahead() == g.rooms_ahead(),
{
}

/// Avoiding a room keeps a well-formed state well formed. It begins at
/// most one room, and it does not raise the sum of the room counter and
/// the rooms that can still begin.
pub proof fn lemma_avoid_keeps_wf(g: GameView, ts: u64)
    requires
        g.wf(),
    ensures
        g.avoid(ts).wf(),
        g.room_number <= g.avoid(ts).room_number <= g.room_number + 1,
        g.avoid(ts).room_number + g.avoid(ts).rooms_ahead() <= g.room_number + g.rooms_ahead(),
{
    if g.may_avoid() {
        assert(g.scooped().cards_ahead() == g.cards_ahead());
        lemma_refill_keeps_wf(g.scooped(), ts);
    }
}

/// Every room that begins uses up some of the rooms that can still begin:
/// a take or an avoidance never raises the sum of the room counter and the
/// bound on the rooms ahead, and it begins at most one room. The bound is
/// never negative, so a run cannot go on for ever.
pub proof fn lemma_rooms_run_out(g: GameView, mode: UseMode, ts: u64)
    requires
        g.wf(),
    ensures
        g.rooms_ahead() >= 0,
        g.take(mode, ts).room_number + g.take(mode, ts).rooms_ahead() <= g.room_number
            + g.rooms_ahead(),
        g.avoid(ts).room_number + g.avoid(ts).rooms_ahead() <= g.room_number + g.rooms_ahead(),
        g.room_number <= g.take(mode, ts).room_number <= g.room_number + 1,
        g.room_number <= g.avoid(ts).room_number <= g.room_number + 1,
{
    lemma_take_keeps_wf(g, mode, ts);
    lemma_avoid_keeps_wf(g, ts);
}

/// Beginning a run with a deck of at most 44 cards yields a well-formed
/// state.
pub proof fn lemma_begin_run_keeps_wf(g: GameView, deck: Seq<Card>, ts: u64)
    requires
        deck.len() <= 44,
    ensures
        g.begin_run(deck, ts).wf(),
{
    let cleared = g.cleared(deck);
    // The refill does not look at the room counter, which is set afterwards.
    let counted = GameView { room_number: 0, ..cleared };
    lemma_refill_keeps_wf(counted, ts);
    assert(cleared.refill(ts) == (GameView {
        room_number: cleared.room_number,
        ..counted.refill(ts)
    }));
}

/// A run that begins with a card in the deck does not end at once, so the
/// time plays no part in how it begins.
pub proof fn lemma_begin_run_timeless(g: GameView, deck: Seq<Card>, ts: u64)
    requires
        deck.len() > 0,
    ensures
        g.begin_run(deck, ts) == g.begin_run(deck, 0),
{
}

/// A run that begins with at least four cards in the deck opens on a full
/// room dealt from the top of the deck, slot 0 first, with the player at
/// full health and the room counter at 1.
pub proof fn lemma_begin_run_deals(g: GameView, deck: Seq<Card>, ts: u64)
    requires
        deck.len() >= 4,
    ensures
        g.begin_run(deck, ts).phase == GamePhase::Running,
        g.begin_run(deck, ts).room_number == 1,
        g.begin_run(deck, ts).player == crate::player::PlayerView::fresh(),
        g.begin_run(deck, ts).deck == deck.take(deck.len() - 4),
        g.begin_run(deck, ts).room == seq![
            Some(deck[deck.len() - 1]),
            Some(deck[deck.len() - 2]),
            Some(deck[deck.len() - 3]),
            Some(deck[deck.len() - 4]),
        ],
        g.begin_run(deck, ts).visible() == 4,
        g.begin_run(deck, ts).selected == 0,
        g.begin_run(deck, ts).history == seq![crate::game::GameEvent::RoomStart { number: 1 }],
        g.begin_run(deck, ts).log == seq![crate::text::fresh_dungeon_line()],
{
    let dealt = g.begin_run(deck, ts);
    assert(dealt.room =~= seq![
        Some(deck[deck.len() - 1]),
        Some(deck[deck.len() - 2]),
        Some(deck[deck.len() - 3]),
        Some(deck[deck.len() - 4]),
    ]);
    assert(dealt.history =~= seq![crate::game::GameEvent::RoomStart { number: 1 }]);
}

} // verus!
