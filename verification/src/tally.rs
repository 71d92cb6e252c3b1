//! The cards in play: no move loses a card or makes a second copy of one.

use crate::cards::{Card, Suit};
use crate::deck::{in_scoundrel_deck, lemma_deck_composition, scoundrel_cards};
use crate::game::{GamePhase, UseMode};
use crate::player::WeaponView;
use crate::rules::{
    deck_after_refill, drawn_before, refilled_room, refilled_slot, weapon_card, GameView,
};
use vstd::multiset::Multiset;
use vstd::prelude::*;

verus! {

/// The card in a slot, as a heap of at most one card.
pub open spec fn slot_cards(slot: Option<Card>) -> Multiset<Card> {
    match slot {
        Some(c) => Multiset::singleton(c),
        None => Multiset::empty(),
    }
}

/// The cards that lie in the room.
pub open spec fn room_cards(room: Seq<Option<Card>>) -> Multiset<Card> {
    slot_cards(room[0]).add(slot_cards(room[1])).add(slot_cards(room[2])).add(slot_cards(room[3]))
}

/// The cards a weapon holds: the weapon itself and the monsters stacked on
/// it.
pub open spec fn weapon_cards(weapon: Option<WeaponView>) -> Multiset<Card> {
    match weapon {
        Some(w) => Multiset::singleton(weapon_card(w.value)).add(w.stack.to_multiset()),
        None => Multiset::empty(),
    }
}

/// Whether a card can be told again from the power it has as a weapon: any
/// card but a diamond, and the diamonds whose rank is their value.
pub open spec fn keeps_its_face(card: Card) -> bool {
    card.suit == Suit::Diamonds ==> 2 <= card.rank.0 <= 13
}

impl GameView {
    /// All cards of the game: those in the deck, in the room, on the
    /// discard pile and with the weapon.
    pub open spec fn cards(self) -> Multiset<Card> {
        self.deck.to_multiset().add(room_cards(self.room)).add(self.discard.to_multiset()).add(
            weapon_cards(self.player.weapon),
        )
    }

    /// The game holds the 44 cards of the built deck, each once.
    pub open spec fn holds_the_deck(self) -> bool {
        self.cards() == scoundrel_cards().to_multiset()
    }
}

/// The cards of two piles laid together are the cards of the one and the
/// cards of the other.
proof fn lemma_piles_add(a: Seq<Card>, b: Seq<Card>)
    ensures
        (a + b).to_multiset() == a.to_multiset().add(b.to_multiset()),
{
    vstd::seq_lib::lemma_multiset_commutative(a, b);
}

/// A card that is resolved stays in the game: it goes to the discard pile
/// or to the weapon, and nothing else leaves or enters.
pub proof fn lemma_resolve_keeps_cards(g: GameView, card: Card, mode: UseMode)
    requires
        keeps_its_face(card),
    ensures
        g.resolve(card, mode).cards() == g.cards().insert(card),
{
    broadcast use vstd::seq_lib::group_to_multiset_ensures;
    broadcast use vstd::multiset::group_multiset_axioms;

    let r = g.resolve(card, mode);
    if card.suit == Suit::Diamonds {
        assert(weapon_card(card.monster_value()) == card);
        assert(Seq::<Card>::empty().to_multiset() =~= Multiset::<Card>::empty());
        match g.player.weapon {
            Some(w) => {
                lemma_piles_add(g.discard.push(weapon_card(w.value)), w.stack);
            },
            None => {},
        }
    }
    assert(r.cards() =~= g.cards().insert(card));
}

/// The room with the first `i` slots refilled.
spec fn room_refilled_to(room: Seq<Option<Card>>, deck: Seq<Card>, i: int) -> Seq<Option<Card>> {
    Seq::new(
        4,
        |k: int|
            if k < i {
                refilled_slot(room, deck, k)
            } else {
                room[k]
            },
    )
}

/// The deck once the first `i` slots have drawn from it.
spec fn deck_drawn_to(room: Seq<Option<Card>>, deck: Seq<Card>, i: int) -> Seq<Card> {
    deck.take(deck.len() - drawn_before(room, deck, i))
}

/// Refilling one slot moves at most one card, from the deck to the room.
proof fn lemma_refill_step(room: Seq<Option<Card>>, deck: Seq<Card>, i: int)
    requires
        room.len() == 4,
        0 <= i < 4,
    ensures
        deck_drawn_to(room, deck, i + 1).to_multiset().add(
            room_cards(room_refilled_to(room, deck, i + 1)),
        ) == deck_drawn_to(room, deck, i).to_multiset().add(
            room_cards(room_refilled_to(room, deck, i)),
        ),
{
    broadcast use vstd::seq_lib::group_to_multiset_ensures;
    broadcast use vstd::multiset::group_multiset_axioms;

    let d0 = deck_drawn_to(room, deck, i);
    let d1 = deck_drawn_to(room, deck, i + 1);
    let r0 = room_refilled_to(room, deck, i);
    let r1 = room_refilled_to(room, deck, i + 1);
    assert forall|k: int| 0 <= k < 4 && k != i implies r1[k] == r0[k] by {}
    if room[i].is_none() && drawn_before(room, deck, i) < deck.len() {
        let c = d0.last();
        assert(d0 == d1.push(c));
        assert(r1[i] == Some(c));
        assert(r0[i].is_none());
    } else {
        assert(d1 == d0);
        assert(r1[i] == r0[i]);
    }
    assert(d1.to_multiset().add(room_cards(r1)) =~= d0.to_multiset().add(room_cards(r0)));
}

/// A refill moves cards from the deck to the room and neither loses nor
/// copies one.
pub proof fn lemma_refill_keeps_cards(g: GameView, ts: u64)
    requires
        g.room.len() == 4,
    ensures
        g.refill(ts).cards() == g.cards(),
{
    broadcast use vstd::multiset::group_multiset_axioms;

    lemma_refill_step(g.room, g.deck, 0);
    lemma_refill_step(g.room, g.deck, 1);
    lemma_refill_step(g.room, g.deck, 2);
    lemma_refill_step(g.room, g.deck, 3);
    assert(room_refilled_to(g.room, g.deck, 4) == refilled_room(g.room, g.deck));
    assert(room_refilled_to(g.room, g.deck, 0) == g.room);
    assert(deck_drawn_to(g.room, g.deck, 0) == g.deck);
    assert(deck_drawn_to(g.room, g.deck, 4) == deck_after_refill(g.room, g.deck));
    assert(g.refill(ts).cards() =~= g.cards());
}

/// Ending a turn keeps the cards.
pub proof fn lemma_end_turn_keeps_cards(g: GameView, ts: u64)
    requires
        g.room.len() == 4,
    ensures
        g.end_turn(ts).cards() == g.cards(),
{
    let reset = g.turn_reset();
    lemma_refill_keeps_cards(reset, ts);
}

/// What follows a resolution keeps the cards: neither the end of the run
/// nor the end of the turn moves a card out of the game.
pub proof fn lemma_after_resolution_keeps_cards(g: GameView, ts: u64)
    requires
        g.room.len() == 4,
    ensures
        g.after_resolution(ts).cards() == g.cards(),
{
    if g.player.hp > 0 {
        let counted = g.pick_counted();
        lemma_end_turn_keeps_cards(counted, ts);
    }
}

/// A card lifted from its slot is the one card the game is short of.
pub proof fn lemma_lifted_card(g: GameView)
    requires
        g.room.len() == 4,
        0 <= g.selected < 4,
        g.room[g.selected].is_some(),
    ensures
        g.lifted().cards().insert(g.room[g.selected].unwrap()) == g.cards(),
{
    broadcast use vstd::multiset::group_multiset_axioms;

    let card = g.room[g.selected].unwrap();
    assert(room_cards(g.lifted().room).insert(card) =~= room_cards(g.room));
    assert(g.lifted().cards().insert(card) =~= g.cards());
}

/// Taking a card keeps the cards of the game: the card taken leaves the
/// room for the discard pile or the weapon, and the deck fills the room.
pub proof fn lemma_take_keeps_cards(g: GameView, mode: UseMode, ts: u64)
    requires
        g.room.len() == 4,
        0 <= g.selected < 4,
        match g.room[g.selected] {
            Some(card) => keeps_its_face(card),
            None => true,
        },
    ensures
        g.take(mode, ts).cards() == g.cards(),
{
    if g.phase != GamePhase::Running {
    } else if g.pick_limit_reached() {
        let noted = g.noted(crate::text::pick_limit_line());
        lemma_end_turn_keeps_cards(noted, ts);
        assert(noted.cards() == g.cards());
    } else {
        match g.room[g.selected] {
            None => {},
            Some(card) => {
                let lifted = g.lifted();
                let resolved = lifted.resolve(card, mode);
                lemma_lifted_card(g);
                lemma_resolve_keeps_cards(lifted, card, mode);
                lemma_resolve_keeps_room(lifted, card, mode);
                lemma_after_resolution_keeps_cards(resolved, ts);
                assert(g.take(mode, ts) == resolved.after_resolution(ts));
            },
        }
    }
}

/// Resolving a card leaves the room alone.
proof fn lemma_resolve_keeps_room(g: GameView, card: Card, mode: UseMode)
    ensures
        g.resolve(card, mode).room == g.room,
{
}

/// Avoiding a room keeps the cards of the game: the four cards of the room
/// go under the deck.
pub proof fn lemma_avoid_keeps_cards(g: GameView, ts: u64)
    requires
        g.room.len() == 4,
    ensures
        g.avoid(ts).cards() == g.cards(),
{
    broadcast use vstd::seq_lib::group_to_multiset_ensures;
    broadcast use vstd::multiset::group_multiset_axioms;

    if g.may_avoid() {
        let scooped = g.scooped();
        let under = seq![
            g.room[3].unwrap(),
            g.room[2].unwrap(),
            g.room[1].unwrap(),
            g.room[0].unwrap(),
        ];
        assert(under == Seq::<Card>::empty().push(g.room[3].unwrap()).push(
            g.room[2].unwrap(),
        ).push(g.room[1].unwrap()).push(g.room[0].unwrap()));
        assert(under.to_multiset() =~= room_cards(g.room));
        lemma_piles_add(under, g.deck);
        assert(scooped.cards() =~= g.cards());
        lemma_refill_keeps_cards(scooped, ts);
    }
}

/// A run begins with the cards of its deck and no others.
pub proof fn lemma_begin_run_cards(g: GameView, deck: Seq<Card>, ts: u64)
    ensures
        g.begin_run(deck, ts).cards() == deck.to_multiset(),
{
    broadcast use vstd::seq_lib::group_to_multiset_ensures;
    broadcast use vstd::multiset::group_multiset_axioms;

    let cleared = g.cleared(deck);
    assert(Seq::<Card>::empty().to_multiset() =~= Multiset::<Card>::empty());
    assert(cleared.cards() =~= deck.to_multiset());
    lemma_refill_keeps_cards(cleared, ts);
}

/// In a game that holds the built deck, every card in the room is a card
/// of the game.
pub proof fn lemma_room_holds_cards_of_the_game(g: GameView, slot: int)
    requires
        g.room.len() == 4,
        g.holds_the_deck(),
        0 <= slot < 4,
        g.room[slot].is_some(),
    ensures
        in_scoundrel_deck(g.room[slot].unwrap()),
        keeps_its_face(g.room[slot].unwrap()),
{
    broadcast use vstd::seq_lib::group_to_multiset_ensures;
    broadcast use vstd::multiset::group_multiset_axioms;

    let card = g.room[slot].unwrap();
    assert(slot_cards(g.room[slot]).count(card) == 1);
    assert(room_cards(g.room).count(card) >= 1);
    assert(g.cards().count(card) >= 1);
    assert(scoundrel_cards().to_multiset().count(card) >= 1);
    assert(scoundrel_cards().contains(card));
    lemma_deck_composition();
}

/// The deck is whole at every step: a game that holds the 44 cards of the
/// built deck still holds them, each once, after a card is taken and after
/// a room is avoided.
pub proof fn lemma_moves_keep_the_deck_whole(g: GameView, mode: UseMode, ts: u64)
    requires
        g.room.len() == 4,
        0 <= g.selected < 4,
        g.holds_the_deck(),
    ensures
        g.take(mode, ts).holds_the_deck(),
        g.avoid(ts).holds_the_deck(),
{
    if g.room[g.selected].is_some() {
        lemma_room_holds_cards_of_the_game(g, g.selected);
    }
    lemma_take_keeps_cards(g, mode, ts);
    lemma_avoid_keeps_cards(g, ts);
}

/// A run that begins with a shuffled deck holds the 44 cards of the built
/// deck.
pub proof fn lemma_new_run_holds_the_deck(g: GameView, deck: Seq<Card>, ts: u64)
    requires
        deck.to_multiset() == scoundrel_cards().to_multiset(),
    ensures
        g.begin_run(deck, ts).holds_the_deck(),
{
    lemma_begin_run_cards(g, deck, ts);
}

} // verus!
