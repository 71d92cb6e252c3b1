//! The deck: an ordered pile of cards whose top is the end of the sequence.

use crate::cards::{Card, Rank, Suit};
use crate::seqs::{lemma_filter_all, lemma_filter_none};
use rand::rngs::ThreadRng;
use rand::seq::SliceRandom;
use vstd::prelude::*;

verus! {

/// The thread-local generator of `rand`, carried through as an opaque value.
#[verifier::external_type_specification]
#[verifier::external_body]
pub struct ExThreadRng(ThreadRng);

/// `rand::thread_rng`: hands out the calling thread's generator. Nothing is
/// claimed of the value. `rand` panics here if the operating system cannot
/// seed the generator.
pub assume_specification[ rand::thread_rng ]() -> (rng: ThreadRng)
;

/// `rand::seq::SliceRandom::shuffle` on the cards of a pile: the source shows
/// a run of swaps inside the slice, so whatever the generator yields, the pile
/// afterwards holds the same cards as before, each as often as before.
#[verifier::external_body]
fn shuffle_cards(cards: &mut Vec<Card>, rng: &mut ThreadRng)
    ensures
        final(cards)@.to_multiset() == old(cards)@.to_multiset(),
{
    cards.shuffle(rng)
}

/// The ranks `lo..=hi` of one suit, in rising order.
pub open spec fn suit_run(suit: Suit, lo: u8, hi: u8) -> Seq<Card> {
    Seq::new(
        (hi - lo + 1) as nat,
        |i: int| Card { suit, rank: Rank((lo + i) as u8) },
    )
}

/// The freshly built deck, bottom first: every club, every spade, then the
/// diamonds and the hearts from 2 to 10.
pub open spec fn scoundrel_cards() -> Seq<Card> {
    suit_run(Suit::Clubs, 1, 13) + suit_run(Suit::Spades, 1, 13) + suit_run(Suit::Diamonds, 2, 10)
        + suit_run(Suit::Hearts, 2, 10)
}

/// The test that a card is of the given suit.
pub open spec fn of_suit(suit: Suit) -> spec_fn(Card) -> bool {
    |c: Card| c.suit == suit
}

/// Whether a card belongs to the game: any black card of rank 1 to 13, and
/// the red cards of rank 2 to 10.
pub open spec fn in_scoundrel_deck(c: Card) -> bool {
    if c.suit.is_black() {
        1 <= c.rank.0 <= 13
    } else {
        2 <= c.rank.0 <= 10
    }
}

/// A pile of cards. The last card is the top of the pile, the first its
/// bottom.
#[derive(Debug, Clone)]
pub struct Deck {
    pub cards: Vec<Card>,
}

impl View for Deck {
    type V = Seq<Card>;

    open spec fn view(&self) -> Seq<Card> {
        self.cards@
    }
}

impl Default for Deck {
    /// The empty pile.
    fn default() -> (d: Deck)
        ensures
            d@ == Seq::<Card>::empty(),
    {
        Deck { cards: Vec::new() }
    }
}

/// Appends the ranks `lo..=hi` of `suit` to `cards`.
fn push_suit_run(cards: &mut Vec<Card>, suit: Suit, lo: u8, hi: u8)
    requires
        lo <= hi < 255,
    ensures
        final(cards)@ == old(cards)@ + suit_run(suit, lo, hi),
{
    let mut v: u8 = lo;
    while v <= hi
        invariant
            lo <= v <= hi + 1,
            hi < 255,
            cards@ == old(cards)@ + suit_run(suit, lo, hi).take(v - lo),
        decreases hi + 1 - v,
    {
        cards.push(Card::new(suit, Rank::new(v)));
        v = v + 1;
    }
}

impl Deck {
    /// Builds the 44-card deck in its fixed order.
    pub fn scoundrel_deck() -> (d: Deck)
        ensures
            d@ == scoundrel_cards(),
    {
        let mut cards: Vec<Card> = Vec::with_capacity(44);
        push_suit_run(&mut cards, Suit::Clubs, 1, 13);
        push_suit_run(&mut cards, Suit::Spades, 1, 13);
        push_suit_run(&mut cards, Suit::Diamonds, 2, 10);
        push_suit_run(&mut cards, Suit::Hearts, 2, 10);
        Deck { cards }
    }

    /// Puts the cards in a random order. Which order comes out is up to the
    /// generator; the cards themselves stay the same.
    pub fn shuffle(&mut self)
        ensures
            final(self)@.to_multiset() == old(self)@.to_multiset(),
            final(self)@.len() == old(self)@.len(),
    {
        let mut rng = rand::thread_rng();
        shuffle_cards(&mut self.cards, &mut rng);
        proof {
            old(self)@.to_multiset_ensures();
            self@.to_multiset_ensures();
        }
    }

    /// Takes the top card, or reports that none is left.
    pub fn draw(&mut self) -> (c: Option<Card>)
        ensures
            old(self)@.len() == 0 ==> c.is_none() && final(self)@ == old(self)@,
            old(self)@.len() > 0 ==> c == Some(old(self)@.last()) && final(self)@ == old(
                self,
            )@.drop_last(),
    {
        self.cards.pop()
    }

    /// The number of cards in the pile.
    pub fn len(&self) -> (n: usize)
        ensures
            n == self@.len(),
    {
        self.cards.len()
    }

    /// Whether no card is left.
    pub fn is_empty(&self) -> (b: bool)
        ensures
            b == (self@.len() == 0),
    {
        self.cards.is_empty()
    }

    /// Slides a card under the pile, so that it is drawn after every card
    /// that is in the pile now. Takes time linear in the size of the pile.
    pub fn push_bottom(&mut self, card: Card)
        ensures
            final(self)@ == seq![card] + old(self)@,
    {
        self.cards.insert(0, card);
    }
}

/// The built deck holds 44 cards and none of them twice. A card is in it
/// exactly if it is a black card of rank 1 to 13 or a red card of rank 2 to
/// 10, so it holds no red ace and no red face card.
pub proof fn lemma_deck_composition()
    ensures
        scoundrel_cards().len() == 44,
        scoundrel_cards().no_duplicates(),
        forall|c: Card| scoundrel_cards().contains(c) <==> in_scoundrel_deck(c),
{
    lemma_deck_members();
    lemma_deck_no_duplicates();
}

/// Of each suit the built deck holds the full run and nothing else: 13
/// clubs and 13 spades from ace to king, 9 diamonds and 9 hearts from 2 to
/// 10.
pub proof fn lemma_deck_suits()
    ensures
        scoundrel_cards().filter(of_suit(Suit::Clubs)) == suit_run(Suit::Clubs, 1, 13),
        scoundrel_cards().filter(of_suit(Suit::Spades)) == suit_run(Suit::Spades, 1, 13),
        scoundrel_cards().filter(of_suit(Suit::Diamonds)) == suit_run(Suit::Diamonds, 2, 10),
        scoundrel_cards().filter(of_suit(Suit::Hearts)) == suit_run(Suit::Hearts, 2, 10),
{
    lemma_suit_filter(Suit::Clubs);
    lemma_suit_filter(Suit::Spades);
    lemma_suit_filter(Suit::Diamonds);
    lemma_suit_filter(Suit::Hearts);
}

/// The built deck holds 13 clubs, 13 spades, 9 diamonds and 9 hearts.
pub proof fn lemma_deck_suit_counts()
    ensures
        scoundrel_cards().filter(of_suit(Suit::Clubs)).len() == 13,
        scoundrel_cards().filter(of_suit(Suit::Spades)).len() == 13,
        scoundrel_cards().filter(of_suit(Suit::Diamonds)).len() == 9,
        scoundrel_cards().filter(of_suit(Suit::Hearts)).len() == 9,
{
    assert(scoundrel_cards().filter(of_suit(Suit::Clubs)).len() == 13) by {
        lemma_suit_filter(Suit::Clubs);
    }
    assert(scoundrel_cards().filter(of_suit(Suit::Spades)).len() == 13) by {
        lemma_suit_filter(Suit::Spades);
    }
    assert(scoundrel_cards().filter(of_suit(Suit::Diamonds)).len() == 9) by {
        lemma_suit_filter(Suit::Diamonds);
    }
    assert(scoundrel_cards().filter(of_suit(Suit::Hearts)).len() == 9) by {
        lemma_suit_filter(Suit::Hearts);
    }
}

/// The cards of the built deck are the cards of the game.
proof fn lemma_deck_members()
    ensures
        scoundrel_cards().len() == 44,
        forall|c: Card| scoundrel_cards().contains(c) <==> in_scoundrel_deck(c),
{
    let all = scoundrel_cards();
    lemma_positions();
    assert forall|c: Card| all.contains(c) <==> in_scoundrel_deck(c) by {
        if in_scoundrel_deck(c) {
            assert(all[position_of(c)] == c);
        }
        if all.contains(c) {
            let i = choose|i: int| 0 <= i < all.len() && all[i] == c;
            assert(all[i] == card_at(i));
        }
    }
}

/// No card lies twice in the built deck.
proof fn lemma_deck_no_duplicates()
    ensures
        scoundrel_cards().no_duplicates(),
{
    let all = scoundrel_cards();
    lemma_positions();
    assert forall|i: int, j: int| 0 <= i < all.len() && 0 <= j < all.len() && i != j implies all[i]
        != all[j] by {
        assert(all[i] == card_at(i));
        assert(all[j] == card_at(j));
        assert(position_of(card_at(i)) == i);
        assert(position_of(card_at(j)) == j);
    }
}

/// Where a card of the game lies in the built deck.
spec fn position_of(c: Card) -> int {
    match c.suit {
        Suit::Clubs => c.rank.0 - 1,
        Suit::Spades => 13 + c.rank.0 - 1,
        Suit::Diamonds => 26 + c.rank.0 - 2,
        Suit::Hearts => 35 + c.rank.0 - 2,
    }
}

/// The card at a position of the built deck.
spec fn card_at(i: int) -> Card {
    if i < 13 {
        Card { suit: Suit::Clubs, rank: Rank((i + 1) as u8) }
    } else if i < 26 {
        Card { suit: Suit::Spades, rank: Rank((i - 12) as u8) }
    } else if i < 35 {
        Card { suit: Suit::Diamonds, rank: Rank((i - 24) as u8) }
    } else {
        Card { suit: Suit::Hearts, rank: Rank((i - 33) as u8) }
    }
}

/// The built deck position by position: each card of the game lies at its
/// position, and each position holds a card of the game.
proof fn lemma_positions()
    ensures
        scoundrel_cards().len() == 44,
        forall|i: int| 0 <= i < 44 ==> #[trigger] scoundrel_cards()[i] == card_at(i),
        forall|i: int|
            0 <= i < 44 ==> position_of(#[trigger] card_at(i)) == i && in_scoundrel_deck(card_at(i)),
        forall|c: Card|
            in_scoundrel_deck(c) ==> 0 <= #[trigger] position_of(c) < 44 && card_at(position_of(c))
                == c,
{
    let a = suit_run(Suit::Clubs, 1, 13);
    let b = suit_run(Suit::Spades, 1, 13);
    let c = suit_run(Suit::Diamonds, 2, 10);
    let d = suit_run(Suit::Hearts, 2, 10);
    assert forall|i: int| 0 <= i < 44 implies #[trigger] scoundrel_cards()[i] == card_at(i) by {
        if i < 13 {
            assert(scoundrel_cards()[i] == a[i]);
        } else if i < 26 {
            assert(scoundrel_cards()[i] == b[i - 13]);
        } else if i < 35 {
            assert(scoundrel_cards()[i] == c[i - 26]);
        } else {
            assert(scoundrel_cards()[i] == d[i - 35]);
        }
    }
}

/// Filtering the built deck by a suit leaves the run of that suit.
proof fn lemma_suit_filter(suit: Suit)
    ensures
        scoundrel_cards().filter(of_suit(suit)) == (match suit {
            Suit::Clubs => suit_run(Suit::Clubs, 1, 13),
            Suit::Spades => suit_run(Suit::Spades, 1, 13),
            Suit::Diamonds => suit_run(Suit::Diamonds, 2, 10),
            Suit::Hearts => suit_run(Suit::Hearts, 2, 10),
        }),
{
    let pred = of_suit(suit);
    let a = suit_run(Suit::Clubs, 1, 13);
    let b = suit_run(Suit::Spades, 1, 13);
    let c = suit_run(Suit::Diamonds, 2, 10);
    let d = suit_run(Suit::Hearts, 2, 10);
    Seq::filter_distributes_over_add(a, b, pred);
    Seq::filter_distributes_over_add(a + b, c, pred);
    Seq::filter_distributes_over_add(a + b + c, d, pred);
    if suit == Suit::Clubs {
        lemma_filter_all(a, pred);
    } else {
        lemma_filter_none(a, pred);
    }
    if suit == Suit::Spades {
        lemma_filter_all(b, pred);
    } else {
        lemma_filter_none(b, pred);
    }
    if suit == Suit::Diamonds {
        lemma_filter_all(c, pred);
    } else {
        lemma_filter_none(c, pred);
    }
    if suit == Suit::Hearts {
        lemma_filter_all(d, pred);
    } else {
        lemma_filter_none(d, pred);
    }
}

} // verus!
