//! Suits, ranks and cards, with the combat value a card contributes.

use vstd::prelude::*;

verus! {

/// The four suits. Clubs and spades are monsters, diamonds are weapons and
/// hearts are potions.
#[derive(Debug, Clone, Copy, PartialEq, Eq, Structural)]
pub enum Suit {
    Clubs,
    Diamonds,
    Hearts,
    Spades,
}

/// The colour a suit is printed in.
#[derive(Debug, Clone, Copy, PartialEq, Eq, Structural)]
pub enum SuitColor {
    Red,
    Gray,
}

impl Suit {
    /// True for the two black suits.
    pub open spec fn is_black(self) -> bool {
        self == Suit::Clubs || self == Suit::Spades
    }

    /// The glyph of the suit, as a specification.
    pub open spec fn spec_symbol(self) -> char {
        match self {
            Suit::Clubs => '♣',
            Suit::Diamonds => '♦',
            Suit::Hearts => '♥',
            Suit::Spades => '♠',
        }
    }

    /// The glyph of the suit.
    pub fn symbol(self) -> (c: char)
        ensures
            c == self.spec_symbol(),
    {
        match self {
            Suit::Clubs => '♣',
            Suit::Diamonds => '♦',
            Suit::Hearts => '♥',
            Suit::Spades => '♠',
        }
    }

    /// Red for diamonds and hearts, gray for clubs and spades.
    pub fn color(self) -> (c: SuitColor)
        ensures
            c == (if self.is_black() {
                SuitColor::Gray
            } else {
                SuitColor::Red
            }),
    {
        match self {
            Suit::Diamonds | Suit::Hearts => SuitColor::Red,
            Suit::Clubs | Suit::Spades => SuitColor::Gray,
        }
    }
}

/// A rank from 1 (ace) to 13 (king). Any `u8` can be stored; values outside
/// 1..=13 name no card and carry no combat value.
#[derive(Debug, Clone, Copy, PartialEq, Eq, PartialOrd, Ord, Structural)]
pub struct Rank(pub u8);

/// Combat value of a rank: the ace counts 14, 2 to 13 count as printed, and
/// anything else counts nothing.
pub open spec fn rank_value(rank: u8) -> u8 {
    if rank == 1 {
        14
    } else if 2 <= rank <= 13 {
        rank
    } else {
        0
    }
}

/// The text printed for a rank.
pub open spec fn rank_label(rank: u8) -> Seq<char> {
    if rank == 1 {
        "A"@
    } else if rank == 2 {
        "2"@
    } else if rank == 3 {
        "3"@
    } else if rank == 4 {
        "4"@
    } else if rank == 5 {
        "5"@
    } else if rank == 6 {
        "6"@
    } else if rank == 7 {
        "7"@
    } else if rank == 8 {
        "8"@
    } else if rank == 9 {
        "9"@
    } else if rank == 10 {
        "10"@
    } else if rank == 11 {
        "J"@
    } else if rank == 12 {
        "Q"@
    } else if rank == 13 {
        "K"@
    } else {
        "?"@
    }
}

impl Rank {
    /// The rank with the given number.
    pub fn new(v: u8) -> (r: Rank)
        ensures
            r.0 == v,
    {
        Rank(v)
    }

    /// The number of the rank.
    pub fn value(self) -> (v: u8)
        ensures
            v == self.0,
    {
        self.0
    }

    /// "A", "2" to "10", "J", "Q", "K"; "?" for a rank that names no card.
    pub fn label(self) -> (s: &'static str)
        ensures
            s@ == rank_label(self.0),
    {
        match self.0 {
            1 => "A",
            2 => "2",
            3 => "3",
            4 => "4",
            5 => "5",
            6 => "6",
            7 => "7",
            8 => "8",
            9 => "9",
            10 => "10",
            11 => "J",
            12 => "Q",
            13 => "K",
            _ => "?",
        }
    }
}

/// A playing card. Cards are plain values and are copied wherever they go.
#[derive(Debug, Clone, Copy, PartialEq, Eq, Structural)]
pub struct Card {
    pub suit: Suit,
    pub rank: Rank,
}

impl Card {
    /// The card of the given suit and rank.
    pub fn new(suit: Suit, rank: Rank) -> (c: Card)
        ensures
            c.suit == suit,
            c.rank == rank,
    {
        Card { suit, rank }
    }

    /// The card in print: the label of its rank, then the glyph of its suit.
    pub open spec fn spec_text(&self) -> Seq<char> {
        rank_label(self.rank.0).push(self.suit.spec_symbol())
    }

    /// The card in print, as in "10♠".
    pub fn text(&self) -> (s: String)
        ensures
            s@ == self.spec_text(),
    {
        let mut s = self.rank.label().to_string();
        s.push(self.suit.symbol());
        s
    }

    /// A card is a monster when its suit is black.
    pub open spec fn spec_is_monster(&self) -> bool {
        self.suit.is_black()
    }

    /// Combat value of the card: see [`rank_value`].
    pub open spec fn spec_monster_value(&self) -> u8 {
        rank_value(self.rank.0)
    }

    /// What the card adds to the unresolved-threat penalty: its combat value
    /// if it is a monster, nothing otherwise.
    pub open spec fn threat(&self) -> int {
        if self.spec_is_monster() {
            self.spec_monster_value() as int
        } else {
            0
        }
    }

    /// Whether the card is a monster: a club or a spade.
    #[verifier::when_used_as_spec(spec_is_monster)]
    pub fn is_monster(&self) -> (b: bool)
        ensures
            b == self.spec_is_monster(),
    {
        match self.suit {
            Suit::Clubs | Suit::Spades => true,
            _ => false,
        }
    }

    /// The strength of a monster, the power of a weapon or the healing of a
    /// potion, depending on the suit.
    #[verifier::when_used_as_spec(spec_monster_value)]
    pub fn monster_value(&self) -> (v: u8)
        ensures
            v == self.spec_monster_value(),
            v <= 14,
    {
        let r = self.rank.value();
        if r == 1 {
            14
        } else if 2 <= r && r <= 13 {
            r
        } else {
            0
        }
    }
}

} // verus!
