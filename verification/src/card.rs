//! The card model: suits, ranks and cards as plain values.

use vstd::prelude::*;

verus! {

/// The colour of a suit.
#[derive(PartialEq, Eq, Structural, Clone, Copy, Debug)]
pub enum Colour {
    Red,
    Black,
}

/// The four suits, in the order in which a fresh deck lists them.
#[derive(PartialEq, Eq, Structural, Clone, Copy, Debug)]
pub enum Suit {
    Hearts,
    Diamonds,
    Clubs,
    Spades,
}

/// The thirteen ranks, Ace low and King high.
#[derive(PartialEq, Eq, Structural, Clone, Copy, Debug)]
pub enum Rank {
    Ace,
    Two,
    Three,
    Four,
    Five,
    Six,
    Seven,
    Eight,
    Nine,
    Ten,
    Jack,
    Queen,
    King,
}

/// A playing card. It has no identity beyond its suit and rank.
#[derive(PartialEq, Eq, Structural, Clone, Copy, Debug)]
pub struct Card {
    pub suit: Suit,
    pub rank: Rank,
}

impl Suit {
    /// Hearts and Diamonds are red, Clubs and Spades are black.
    pub open spec fn spec_colour(&self) -> Colour {
        match self {
            Suit::Hearts | Suit::Diamonds => Colour::Red,
            Suit::Clubs | Suit::Spades => Colour::Black,
        }
    }

    /// Position of the suit in a fresh deck, from 0 to 3.
    pub open spec fn index(self) -> int {
        match self {
            Suit::Hearts => 0,
            Suit::Diamonds => 1,
            Suit::Clubs => 2,
            Suit::Spades => 3,
        }
    }

    /// The suit at position `i`; Spades for every `i` outside 0..3.
    pub open spec fn at(i: int) -> Suit {
        if i == 0 {
            Suit::Hearts
        } else if i == 1 {
            Suit::Diamonds
        } else if i == 2 {
            Suit::Clubs
        } else {
            Suit::Spades
        }
    }

    /// The glyph that stands for the suit on screen.
    pub open spec fn spec_glyph(&self) -> char {
        match self {
            Suit::Hearts => '♥',
            Suit::Diamonds => '♦',
            Suit::Clubs => '♣',
            Suit::Spades => '♠',
        }
    }

    #[verifier::when_used_as_spec(spec_colour)]
    pub fn colour(&self) -> (c: Colour)
        ensures
            c == self.spec_colour(),
    {
        match self {
            Suit::Hearts => Colour::Red,
            Suit::Diamonds => Colour::Red,
            Suit::Clubs => Colour::Black,
            Suit::Spades => Colour::Black,
        }
    }

    /// All suits, in deck order.
    pub fn all() -> (suits: [Suit; 4])
        ensures
            forall|i: int| 0 <= i < 4 ==> suits[i] == Suit::at(i),
    {
        [Suit::Hearts, Suit::Diamonds, Suit::Clubs, Suit::Spades]
    }

    #[verifier::when_used_as_spec(spec_glyph)]
    pub fn glyph(&self) -> (g: char)
        ensures
            g == self.spec_glyph(),
    {
        match self {
            Suit::Hearts => '♥',
            Suit::Diamonds => '♦',
            Suit::Clubs => '♣',
            Suit::Spades => '♠',
        }
    }
}

impl Rank {
    /// The rank as a number: Ace is 1, King is 13.
    pub open spec fn ordinal(self) -> int {
        match self {
            Rank::Ace => 1,
            Rank::Two => 2,
            Rank::Three => 3,
            Rank::Four => 4,
            Rank::Five => 5,
            Rank::Six => 6,
            Rank::Seven => 7,
            Rank::Eight => 8,
            Rank::Nine => 9,
            Rank::Ten => 10,
            Rank::Jack => 11,
            Rank::Queen => 12,
            Rank::King => 13,
        }
    }

    /// The rank with ordinal `n`, if `n` is between 1 and 13.
    pub open spec fn of_ordinal(n: int) -> Option<Rank> {
        if n == 1 {
            Some(Rank::Ace)
        } else if n == 2 {
            Some(Rank::Two)
        } else if n == 3 {
            Some(Rank::Three)
        } else if n == 4 {
            Some(Rank::Four)
        } else if n == 5 {
            Some(Rank::Five)
        } else if n == 6 {
            Some(Rank::Six)
        } else if n == 7 {
            Some(Rank::Seven)
        } else if n == 8 {
            Some(Rank::Eight)
        } else if n == 9 {
            Some(Rank::Nine)
        } else if n == 10 {
            Some(Rank::Ten)
        } else if n == 11 {
            Some(Rank::Jack)
        } else if n == 12 {
            Some(Rank::Queen)
        } else if n == 13 {
            Some(Rank::King)
        } else {
            None
        }
    }

    /// The rank one above, none above King.
    pub open spec fn spec_next(&self) -> Option<Rank> {
        Rank::of_ordinal(self.ordinal() + 1)
    }

    /// The rank one below, none below Ace.
    pub open spec fn spec_prev(&self) -> Option<Rank> {
        Rank::of_ordinal(self.ordinal() - 1)
    }

    /// The glyph that stands for the rank on screen.
    pub open spec fn spec_glyph(&self) -> char {
        match self {
            Rank::Ace => 'A',
            Rank::Two => '2',
            Rank::Three => '3',
            Rank::Four => '4',
            Rank::Five => '5',
            Rank::Six => '6',
            Rank::Seven => '7',
            Rank::Eight => '8',
            Rank::Nine => '9',
            Rank::Ten => 'T',
            Rank::Jack => 'J',
            Rank::Queen => 'Q',
            Rank::King => 'K',
        }
    }

    #[verifier::when_used_as_spec(spec_next)]
    pub fn next(&self) -> (r: Option<Rank>)
        ensures
            r == self.spec_next(),
    {
        match self {
            Rank::Ace => Some(Rank::Two),
            Rank::Two => Some(Rank::Three),
            Rank::Three => Some(Rank::Four),
            Rank::Four => Some(Rank::Five),
            Rank::Five => Some(Rank::Six),
            Rank::Six => Some(Rank::Seven),
            Rank::Seven => Some(Rank::Eight),
            Rank::Eight => Some(Rank::Nine),
            Rank::Nine => Some(Rank::Ten),
            Rank::Ten => Some(Rank::Jack),
            Rank::Jack => Some(Rank::Queen),
            Rank::Queen => Some(Rank::King),
            Rank::King => None,
        }
    }

    #[verifier::when_used_as_spec(spec_prev)]
    pub fn prev(&self) -> (r: Option<Rank>)
        ensures
            r == self.spec_prev(),
    {
        match self {
            Rank::Ace => None,
            Rank::Two => Some(Rank::Ace),
            Rank::Three => Some(Rank::Two),
            Rank::Four => Some(Rank::Three),
            Rank::Five => Some(Rank::Four),
            Rank::Six => Some(Rank::Five),
            Rank::Seven => Some(Rank::Six),
            Rank::Eight => Some(Rank::Seven),
            Rank::Nine => Some(Rank::Eight),
            Rank::Ten => Some(Rank::Nine),
            Rank::Jack => Some(Rank::Ten),
            Rank::Queen => Some(Rank::Jack),
            Rank::King => Some(Rank::Queen),
        }
    }

    /// All ranks, ascending.
    pub fn all() -> (ranks: [Rank; 13])
        ensures
            forall|i: int| 0 <= i < 13 ==> Rank::of_ordinal(i + 1) == Some(#[trigger] ranks[i]),
    {
        [
            Rank::Ace,
            Rank::Two,
            Rank::Three,
            Rank::Four,
            Rank::Five,
            Rank::Six,
            Rank::Seven,
            Rank::Eight,
            Rank::Nine,
            Rank::Ten,
            Rank::Jack,
            Rank::Queen,
            Rank::King,
        ]
    }

    #[verifier::when_used_as_spec(spec_glyph)]
    pub fn glyph(&self) -> (g: char)
        ensures
            g == self.spec_glyph(),
    {
        match self {
            Rank::Ace => 'A',
            Rank::Two => '2',
            Rank::Three => '3',
            Rank::Four => '4',
            Rank::Five => '5',
            Rank::Six => '6',
            Rank::Seven => '7',
            Rank::Eight => '8',
            Rank::Nine => '9',
            Rank::Ten => 'T',
            Rank::Jack => 'J',
            Rank::Queen => 'Q',
            Rank::King => 'K',
        }
    }
}

impl Card {
    /// The colour of the card: that of its suit.
    pub fn colour(&self) -> (c: Colour)
        ensures
            c == self.suit.spec_colour(),
    {
        self.suit.colour()
    }

    /// The two glyphs that show the card: its rank's, then its suit's.
    pub fn glyphs(&self) -> (g: (char, char))
        ensures
            g == (self.rank.spec_glyph(), self.suit.spec_glyph()),
    {
        (self.rank.glyph(), self.suit.glyph())
    }
}

/// `next` and `prev` undo each other, and the ordinal identifies the rank.
pub proof fn rank_adjacency(r: Rank)
    ensures
        1 <= r.ordinal() <= 13,
        Rank::of_ordinal(r.ordinal()) == Some(r),
        r.spec_next() is None <==> r == Rank::King,
        r.spec_prev() is None <==> r == Rank::Ace,
        r.spec_next() matches Some(n) ==> n.ordinal() == r.ordinal() + 1 && n.spec_prev() == Some(r),
        r.spec_prev() matches Some(p) ==> p.ordinal() == r.ordinal() - 1 && p.spec_next() == Some(r),
{
}

} // verus!
