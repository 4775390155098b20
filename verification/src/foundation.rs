//! The foundation: the ascending run of one suit, Ace upwards, kept as its
//! top card alone.

use vstd::prelude::*;
use vstd::multiset::Multiset;
use crate::card::{Card, Rank, Suit};

verus! {

/// The cards of `suit` whose ordinal is at most `n`: the run from Ace up to
/// the rank with ordinal `n`.
pub open spec fn suit_run(suit: Suit, n: int) -> Multiset<Card>
    decreases n,
{
    if n <= 0 {
        Multiset::empty()
    } else {
        match Rank::of_ordinal(n) {
            Some(rank) => suit_run(suit, n - 1).insert(Card { suit, rank }),
            None => suit_run(suit, n - 1),
        }
    }
}

/// A foundation holds nothing, or stands for every card of one suit from
/// the Ace up to its top card.
#[derive(Debug, Clone, Copy)]
pub struct Foundation {
    pub top: Option<Card>,
}

impl Foundation {
    /// An empty foundation takes any Ace; any other takes the card of its
    /// own suit that is one rank above its top.
    pub open spec fn accepts(self, card: Card) -> bool {
        match self.top {
            None => card.rank == Rank::Ace,
            Some(top) => card.suit == top.suit && top.rank.spec_next() == Some(card.rank),
        }
    }

    /// The foundation with `card` as its top.
    pub open spec fn with(self, card: Card) -> Foundation {
        Foundation { top: Some(card) }
    }

    /// The foundation one rank lower: empty if it was empty or held only
    /// an Ace, else topped by the same suit's next lower rank.
    pub open spec fn lowered(self) -> Foundation {
        match self.top {
            None => self,
            Some(top) => match top.rank.spec_prev() {
                None => Foundation { top: None },
                Some(rank) => Foundation { top: Some(Card { suit: top.suit, rank }) },
            },
        }
    }

    /// Every card that the foundation stands for.
    pub open spec fn held(self) -> Multiset<Card> {
        match self.top {
            None => Multiset::empty(),
            Some(top) => suit_run(top.suit, top.rank.ordinal()),
        }
    }

    pub fn new() -> (f: Foundation)
        ensures
            f.top is None,
    {
        Foundation { top: None }
    }

    /// The top card, if any.
    pub fn top(&self) -> (t: Option<Card>)
        ensures
            t == self.top,
    {
        self.top
    }

    /// Whether `card` may be pushed.
    pub fn legal(&self, card: &Card) -> (ok: bool)
        ensures
            ok == self.accepts(*card),
    {
        match &self.top {
            None => card.rank == Rank::Ace,
            Some(top) => {
                card.suit == top.suit && match top.rank.next() {
                    None => false,
                    Some(next) => card.rank == next,
                }
            },
        }
    }

    /// Pushes `card` if that is legal. Otherwise the foundation stays as it
    /// was and the card comes back.
    pub fn push(&mut self, card: Card) -> (res: Result<(), Card>)
        ensures
            old(self).accepts(card) ==> res is Ok && *final(self) == old(self).with(card)
                && final(self).held() == old(self).held().insert(card),
            !old(self).accepts(card) ==> res == Err::<(), Card>(card)
                && *final(self) == *old(self),
    {
        if self.legal(&card) {
            proof {
                lemma_push_held(*self, card);
            }
            self.top = Some(card);
            Ok(())
        } else {
            Err(card)
        }
    }

    /// Takes the top card off: the foundation then stands one rank lower.
    /// Fails on an empty foundation, which stays empty.
    pub fn pop(&mut self) -> (res: Result<Card, ()>)
        ensures
            *final(self) == old(self).lowered(),
            match old(self).top {
                None => res is Err,
                Some(top) => res == Ok::<Card, ()>(top)
                    && old(self).held() == final(self).held().insert(top),
            },
    {
        match self.top {
            None => Err(()),
            Some(card) => {
                proof {
                    lemma_pop_held(*self);
                }
                self.top = match card.rank.prev() {
                    None => None,
                    Some(rank) => Some(Card { suit: card.suit, rank }),
                };
                Ok(card)
            },
        }
    }
}

/// A legal push adds exactly the pushed card to what the foundation holds.
pub proof fn lemma_push_held(f: Foundation, card: Card)
    requires
        f.accepts(card),
    ensures
        f.with(card).held() == f.held().insert(card),
{
    reveal_with_fuel(suit_run, 2);
}

/// Lowering a foundation removes exactly its top card from what it holds.
pub proof fn lemma_pop_held(f: Foundation)
    requires
        f.top is Some,
    ensures
        f.held() == f.lowered().held().insert(f.top->0),
        f.lowered().accepts(f.top->0),
        f.lowered().with(f.top->0) == f,
{
    reveal_with_fuel(suit_run, 2);
}

/// The foundation rule: an empty foundation takes the Aces and nothing
/// else; one that is not empty takes the card of its top card's suit that
/// is exactly one rank above it, and no other.
pub proof fn foundation_rule(f: Foundation, card: Card)
    ensures
        f.top is None ==> (f.accepts(card) <==> card.rank == Rank::Ace),
        f.top matches Some(top) ==> (f.accepts(card) <==> card.suit == top.suit
            && card.rank.ordinal() == top.rank.ordinal() + 1),
{
    crate::card::rank_adjacency(card.rank);
    if f.top is Some {
        crate::card::rank_adjacency(f.top->0.rank);
    }
}

} // verus!
