//! The freecell: a holding place for a single card.

use vstd::prelude::*;
use vstd::multiset::Multiset;
use crate::card::Card;

verus! {

/// A freecell holds no card or one.
#[derive(Debug, Clone, Copy)]
pub struct Freecell {
    pub card: Option<Card>,
}

impl Freecell {
    /// Only an empty freecell takes a card, and it takes any.
    pub open spec fn accepts(self, card: Card) -> bool {
        self.card is None
    }

    /// The freecell holding `card`.
    pub open spec fn with(self, card: Card) -> Freecell {
        Freecell { card: Some(card) }
    }

    /// The freecell after its card is taken: empty.
    pub open spec fn cleared(self) -> Freecell {
        Freecell { card: None }
    }

    /// The card in the freecell, as a multiset.
    pub open spec fn held(self) -> Multiset<Card> {
        match self.card {
            None => Multiset::empty(),
            Some(card) => Multiset::empty().insert(card),
        }
    }

    pub fn new() -> (f: Freecell)
        ensures
            f.card is None,
    {
        Freecell { card: None }
    }

    /// The card held, if any.
    pub fn top(&self) -> (t: Option<Card>)
        ensures
            t == self.card,
    {
        self.card
    }

    /// Whether `card` may be pushed.
    pub fn legal(&self, card: &Card) -> (ok: bool)
        ensures
            ok == self.accepts(*card),
    {
        self.card.is_none()
    }

    /// Puts `card` into the freecell if it is empty. Otherwise the freecell
    /// stays as it was and the card comes back.
    pub fn push(&mut self, card: Card) -> (res: Result<(), Card>)
        ensures
            old(self).accepts(card) ==> res is Ok && *final(self) == old(self).with(card)
                && final(self).held() == old(self).held().insert(card),
            !old(self).accepts(card) ==> res == Err::<(), Card>(card)
                && *final(self) == *old(self),
    {
        if self.legal(&card) {
            self.card = Some(card);
            Ok(())
        } else {
            Err(card)
        }
    }

    /// Takes the card out. Fails on an empty freecell.
    pub fn pop(&mut self) -> (res: Result<Card, ()>)
        ensures
            *final(self) == old(self).cleared(),
            match old(self).card {
                None => res is Err,
                Some(card) => res == Ok::<Card, ()>(card)
                    && old(self).held() == final(self).held().insert(card),
            },
    {
        match self.card {
            None => Err(()),
            Some(card) => {
                self.card = None;
                Ok(card)
            },
        }
    }
}

/// The freecell rule: an occupied freecell takes no card; an empty one
/// takes any card and then holds it.
pub proof fn freecell_rule(f: Freecell, card: Card)
    ensures
        f.card is Some ==> !f.accepts(card),
        f.card is None ==> f.accepts(card) && f.with(card).card == Some(card),
{
}

} // verus!
