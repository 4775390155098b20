//! The tableau pile: a column of cards built downwards in alternating
//! colours.

use vstd::prelude::*;
use vstd::multiset::Multiset;
use vstd::seq_lib::to_multiset_build;
use crate::card::Card;

verus! {

/// The top card of a pile: its last card.
pub open spec fn pile_top(pile: Seq<Card>) -> Option<Card> {
    if pile.len() == 0 {
        None
    } else {
        Some(pile.last())
    }
}

/// An empty pile takes any card. Any other takes a card of the colour
/// opposite to its top card's and exactly one rank below it.
pub open spec fn pile_accepts(pile: Seq<Card>, card: Card) -> bool {
    match pile_top(pile) {
        None => true,
        Some(top) => card.suit.spec_colour() != top.suit.spec_colour()
            && top.rank.spec_prev() == Some(card.rank),
    }
}

/// The pile without its top card; an empty pile stays empty.
pub open spec fn pile_popped(pile: Seq<Card>) -> Seq<Card> {
    if pile.len() == 0 {
        pile
    } else {
        pile.drop_last()
    }
}

/// A tableau pile, bottom card first.
#[derive(Debug)]
pub struct Tableau {
    pub cards: Vec<Card>,
}

impl View for Tableau {
    type V = Seq<Card>;

    open spec fn view(&self) -> Seq<Card> {
        self.cards@
    }
}

impl Tableau {
    /// The cards in the pile, as a multiset.
    pub open spec fn held(&self) -> Multiset<Card> {
        self@.to_multiset()
    }

    pub fn new() -> (t: Tableau)
        ensures
            t@ == Seq::<Card>::empty(),
    {
        Tableau { cards: Vec::new() }
    }

    /// The top card, if any.
    pub fn top(&self) -> (t: Option<Card>)
        ensures
            t == pile_top(self@),
    {
        let n: usize = self.cards.len();
        if n == 0 {
            None
        } else {
            Some(self.cards[n - 1])
        }
    }

    /// Whether `card` may be pushed.
    pub fn legal(&self, card: &Card) -> (ok: bool)
        ensures
            ok == pile_accepts(self@, *card),
    {
        match self.top() {
            None => true,
            Some(top) => {
                card.suit.colour() != top.suit.colour() && match top.rank.prev() {
                    None => false,
                    Some(prev) => card.rank == prev,
                }
            },
        }
    }

    /// Pushes `card` if that is legal. Otherwise the pile stays as it was
    /// and the card comes back.
    pub fn push(&mut self, card: Card) -> (res: Result<(), Card>)
        ensures
            pile_accepts(old(self)@, card) ==> res is Ok && final(self)@ == old(self)@.push(card)
                && final(self).held() == old(self).held().insert(card),
            !pile_accepts(old(self)@, card) ==> res == Err::<(), Card>(card)
                && *final(self) == *old(self),
    {
        if self.legal(&card) {
            self.illegal_push(card);
            Ok(())
        } else {
            Err(card)
        }
    }

    /// Puts `card` on top whatever the pile holds. The dealer uses it.
    pub fn illegal_push(&mut self, card: Card)
        ensures
            final(self)@ == old(self)@.push(card),
            final(self).held() == old(self).held().insert(card),
    {
        proof {
            to_multiset_build(self@, card);
        }
        self.cards.push(card);
    }

    /// Takes the top card off. Fails on an empty pile.
    pub fn pop(&mut self) -> (res: Result<Card, ()>)
        ensures
            final(self)@ == pile_popped(old(self)@),
            match pile_top(old(self)@) {
                None => res is Err,
                Some(top) => res == Ok::<Card, ()>(top)
                    && old(self).held() == final(self).held().insert(top),
            },
    {
        match self.cards.pop() {
            None => Err(()),
            Some(card) => {
                proof {
                    lemma_pile_popped_held(old(self)@);
                }
                Ok(card)
            },
        }
    }
}

/// Popping a pile removes exactly its top card from what it holds, and the
/// card can be put back on top.
pub proof fn lemma_pile_popped_held(pile: Seq<Card>)
    requires
        pile.len() > 0,
    ensures
        pile.to_multiset() == pile_popped(pile).to_multiset().insert(pile.last()),
        pile_popped(pile).push(pile.last()) == pile,
{
    to_multiset_build(pile.drop_last(), pile.last());
}

/// The tableau rule: onto a pile that is not empty goes the card that is
/// exactly one rank below the top card and of the other colour, and no
/// other. An empty pile takes every card.
pub proof fn tableau_rule(pile: Seq<Card>, card: Card)
    ensures
        pile.len() == 0 ==> pile_accepts(pile, card),
        pile.len() > 0 ==> (pile_accepts(pile, card) <==> card.rank.ordinal() + 1
            == pile.last().rank.ordinal() && card.suit.spec_colour()
            != pile.last().suit.spec_colour()),
{
    crate::card::rank_adjacency(card.rank);
    if pile.len() > 0 {
        crate::card::rank_adjacency(pile.last().rank);
    }
}

} // verus!
