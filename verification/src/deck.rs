//! The deck: the 52 cards in a fixed order, and their shuffle.

use vstd::prelude::*;
use vstd::multiset::Multiset;
use vstd::seq_lib::{to_multiset_contains, to_multiset_len};
use rand::seq::SliceRandom;
use crate::card::{Card, Rank, Suit};

verus! {

/// Number of cards in a deck.
pub const DECK_SIZE: usize = 52;

/// The card at position `i` of a fresh deck: suits one after the other,
/// each from Ace up to King.
pub open spec fn fresh_card(i: int) -> Card {
    Card { suit: Suit::at(i / 13), rank: Rank::of_ordinal(i % 13 + 1)->0 }
}

/// A fresh deck, in order.
pub open spec fn fresh_deck() -> Seq<Card> {
    Seq::new(52, |i: int| fresh_card(i))
}

/// Position of `card` in a fresh deck.
pub open spec fn fresh_position(card: Card) -> int {
    card.suit.index() * 13 + card.rank.ordinal() - 1
}

/// `cards` holds each of the 52 cards exactly once.
pub open spec fn is_full_deck(cards: Multiset<Card>) -> bool {
    forall|c: Card| cards.count(c) == 1
}

/// `a` holds the cards of `b`, each as often, in some order.
pub open spec fn is_permutation(a: Seq<Card>, b: Seq<Card>) -> bool {
    a.to_multiset() == b.to_multiset()
}

/// A deck of cards, in the order in which they will be dealt.
#[derive(Debug)]
pub struct Deck {
    pub cards: Vec<Card>,
}

impl View for Deck {
    type V = Seq<Card>;

    open spec fn view(&self) -> Seq<Card> {
        self.cards@
    }
}

/// Shuffles `cards` in place by `rand::seq::SliceRandom::shuffle`, drawing
/// from `rand::thread_rng()`. This is the one place where chance enters.
///
/// Believed, not proved: the shuffle only swaps elements of the slice, so
/// the cards afterwards are those from before, each as often, in another
/// order. Which order is left open, and so is how likely each is. The call
/// takes every slice; `thread_rng` gives up only where the system has no
/// entropy to seed it with.
#[verifier::external_body]
fn shuffle_in_place(cards: &mut Vec<Card>)
    ensures
        final(cards)@.to_multiset() == old(cards)@.to_multiset(),
{
    cards.shuffle(&mut rand::thread_rng());
}

impl Deck {
    /// A fresh deck, sorted.
    pub fn new() -> (deck: Deck)
        ensures
            deck@ == fresh_deck(),
    {
        let suits: [Suit; 4] = Suit::all();
        let ranks: [Rank; 13] = Rank::all();
        let mut cards: Vec<Card> = Vec::with_capacity(DECK_SIZE);
        let mut s: usize = 0;
        while s < 4
            invariant
                s <= 4,
                cards@.len() == s * 13,
                forall|k: int| 0 <= k < cards@.len() ==> cards@[k] == fresh_card(k),
                forall|i: int| 0 <= i < 4 ==> suits[i] == Suit::at(i),
                forall|i: int| 0 <= i < 13 ==> Rank::of_ordinal(i + 1) == Some(#[trigger] ranks[i]),
            decreases 4 - s,
        {
            let mut r: usize = 0;
            while r < 13
                invariant
                    s < 4,
                    r <= 13,
                    cards@.len() == s * 13 + r,
                    forall|k: int| 0 <= k < cards@.len() ==> cards@[k] == fresh_card(k),
                    forall|i: int| 0 <= i < 4 ==> suits[i] == Suit::at(i),
                    forall|i: int|
                        0 <= i < 13 ==> Rank::of_ordinal(i + 1) == Some(#[trigger] ranks[i]),
                decreases 13 - r,
            {
                cards.push(Card { suit: suits[s], rank: ranks[r] });
                r += 1;
            }
            s += 1;
        }
        Deck { cards }
    }

    /// Shuffles the deck in place. Afterwards it holds the same cards, each
    /// as often as before, in an order that chance decides: any order can
    /// come out, the one from before too.
    pub fn shuffle(&mut self)
        ensures
            is_permutation(final(self)@, old(self)@),
            final(self)@.len() == old(self)@.len(),
    {
        shuffle_in_place(&mut self.cards);
        proof {
            to_multiset_len(self@);
            to_multiset_len(old(self)@);
        }
    }
}

/// A fresh deck holds each of the 52 cards exactly once: the card `c` at
/// position `fresh_position(c)`, and nowhere else.
pub proof fn fresh_deck_is_full()
    ensures
        fresh_deck().len() == 52,
        forall|c: Card|
            0 <= #[trigger] fresh_position(c) < 52 && fresh_deck()[fresh_position(c)] == c,
        fresh_deck().no_duplicates(),
        is_full_deck(fresh_deck().to_multiset()),
{
    let deck = fresh_deck();
    assert forall|c: Card|
        0 <= #[trigger] fresh_position(c) < 52 && deck[fresh_position(c)] == c by {
        crate::card::rank_adjacency(c.rank);
    }
    deck.lemma_multiset_has_no_duplicates();
    assert forall|c: Card| deck.to_multiset().count(c) == 1 by {
        assert(deck[fresh_position(c)] == c);
        to_multiset_contains(deck, c);
    }
}

/// A shuffled full deck is a full deck, of 52 cards.
pub proof fn permutation_of_fresh_deck_is_full(cards: Seq<Card>)
    requires
        is_permutation(cards, fresh_deck()),
    ensures
        is_full_deck(cards.to_multiset()),
        cards.len() == 52,
        cards.no_duplicates(),
{
    fresh_deck_is_full();
    to_multiset_len(cards);
    to_multiset_len(fresh_deck());
    cards.lemma_multiset_has_no_duplicates_conv();
}

} // verus!
