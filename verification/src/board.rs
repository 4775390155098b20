//! The playing field as a mathematical value: what each stack holds, how a
//! move changes it, and why no move gains or loses a card.

use vstd::prelude::*;
use vstd::multiset::Multiset;
use crate::card::Card;
use crate::deal::{dealt_pile, lemma_deal_one_more};
use crate::deck::is_full_deck;
use crate::foundation::{lemma_pop_held, lemma_push_held, Foundation};
use crate::freecell::Freecell;
use crate::tableau::{lemma_pile_popped_held, pile_accepts, pile_popped, pile_top};

verus! {

/// Names one stack of the playing field: a foundation, a freecell or a
/// tableau pile, by its position from the left, counted from 0.
#[derive(PartialEq, Eq, Structural, Clone, Copy, Debug)]
pub enum Address {
    Foundation(usize),
    Freecell(usize),
    Tableau(usize),
}

/// Why a move was not made.
#[derive(PartialEq, Eq, Structural, Clone, Copy, Debug)]
pub enum MoveError {
    /// The source or the destination names no stack.
    InvalidAddress,
    /// The source holds no card.
    EmptySource,
    /// The destination does not take the source's top card.
    IllegalMove,
}

/// The cards of all `parts` together.
pub open spec fn total(parts: Seq<Multiset<Card>>) -> Multiset<Card>
    decreases parts.len(),
{
    if parts.len() == 0 {
        Multiset::empty()
    } else {
        total(parts.drop_last()).add(parts.last())
    }
}

/// The playing field: the freecells, the foundations and the tableau piles,
/// each from left to right.
#[verifier::ext_equal]
pub struct Board {
    pub freecells: Seq<Freecell>,
    pub foundations: Seq<Foundation>,
    pub tableau: Seq<Seq<Card>>,
}

impl Board {
    /// What each freecell holds.
    pub open spec fn freecell_parts(self) -> Seq<Multiset<Card>> {
        Seq::new(self.freecells.len(), |i: int| self.freecells[i].held())
    }

    /// What each foundation stands for.
    pub open spec fn foundation_parts(self) -> Seq<Multiset<Card>> {
        Seq::new(self.foundations.len(), |i: int| self.foundations[i].held())
    }

    /// What each tableau pile holds.
    pub open spec fn tableau_parts(self) -> Seq<Multiset<Card>> {
        Seq::new(self.tableau.len(), |i: int| self.tableau[i].to_multiset())
    }

    /// Every card on the field, each as often as it occurs.
    pub open spec fn cards(self) -> Multiset<Card> {
        total(self.freecell_parts()).add(total(self.foundation_parts())).add(
            total(self.tableau_parts()),
        )
    }

    /// Whether `a` names a stack of this field.
    pub open spec fn resolves(self, a: Address) -> bool {
        match a {
            Address::Foundation(i) => i < self.foundations.len(),
            Address::Freecell(i) => i < self.freecells.len(),
            Address::Tableau(i) => i < self.tableau.len(),
        }
    }

    /// The top card of stack `a`; none where `a` names no stack.
    pub open spec fn top(self, a: Address) -> Option<Card> {
        if !self.resolves(a) {
            None
        } else {
            match a {
                Address::Foundation(i) => self.foundations[i as int].top,
                Address::Freecell(i) => self.freecells[i as int].card,
                Address::Tableau(i) => pile_top(self.tableau[i as int]),
            }
        }
    }

    /// Whether stack `a` takes `card`; never where `a` names no stack.
    pub open spec fn accepts(self, a: Address, card: Card) -> bool {
        self.resolves(a) && match a {
            Address::Foundation(i) => self.foundations[i as int].accepts(card),
            Address::Freecell(i) => self.freecells[i as int].accepts(card),
            Address::Tableau(i) => pile_accepts(self.tableau[i as int], card),
        }
    }

    /// The field with `card` put on stack `a`.
    pub open spec fn pushed(self, a: Address, card: Card) -> Board {
        if !self.resolves(a) {
            self
        } else {
            match a {
                Address::Foundation(i) => Board {
                    foundations: self.foundations.update(
                        i as int,
                        self.foundations[i as int].with(card),
                    ),
                    ..self
                },
                Address::Freecell(i) => Board {
                    freecells: self.freecells.update(i as int, self.freecells[i as int].with(card)),
                    ..self
                },
                Address::Tableau(i) => Board {
                    tableau: self.tableau.update(i as int, self.tableau[i as int].push(card)),
                    ..self
                },
            }
        }
    }

    /// The field with the top card of stack `a` taken off.
    pub open spec fn popped(self, a: Address) -> Board {
        if !self.resolves(a) {
            self
        } else {
            match a {
                Address::Foundation(i) => Board {
                    foundations: self.foundations.update(
                        i as int,
                        self.foundations[i as int].lowered(),
                    ),
                    ..self
                },
                Address::Freecell(i) => Board {
                    freecells: self.freecells.update(i as int, self.freecells[i as int].cleared()),
                    ..self
                },
                Address::Tableau(i) => Board {
                    tableau: self.tableau.update(i as int, pile_popped(self.tableau[i as int])),
                    ..self
                },
            }
        }
    }

    /// How the move of one card from `from` to `to` ends.
    pub open spec fn outcome(self, from: Address, to: Address) -> Result<(), MoveError> {
        if !self.resolves(from) || !self.resolves(to) {
            Err(MoveError::InvalidAddress)
        } else {
            match self.top(from) {
                None => Err(MoveError::EmptySource),
                Some(card) => if self.accepts(to, card) {
                    Ok(())
                } else {
                    Err(MoveError::IllegalMove)
                },
            }
        }
    }

    /// The field after the move of one card from `from` to `to`: unchanged
    /// if the move is refused.
    pub open spec fn moved(self, from: Address, to: Address) -> Board {
        match self.outcome(from, to) {
            Ok(_) => self.popped(from).pushed(to, self.top(from)->0),
            Err(_) => self,
        }
    }

    /// The field after each of `moves` was tried in turn.
    pub open spec fn after(self, moves: Seq<(Address, Address)>) -> Board
        decreases moves.len(),
    {
        if moves.len() == 0 {
            self
        } else {
            self.after(moves.drop_last()).moved(moves.last().0, moves.last().1)
        }
    }

    /// The field right after `cards` were dealt to `piles` tableau piles,
    /// with `cells` empty freecells and `suits` empty foundations.
    pub open spec fn dealt(cards: Seq<Card>, piles: nat, cells: nat, suits: nat) -> Board {
        Board {
            freecells: Seq::new(cells, |i: int| Freecell { card: None }),
            foundations: Seq::new(suits, |i: int| Foundation { top: None }),
            tableau: Seq::new(piles, |p: int| dealt_pile(cards, piles as int, p)),
        }
    }
}

/// One more card in one part is one more card in the total.
pub proof fn lemma_total_insert(parts: Seq<Multiset<Card>>, i: int, card: Card)
    requires
        0 <= i < parts.len(),
    ensures
        total(parts.update(i, parts[i].insert(card))) == total(parts).insert(card),
    decreases parts.len(),
{
    broadcast use vstd::multiset::group_multiset_axioms;

    let grown = parts.update(i, parts[i].insert(card));
    if i == parts.len() - 1 {
        assert(grown.drop_last() =~= parts.drop_last());
    } else {
        assert(grown.drop_last() =~= parts.drop_last().update(i, parts.drop_last()[i].insert(card)));
        lemma_total_insert(parts.drop_last(), i, card);
    }
}

/// Parts that are all empty have an empty total.
pub proof fn lemma_total_of_empty_parts(parts: Seq<Multiset<Card>>)
    requires
        forall|i: int| 0 <= i < parts.len() ==> parts[i] == Multiset::<Card>::empty(),
    ensures
        total(parts) == Multiset::<Card>::empty(),
    decreases parts.len(),
{
    broadcast use vstd::multiset::group_multiset_axioms;

    if parts.len() > 0 {
        lemma_total_of_empty_parts(parts.drop_last());
    }
}

/// A card put on a stack that takes it is one more card on the field, and
/// lies on top of that stack.
pub proof fn lemma_pushed_cards(b: Board, a: Address, card: Card)
    requires
        b.accepts(a, card),
    ensures
        b.pushed(a, card).cards() == b.cards().insert(card),
        b.pushed(a, card).top(a) == Some(card),
{
    broadcast use vstd::multiset::group_multiset_axioms;

    let after = b.pushed(a, card);
    match a {
        Address::Foundation(i) => {
            lemma_push_held(b.foundations[i as int], card);
            lemma_total_insert(b.foundation_parts(), i as int, card);
            assert(after.foundation_parts() =~= b.foundation_parts().update(
                i as int,
                b.foundation_parts()[i as int].insert(card),
            ));
        },
        Address::Freecell(i) => {
            lemma_total_insert(b.freecell_parts(), i as int, card);
            assert(after.freecell_parts() =~= b.freecell_parts().update(
                i as int,
                b.freecell_parts()[i as int].insert(card),
            ));
        },
        Address::Tableau(i) => {
            vstd::seq_lib::to_multiset_build(b.tableau[i as int], card);
            lemma_total_insert(b.tableau_parts(), i as int, card);
            assert(after.tableau_parts() =~= b.tableau_parts().update(
                i as int,
                b.tableau_parts()[i as int].insert(card),
            ));
        },
    }
}

/// A card taken off a stack is one card fewer on the field, and putting it
/// back gives the field from before.
pub proof fn lemma_popped_cards(b: Board, a: Address)
    requires
        b.top(a) is Some,
    ensures
        b.cards() == b.popped(a).cards().insert(b.top(a)->0),
        b.popped(a).pushed(a, b.top(a)->0) == b,
{
    broadcast use vstd::multiset::group_multiset_axioms;

    let after = b.popped(a);
    let card = b.top(a)->0;
    match a {
        Address::Foundation(i) => {
            lemma_pop_held(b.foundations[i as int]);
            lemma_total_insert(after.foundation_parts(), i as int, card);
            assert(b.foundation_parts() =~= after.foundation_parts().update(
                i as int,
                after.foundation_parts()[i as int].insert(card),
            ));
        },
        Address::Freecell(i) => {
            lemma_total_insert(after.freecell_parts(), i as int, card);
            assert(b.freecell_parts() =~= after.freecell_parts().update(
                i as int,
                after.freecell_parts()[i as int].insert(card),
            ));
        },
        Address::Tableau(i) => {
            lemma_pile_popped_held(b.tableau[i as int]);
            lemma_total_insert(after.tableau_parts(), i as int, card);
            assert(b.tableau_parts() =~= after.tableau_parts().update(
                i as int,
                after.tableau_parts()[i as int].insert(card),
            ));
        },
    }
}

/// No stack takes its own top card, so a move from a stack to itself is
/// never made.
pub proof fn stack_refuses_own_top(b: Board, a: Address)
    requires
        b.top(a) is Some,
    ensures
        !b.accepts(a, b.top(a)->0),
        b.outcome(a, a) == Err::<(), MoveError>(MoveError::IllegalMove),
{
    let card = b.top(a)->0;
    crate::card::rank_adjacency(card.rank);
}

/// Taking a card off one stack does not change what another stack takes.
pub proof fn lemma_pop_keeps_other_stacks(b: Board, from: Address, to: Address, card: Card)
    requires
        from != to,
    ensures
        b.popped(from).resolves(to) == b.resolves(to),
        b.popped(from).accepts(to, card) == b.accepts(to, card),
        b.popped(from).top(to) == b.top(to),
{
}

/// A move, made or refused, leaves the cards on the field as they were;
/// a refused move leaves the whole field as it was, and a move that was made
/// has put the source's top card on the destination.
pub proof fn move_conserves_cards(b: Board, from: Address, to: Address)
    ensures
        b.moved(from, to).cards() == b.cards(),
        b.outcome(from, to) is Err ==> b.moved(from, to) == b,
        b.outcome(from, to) is Ok ==> from != to && b.moved(from, to).top(to) == b.top(from),
{
    broadcast use vstd::multiset::group_multiset_axioms;

    if b.outcome(from, to) is Ok {
        let card = b.top(from)->0;
        if from == to {
            stack_refuses_own_top(b, from);
        }
        lemma_popped_cards(b, from);
        lemma_pop_keeps_other_stacks(b, from, to, card);
        lemma_pushed_cards(b.popped(from), to, card);
    }
}

/// Whatever moves are tried, in whatever order, made or refused, the cards
/// on the field stay the same: none is lost and none is doubled. A field
/// that held each of the 52 cards once still does.
pub proof fn moves_conserve_cards(b: Board, moves: Seq<(Address, Address)>)
    ensures
        b.after(moves).cards() == b.cards(),
        is_full_deck(b.cards()) ==> is_full_deck(b.after(moves).cards()),
    decreases moves.len(),
{
    if moves.len() > 0 {
        moves_conserve_cards(b, moves.drop_last());
        move_conserves_cards(b.after(moves.drop_last()), moves.last().0, moves.last().1);
    }
}

/// Dealing puts every card of the deck on the field, as often as the deck
/// holds it, and all of them in the tableau.
pub proof fn deal_conserves_cards(cards: Seq<Card>, piles: nat, cells: nat, suits: nat)
    requires
        piles > 0,
    ensures
        Board::dealt(cards, piles, cells, suits).cards() == cards.to_multiset(),
{
    broadcast use vstd::multiset::group_multiset_axioms;

    let b = Board::dealt(cards, piles, cells, suits);
    lemma_total_of_empty_parts(b.freecell_parts());
    lemma_total_of_empty_parts(b.foundation_parts());
    lemma_dealt_total(cards, piles);
    assert(b.tableau_parts() =~= dealt_parts(cards, piles));
}

/// What each of `piles` tableau piles holds once `cards` are dealt.
pub open spec fn dealt_parts(cards: Seq<Card>, piles: nat) -> Seq<Multiset<Card>> {
    Seq::new(piles, |p: int| dealt_pile(cards, piles as int, p).to_multiset())
}

/// The piles together hold the cards that were dealt.
pub proof fn lemma_dealt_total(cards: Seq<Card>, piles: nat)
    requires
        piles > 0,
    ensures
        total(dealt_parts(cards, piles)) == cards.to_multiset(),
    decreases cards.len(),
{
    broadcast use vstd::multiset::group_multiset_axioms;

    let n = piles as int;
    if cards.len() == 0 {
        assert forall|p: int| 0 <= p < piles implies dealt_parts(cards, piles)[p]
            == Multiset::<Card>::empty() by {
            vstd::arithmetic::div_mod::lemma_fundamental_div_mod_converse(0, n, 0, 0);
            lemma_empty_seq_holds_nothing(dealt_pile(cards, n, p));
        }
        lemma_total_of_empty_parts(dealt_parts(cards, piles));
        lemma_empty_seq_holds_nothing(cards);
    } else {
        let fewer = cards.drop_last();
        let card = cards.last();
        assert(fewer.push(card) =~= cards);
        lemma_dealt_total(fewer, piles);
        let turn = (fewer.len() % piles) as int;
        vstd::arithmetic::div_mod::lemma_mod_bound(fewer.len() as int, n);
        assert forall|p: int| 0 <= p < piles implies dealt_parts(cards, piles)[p] == if p == turn {
            dealt_parts(fewer, piles)[p].insert(card)
        } else {
            dealt_parts(fewer, piles)[p]
        } by {
            lemma_deal_one_more(fewer, card, n, p);
            vstd::seq_lib::to_multiset_build(dealt_pile(fewer, n, p), card);
        }
        assert(dealt_parts(cards, piles) =~= dealt_parts(fewer, piles).update(
            turn,
            dealt_parts(fewer, piles)[turn].insert(card),
        ));
        lemma_total_insert(dealt_parts(fewer, piles), turn, card);
        vstd::seq_lib::to_multiset_build(fewer, card);
    }
}

/// A sequence without cards holds no card.
pub proof fn lemma_empty_seq_holds_nothing(cards: Seq<Card>)
    requires
        cards.len() == 0,
    ensures
        cards.to_multiset() == Multiset::<Card>::empty(),
{
    vstd::seq_lib::to_multiset_len(cards);
    vstd::multiset::lemma_multiset_empty_len(cards.to_multiset());
}

} // verus!
