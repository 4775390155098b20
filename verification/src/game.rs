//! The game: the playing field in memory, the deal that starts it, and the
//! move of one card from stack to stack.

use vstd::prelude::*;
use crate::board::{
    deal_conserves_cards, lemma_pop_keeps_other_stacks, move_conserves_cards,
    stack_refuses_own_top, Address, Board, MoveError,
};
use crate::card::{Card, Rank, Suit};
use crate::deal::deal_cards;
use crate::deck::{fresh_deck, is_full_deck, is_permutation, permutation_of_fresh_deck_is_full, Deck};
use crate::foundation::Foundation;
use crate::freecell::Freecell;
use crate::tableau::Tableau;

verus! {

/// Number of freecells.
pub const FREECELL_NUM: usize = 4;

/// Number of foundations: one for each suit.
pub const FOUNDATION_NUM: usize = 4;

/// Number of tableau piles that a new game deals to.
pub const TABLEAU_NUM: usize = 8;

/// What each of `piles` holds, bottom card first.
pub open spec fn pile_views(piles: Seq<Tableau>) -> Seq<Seq<Card>> {
    Seq::new(piles.len(), |i: int| piles[i]@)
}

/// The state of one game.
#[derive(Debug)]
pub struct Game {
    pub freecells: [Freecell; FREECELL_NUM],
    pub foundations: [Foundation; FOUNDATION_NUM],
    pub tableau: Vec<Tableau>,
}

impl View for Game {
    type V = Board;

    open spec fn view(&self) -> Board {
        Board {
            freecells: self.freecells@,
            foundations: self.foundations@,
            tableau: pile_views(self.tableau@),
        }
    }
}

impl Game {
    /// Starts a game from `deck`: its cards go to the eight tableau piles in
    /// turn, the first card to the first pile; freecells and foundations
    /// start empty.
    pub fn from_deck(deck: Deck) -> (game: Game)
        ensures
            game@ == Board::dealt(deck@, TABLEAU_NUM as nat, FREECELL_NUM as nat, FOUNDATION_NUM as nat),
            game@.cards() == deck@.to_multiset(),
    {
        let ghost order = deck@;
        let tableau: Vec<Tableau> = deal_cards(deck.cards, TABLEAU_NUM);
        let game = Game {
            freecells: [Freecell::new(); FREECELL_NUM],
            foundations: [Foundation::new(); FOUNDATION_NUM],
            tableau,
        };
        proof {
            deal_conserves_cards(order, TABLEAU_NUM as nat, FREECELL_NUM as nat, FOUNDATION_NUM as nat);
        }
        game
    }

    /// Starts a game from a fresh deck, shuffled. Which order the shuffle
    /// gives differs from game to game; in every one the field holds each of
    /// the 52 cards exactly once.
    pub fn new() -> (game: Game)
        ensures
            exists|order: Seq<Card>|
                is_permutation(order, fresh_deck()) && game@ == #[trigger] Board::dealt(
                    order,
                    TABLEAU_NUM as nat,
                    FREECELL_NUM as nat,
                    FOUNDATION_NUM as nat,
                ),
            is_full_deck(game@.cards()),
    {
        let mut deck = Deck::new();
        deck.shuffle();
        proof {
            permutation_of_fresh_deck_is_full(deck@);
        }
        Game::from_deck(deck)
    }

    /// Whether `a` names a stack of this game.
    pub fn resolves(&self, a: Address) -> (ok: bool)
        ensures
            ok == self@.resolves(a),
    {
        match a {
            Address::Foundation(i) => i < FOUNDATION_NUM,
            Address::Freecell(i) => i < FREECELL_NUM,
            Address::Tableau(i) => i < self.tableau.len(),
        }
    }

    /// The top card of stack `a`, if `a` names a stack and it holds a card.
    pub fn top(&self, a: Address) -> (t: Option<Card>)
        ensures
            t == self@.top(a),
    {
        if !self.resolves(a) {
            return None;
        }
        match a {
            Address::Foundation(i) => self.foundations[i].top(),
            Address::Freecell(i) => self.freecells[i].top(),
            Address::Tableau(i) => self.tableau[i].top(),
        }
    }

    /// Whether stack `a` takes `card`. No card goes where `a` names no
    /// stack.
    pub fn legal_push(&self, a: Address, card: &Card) -> (ok: bool)
        ensures
            ok == self@.accepts(a, *card),
    {
        if !self.resolves(a) {
            return false;
        }
        match a {
            Address::Foundation(i) => self.foundations[i].legal(card),
            Address::Freecell(i) => self.freecells[i].legal(card),
            Address::Tableau(i) => self.tableau[i].legal(card),
        }
    }

    /// Puts `card` on stack `a` if that stack takes it. Otherwise the game
    /// stays as it was and the card comes back.
    fn push(&mut self, a: Address, card: Card) -> (res: Result<(), Card>)
        ensures
            old(self)@.accepts(a, card) ==> res is Ok && final(self)@ == old(self)@.pushed(a, card),
            !old(self)@.accepts(a, card) ==> res == Err::<(), Card>(card)
                && final(self)@ == old(self)@,
    {
        if !self.resolves(a) {
            return Err(card);
        }
        match a {
            Address::Foundation(i) => self.foundations[i].push(card),
            Address::Freecell(i) => self.freecells[i].push(card),
            Address::Tableau(i) => self.tableau[i].push(card),
        }
    }

    /// Takes the top card off stack `a`. Fails, and changes nothing, where
    /// `a` names no stack or the stack is empty.
    fn pop(&mut self, a: Address) -> (res: Result<Card, ()>)
        ensures
            match old(self)@.top(a) {
                None => res is Err && final(self)@ == old(self)@,
                Some(card) => res == Ok::<Card, ()>(card) && final(self)@ == old(self)@.popped(a),
            },
    {
        if !self.resolves(a) {
            return Err(());
        }
        match a {
            Address::Foundation(i) => self.foundations[i].pop(),
            Address::Freecell(i) => self.freecells[i].pop(),
            Address::Tableau(i) => self.tableau[i].pop(),
        }
    }

    /// Moves the top card of `from` onto `to`. The move is checked before
    /// anything changes: a refused move leaves the game as it was, and no
    /// move, made or refused, gains or loses a card.
    pub fn move_card(&mut self, from: Address, to: Address) -> (res: Result<(), MoveError>)
        ensures
            res == old(self)@.outcome(from, to),
            final(self)@ == old(self)@.moved(from, to),
            final(self)@.cards() == old(self)@.cards(),
    {
        proof {
            move_conserves_cards(self@, from, to);
        }
        if !self.resolves(from) || !self.resolves(to) {
            return Err(MoveError::InvalidAddress);
        }
        let card: Card = match self.top(from) {
            None => {
                return Err(MoveError::EmptySource);
            },
            Some(card) => card,
        };
        if !self.legal_push(to, &card) {
            return Err(MoveError::IllegalMove);
        }
        proof {
            if from == to {
                stack_refuses_own_top(self@, from);
            }
            lemma_pop_keeps_other_stacks(self@, from, to, card);
        }
        let _ = self.pop(from);
        let _ = self.push(to, card);
        Ok(())
    }

    /// The highest rank that lies on a foundation of `suit`: the top rank of
    /// the leftmost foundation whose top card is of that suit, none if no
    /// foundation holds the suit.
    pub fn foundation_rank(&self, suit: Suit) -> (rank: Option<Rank>)
        ensures
            rank == placed_rank(self@.foundations, suit, 0),
    {
        let mut i: usize = FOUNDATION_NUM;
        let mut found: Option<Rank> = None;
        while i > 0
            invariant
                i <= FOUNDATION_NUM,
                self@.foundations.len() == FOUNDATION_NUM,
                found == placed_rank(self@.foundations, suit, i as int),
            decreases i,
        {
            i -= 1;
            match self.foundations[i].top() {
                Some(top) => {
                    if top.suit == suit {
                        found = Some(top.rank);
                    }
                },
                None => {},
            }
        }
        found
    }
}

/// The top rank of the first foundation from position `from` on whose top
/// card is of `suit`.
pub open spec fn placed_rank(foundations: Seq<Foundation>, suit: Suit, from: int) -> Option<Rank>
    decreases foundations.len() - from,
{
    if from < 0 || from >= foundations.len() {
        None
    } else {
        match foundations[from].top {
            Some(top) if top.suit == suit => Some(top.rank),
            _ => placed_rank(foundations, suit, from + 1),
        }
    }
}

} // verus!
