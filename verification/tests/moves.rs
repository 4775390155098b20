use freecell::{Address, Card, Deck, Foundation, Freecell, Game, MoveError, Rank, Suit, Tableau};

fn card(suit: Suit, rank: Rank) -> Card {
    Card { suit, rank }
}

fn position(card: &Card) -> usize {
    let suit = Suit::all().iter().position(|s| *s == card.suit).unwrap();
    let rank = Rank::all().iter().position(|r| *r == card.rank).unwrap();
    suit * 13 + rank
}

/// How often each of the 52 cards lies on the field; a foundation counts
/// for every card of its suit up to its top.
fn census(game: &Game) -> [usize; 52] {
    let mut seen = [0usize; 52];
    for cell in game.freecells.iter() {
        if let Some(c) = cell.card {
            seen[position(&c)] += 1;
        }
    }
    for foundation in game.foundations.iter() {
        if let Some(top) = foundation.top {
            for at in position(&card(top.suit, Rank::Ace))..=position(&top) {
                seen[at] += 1;
            }
        }
    }
    for pile in game.tableau.iter() {
        for c in pile.cards.iter() {
            seen[position(c)] += 1;
        }
    }
    seen
}

/// A deal with the Ace of Hearts on top of the first pile and the King of
/// Spades on top of the second.
fn rigged_game() -> Game {
    let mut deck = Deck::new();
    deck.cards.swap(0, 48);
    deck.cards.swap(49, 51);
    Game::from_deck(deck)
}

fn small_game() -> Game {
    Game {
        freecells: [Freecell::new(); 4],
        foundations: [Foundation::new(); 4],
        tableau: vec![
            Tableau { cards: vec![card(Suit::Spades, Rank::Nine)] },
            Tableau { cards: vec![card(Suit::Hearts, Rank::Eight)] },
            Tableau { cards: vec![] },
        ],
    }
}

#[test]
fn end_to_end() {
    let mut game = Game::new();
    for pile in 0..8 {
        assert_eq!(
            game.move_card(Address::Freecell(0), Address::Tableau(pile)),
            Err(MoveError::EmptySource)
        );
    }
    assert_eq!(census(&game), [1usize; 52]);

    let mut game = rigged_game();
    assert_eq!(game.top(Address::Tableau(0)), Some(card(Suit::Hearts, Rank::Ace)));
    assert_eq!(game.top(Address::Tableau(1)), Some(card(Suit::Spades, Rank::King)));
    assert_eq!(game.move_card(Address::Tableau(0), Address::Foundation(0)), Ok(()));
    assert_eq!(game.foundations[0].top, Some(card(Suit::Hearts, Rank::Ace)));
    assert_eq!(game.tableau[0].cards.len(), 6);
    assert_eq!(
        game.move_card(Address::Tableau(1), Address::Foundation(0)),
        Err(MoveError::IllegalMove)
    );
    assert_eq!(game.foundations[0].top, Some(card(Suit::Hearts, Rank::Ace)));
    assert_eq!(game.top(Address::Tableau(1)), Some(card(Suit::Spades, Rank::King)));
    assert_eq!(game.tableau[1].cards.len(), 7);
    assert_eq!(census(&game), [1usize; 52]);
}

#[test]
fn move_between_tableau_piles() {
    let mut game = small_game();
    assert_eq!(game.move_card(Address::Tableau(1), Address::Tableau(0)), Ok(()));
    assert_eq!(
        game.tableau[0].cards,
        vec![card(Suit::Spades, Rank::Nine), card(Suit::Hearts, Rank::Eight)]
    );
    assert!(game.tableau[1].cards.is_empty());
    assert_eq!(game.move_card(Address::Tableau(0), Address::Tableau(2)), Ok(()));
    assert_eq!(game.tableau[2].cards, vec![card(Suit::Hearts, Rank::Eight)]);
    assert_eq!(game.tableau[0].cards, vec![card(Suit::Spades, Rank::Nine)]);
}

#[test]
fn move_to_a_freecell_and_back() {
    let mut game = small_game();
    assert_eq!(game.move_card(Address::Tableau(1), Address::Freecell(2)), Ok(()));
    assert_eq!(game.freecells[2].card, Some(card(Suit::Hearts, Rank::Eight)));
    assert_eq!(
        game.move_card(Address::Tableau(0), Address::Freecell(2)),
        Err(MoveError::IllegalMove)
    );
    assert_eq!(game.tableau[0].cards, vec![card(Suit::Spades, Rank::Nine)]);
    assert_eq!(game.move_card(Address::Freecell(2), Address::Tableau(0)), Ok(()));
    assert_eq!(game.freecells[2].card, None);
    assert_eq!(game.top(Address::Tableau(0)), Some(card(Suit::Hearts, Rank::Eight)));
}

#[test]
fn move_off_a_foundation_lowers_it() {
    let mut game = small_game();
    game.foundations[1] = Foundation { top: Some(card(Suit::Clubs, Rank::Three)) };
    assert_eq!(game.move_card(Address::Foundation(1), Address::Freecell(0)), Ok(()));
    assert_eq!(game.freecells[0].card, Some(card(Suit::Clubs, Rank::Three)));
    assert_eq!(game.foundations[1].top, Some(card(Suit::Clubs, Rank::Two)));
    assert_eq!(game.move_card(Address::Freecell(0), Address::Foundation(1)), Ok(()));
    assert_eq!(game.foundations[1].top, Some(card(Suit::Clubs, Rank::Three)));
}

#[test]
fn address_that_names_no_stack_is_invalid() {
    let mut game = small_game();
    let inside = Address::Tableau(0);
    for outside in [
        Address::Tableau(3),
        Address::Freecell(4),
        Address::Foundation(4),
        Address::Tableau(usize::MAX),
    ] {
        assert!(!game.resolves(outside));
        assert_eq!(game.move_card(outside, inside), Err(MoveError::InvalidAddress));
        assert_eq!(game.move_card(inside, outside), Err(MoveError::InvalidAddress));
        assert_eq!(game.top(outside), None);
        assert!(!game.legal_push(outside, &card(Suit::Hearts, Rank::Ace)));
    }
    assert_eq!(game.tableau[0].cards, vec![card(Suit::Spades, Rank::Nine)]);
}

#[test]
fn invalid_address_comes_before_empty_source() {
    let mut game = small_game();
    assert_eq!(
        game.move_card(Address::Freecell(0), Address::Tableau(9)),
        Err(MoveError::InvalidAddress)
    );
    assert_eq!(
        game.move_card(Address::Freecell(0), Address::Tableau(0)),
        Err(MoveError::EmptySource)
    );
    assert_eq!(
        game.move_card(Address::Tableau(2), Address::Tableau(0)),
        Err(MoveError::EmptySource)
    );
    assert_eq!(
        game.move_card(Address::Foundation(3), Address::Tableau(0)),
        Err(MoveError::EmptySource)
    );
}

#[test]
fn move_from_a_stack_to_itself_is_refused() {
    let mut game = small_game();
    game.freecells[0] = Freecell { card: Some(card(Suit::Diamonds, Rank::Two)) };
    game.foundations[0] = Foundation { top: Some(card(Suit::Clubs, Rank::Ace)) };
    for a in [Address::Tableau(0), Address::Freecell(0), Address::Foundation(0)] {
        assert_eq!(game.move_card(a, a), Err(MoveError::IllegalMove));
    }
    assert_eq!(game.move_card(Address::Tableau(2), Address::Tableau(2)), Err(MoveError::EmptySource));
    assert_eq!(game.tableau[0].cards, vec![card(Suit::Spades, Rank::Nine)]);
    assert_eq!(game.freecells[0].card, Some(card(Suit::Diamonds, Rank::Two)));
    assert_eq!(game.foundations[0].top, Some(card(Suit::Clubs, Rank::Ace)));
}

#[test]
fn refused_move_changes_nothing() {
    let mut game = small_game();
    game.freecells[1] = Freecell { card: Some(card(Suit::Hearts, Rank::King)) };
    for to in [Address::Tableau(1), Address::Foundation(0), Address::Freecell(1)] {
        assert!(!game.legal_push(to, &card(Suit::Spades, Rank::Nine)));
        assert_eq!(game.move_card(Address::Tableau(0), to), Err(MoveError::IllegalMove));
        assert_eq!(game.tableau[0].cards, vec![card(Suit::Spades, Rank::Nine)]);
        assert_eq!(game.tableau[1].cards, vec![card(Suit::Hearts, Rank::Eight)]);
        assert_eq!(game.top(Address::Foundation(0)), None);
        assert_eq!(game.top(Address::Freecell(1)), Some(card(Suit::Hearts, Rank::King)));
    }
}

#[test]
fn legal_push_by_address() {
    let game = small_game();
    assert!(game.legal_push(Address::Tableau(0), &card(Suit::Diamonds, Rank::Eight)));
    assert!(!game.legal_push(Address::Tableau(0), &card(Suit::Clubs, Rank::Eight)));
    assert!(game.legal_push(Address::Tableau(2), &card(Suit::Clubs, Rank::King)));
    assert!(game.legal_push(Address::Foundation(3), &card(Suit::Clubs, Rank::Ace)));
    assert!(!game.legal_push(Address::Foundation(3), &card(Suit::Clubs, Rank::Two)));
    assert!(game.legal_push(Address::Freecell(0), &card(Suit::Clubs, Rank::Two)));
}

#[test]
fn every_move_keeps_the_52_cards() {
    let mut game = rigged_game();
    let mut stacks = Vec::new();
    for i in 0..9 {
        stacks.push(Address::Tableau(i));
    }
    for i in 0..5 {
        stacks.push(Address::Freecell(i));
        stacks.push(Address::Foundation(i));
    }
    let mut made = 0;
    for round in 0..4 {
        for (i, from) in stacks.iter().enumerate() {
            for (j, to) in stacks.iter().enumerate() {
                if (i + j + round) % 3 == 0 {
                    if game.move_card(*from, *to).is_ok() {
                        made += 1;
                    }
                    assert_eq!(census(&game), [1usize; 52]);
                }
            }
        }
    }
    assert!(made > 0);
}

#[test]
fn new_game_holds_each_card_once() {
    let game = Game::new();
    assert_eq!(census(&game), [1usize; 52]);
}

#[test]
fn foundation_rank_by_suit() {
    let mut game = small_game();
    assert_eq!(game.foundation_rank(Suit::Hearts), None);
    game.foundations[2] = Foundation { top: Some(card(Suit::Hearts, Rank::Five)) };
    game.foundations[0] = Foundation { top: Some(card(Suit::Spades, Rank::Ace)) };
    assert_eq!(game.foundation_rank(Suit::Hearts), Some(Rank::Five));
    assert_eq!(game.foundation_rank(Suit::Spades), Some(Rank::Ace));
    assert_eq!(game.foundation_rank(Suit::Clubs), None);
    assert_eq!(game.foundation_rank(Suit::Diamonds), None);
}
