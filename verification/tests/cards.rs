use freecell::{address_of_key, Address, Card, Colour, Deck, Rank, Suit, DECK_SIZE};

fn position(card: &Card) -> usize {
    let suit = Suit::all().iter().position(|s| *s == card.suit).unwrap();
    let rank = Rank::all().iter().position(|r| *r == card.rank).unwrap();
    suit * 13 + rank
}

#[test]
fn hearts_and_diamonds_are_red() {
    assert_eq!(Suit::Hearts.colour(), Colour::Red);
    assert_eq!(Suit::Diamonds.colour(), Colour::Red);
}

#[test]
fn clubs_and_spades_are_black() {
    assert_eq!(Suit::Clubs.colour(), Colour::Black);
    assert_eq!(Suit::Spades.colour(), Colour::Black);
}

#[test]
fn next_steps_up_and_stops_at_king() {
    assert_eq!(Rank::Ace.next(), Some(Rank::Two));
    assert_eq!(Rank::Nine.next(), Some(Rank::Ten));
    assert_eq!(Rank::Ten.next(), Some(Rank::Jack));
    assert_eq!(Rank::Queen.next(), Some(Rank::King));
    assert_eq!(Rank::King.next(), None);
}

#[test]
fn prev_steps_down_and_stops_at_ace() {
    assert_eq!(Rank::King.prev(), Some(Rank::Queen));
    assert_eq!(Rank::Jack.prev(), Some(Rank::Ten));
    assert_eq!(Rank::Two.prev(), Some(Rank::Ace));
    assert_eq!(Rank::Ace.prev(), None);
}

#[test]
fn next_and_prev_undo_each_other() {
    for rank in Rank::all() {
        if let Some(up) = rank.next() {
            assert_eq!(up.prev(), Some(rank));
        }
        if let Some(down) = rank.prev() {
            assert_eq!(down.next(), Some(rank));
        }
    }
}

#[test]
fn all_ranks_ascend_from_ace_to_king() {
    let ranks = Rank::all();
    assert_eq!(ranks.len(), 13);
    assert_eq!(ranks[0], Rank::Ace);
    assert_eq!(ranks[12], Rank::King);
    for i in 0..12 {
        assert_eq!(ranks[i].next(), Some(ranks[i + 1]));
    }
}

#[test]
fn all_suits_come_in_deck_order() {
    assert_eq!(Suit::all(), [Suit::Hearts, Suit::Diamonds, Suit::Clubs, Suit::Spades]);
}

#[test]
fn glyphs_of_ranks_and_suits() {
    assert_eq!(Rank::Ace.glyph(), 'A');
    assert_eq!(Rank::Two.glyph(), '2');
    assert_eq!(Rank::Nine.glyph(), '9');
    assert_eq!(Rank::Ten.glyph(), 'T');
    assert_eq!(Rank::Jack.glyph(), 'J');
    assert_eq!(Rank::Queen.glyph(), 'Q');
    assert_eq!(Rank::King.glyph(), 'K');
    assert_eq!(Suit::Hearts.glyph(), '♥');
    assert_eq!(Suit::Diamonds.glyph(), '♦');
    assert_eq!(Suit::Clubs.glyph(), '♣');
    assert_eq!(Suit::Spades.glyph(), '♠');
}

#[test]
fn card_shows_its_rank_then_its_suit() {
    let queen = Card { suit: Suit::Diamonds, rank: Rank::Queen };
    assert_eq!(queen.glyphs(), ('Q', '♦'));
    assert_eq!(queen.colour(), Colour::Red);
    let three = Card { suit: Suit::Clubs, rank: Rank::Three };
    assert_eq!(three.glyphs(), ('3', '♣'));
    assert_eq!(three.colour(), Colour::Black);
}

#[test]
fn fresh_deck_is_sorted_by_suit_then_rank() {
    let deck = Deck::new();
    assert_eq!(deck.cards.len(), DECK_SIZE);
    assert_eq!(deck.cards[0], Card { suit: Suit::Hearts, rank: Rank::Ace });
    assert_eq!(deck.cards[12], Card { suit: Suit::Hearts, rank: Rank::King });
    assert_eq!(deck.cards[13], Card { suit: Suit::Diamonds, rank: Rank::Ace });
    assert_eq!(deck.cards[26], Card { suit: Suit::Clubs, rank: Rank::Ace });
    assert_eq!(deck.cards[35], Card { suit: Suit::Clubs, rank: Rank::Ten });
    assert_eq!(deck.cards[51], Card { suit: Suit::Spades, rank: Rank::King });
    for (i, card) in deck.cards.iter().enumerate() {
        assert_eq!(position(card), i);
    }
}

#[test]
fn shuffle_keeps_every_card_once() {
    let mut deck = Deck::new();
    deck.shuffle();
    assert_eq!(deck.cards.len(), 52);
    let mut seen = [0usize; 52];
    for card in deck.cards.iter() {
        seen[position(card)] += 1;
    }
    assert_eq!(seen, [1usize; 52]);
}

#[test]
fn shuffle_changes_the_order() {
    let mut deck = Deck::new();
    deck.shuffle();
    assert_ne!(deck.cards, Deck::new().cards);
}

#[test]
fn shuffle_of_an_empty_deck_is_empty() {
    let mut deck = Deck { cards: Vec::new() };
    deck.shuffle();
    assert!(deck.cards.is_empty());
}

#[test]
fn keys_name_the_three_rows() {
    assert_eq!(address_of_key('t'), Some(Address::Foundation(0)));
    assert_eq!(address_of_key('y'), Some(Address::Foundation(1)));
    assert_eq!(address_of_key('u'), Some(Address::Foundation(2)));
    assert_eq!(address_of_key('i'), Some(Address::Foundation(3)));
    assert_eq!(address_of_key('q'), Some(Address::Freecell(0)));
    assert_eq!(address_of_key('w'), Some(Address::Freecell(1)));
    assert_eq!(address_of_key('e'), Some(Address::Freecell(2)));
    assert_eq!(address_of_key('r'), Some(Address::Freecell(3)));
    assert_eq!(address_of_key('1'), Some(Address::Tableau(0)));
    assert_eq!(address_of_key('5'), Some(Address::Tableau(4)));
    assert_eq!(address_of_key('8'), Some(Address::Tableau(7)));
}

#[test]
fn other_keys_name_no_stack() {
    assert_eq!(address_of_key('0'), None);
    assert_eq!(address_of_key('9'), None);
    assert_eq!(address_of_key('Q'), None);
    assert_eq!(address_of_key(' '), None);
    assert_eq!(address_of_key('a'), None);
}
