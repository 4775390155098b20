//! Rule engine for a FreeCell-style solitaire: cards, the three kinds of
//! stack with their push rules, the playing field, and the move transaction.

pub mod board;
pub mod card;
pub mod deal;
pub mod deck;
pub mod foundation;
pub mod freecell;
pub mod game;
pub mod keys;
pub mod tableau;

pub use board::{Address, MoveError};
pub use card::{Card, Colour, Rank, Suit};
pub use deal::deal_cards;
pub use deck::{Deck, DECK_SIZE};
pub use foundation::Foundation;
pub use freecell::Freecell;
pub use game::{Game, FOUNDATION_NUM, FREECELL_NUM, TABLEAU_NUM};
pub use keys::address_of_key;
pub use tableau::Tableau;
