//! The keys that name the stacks: one row of the keyboard for each kind.

use vstd::prelude::*;
use crate::board::{Address, Board};
use crate::card::Card;
use crate::game::{FOUNDATION_NUM, FREECELL_NUM, TABLEAU_NUM};

verus! {

/// The stack that `key` names: `t y u i` are the foundations, `q w e r` the
/// freecells and `1` to `8` the tableau piles, each row from left to right.
/// Any other key names none.
pub open spec fn key_address(key: char) -> Option<Address> {
    match key {
        't' => Some(Address::Foundation(0)),
        'y' => Some(Address::Foundation(1)),
        'u' => Some(Address::Foundation(2)),
        'i' => Some(Address::Foundation(3)),
        'q' => Some(Address::Freecell(0)),
        'w' => Some(Address::Freecell(1)),
        'e' => Some(Address::Freecell(2)),
        'r' => Some(Address::Freecell(3)),
        '1' => Some(Address::Tableau(0)),
        '2' => Some(Address::Tableau(1)),
        '3' => Some(Address::Tableau(2)),
        '4' => Some(Address::Tableau(3)),
        '5' => Some(Address::Tableau(4)),
        '6' => Some(Address::Tableau(5)),
        '7' => Some(Address::Tableau(6)),
        '8' => Some(Address::Tableau(7)),
        _ => None,
    }
}

/// The stack that `key` names, if any.
pub fn address_of_key(key: char) -> (a: Option<Address>)
    ensures
        a == key_address(key),
{
    match key {
        't' => Some(Address::Foundation(0)),
        'y' => Some(Address::Foundation(1)),
        'u' => Some(Address::Foundation(2)),
        'i' => Some(Address::Foundation(3)),
        'q' => Some(Address::Freecell(0)),
        'w' => Some(Address::Freecell(1)),
        'e' => Some(Address::Freecell(2)),
        'r' => Some(Address::Freecell(3)),
        '1' => Some(Address::Tableau(0)),
        '2' => Some(Address::Tableau(1)),
        '3' => Some(Address::Tableau(2)),
        '4' => Some(Address::Tableau(3)),
        '5' => Some(Address::Tableau(4)),
        '6' => Some(Address::Tableau(5)),
        '7' => Some(Address::Tableau(6)),
        '8' => Some(Address::Tableau(7)),
        _ => None,
    }
}

/// Two different keys never name the same stack, and every stack that a key
/// names is a stack of a field as the dealer lays it out.
pub proof fn keys_name_distinct_stacks(a: char, b: char, cards: Seq<Card>)
    ensures
        key_address(a) is Some && key_address(a) == key_address(b) ==> a == b,
        key_address(a) matches Some(address) ==> Board::dealt(
            cards,
            TABLEAU_NUM as nat,
            FREECELL_NUM as nat,
            FOUNDATION_NUM as nat,
        ).resolves(address),
{
}

} // verus!
