//! Dealing: cards go to the piles in turn, card `i` to pile `i mod n`.

use vstd::prelude::*;
use vstd::arithmetic::div_mod::{lemma_fundamental_div_mod, lemma_fundamental_div_mod_converse, lemma_mod_bound};
use vstd::arithmetic::mul::{lemma_mul_inequality, lemma_mul_is_distributive_add_other_way};
use crate::card::Card;
use crate::tableau::Tableau;

verus! {

/// How many of `len` cards pile `p` of `n` gets: the piles before the
/// remainder get one more than the others.
pub open spec fn dealt_len(len: int, n: int, p: int) -> int {
    len / n + if p < len % n {
        1int
    } else {
        0int
    }
}

/// What pile `p` of `n` holds, bottom first, once `cards` are dealt: the
/// cards at positions `p`, `p + n`, `p + 2n`, and so on.
pub open spec fn dealt_pile(cards: Seq<Card>, n: int, p: int) -> Seq<Card> {
    Seq::new(dealt_len(cards.len() as int, n, p) as nat, |k: int| cards[p + k * n])
}

/// Dealing one more card changes the one pile whose turn it is, which gets
/// the card on top.
pub proof fn lemma_deal_one_more(cards: Seq<Card>, card: Card, n: int, p: int)
    requires
        0 <= p < n,
    ensures
        dealt_pile(cards.push(card), n, p) == if p == cards.len() % (n as nat) {
            dealt_pile(cards, n, p).push(card)
        } else {
            dealt_pile(cards, n, p)
        },
{
    let len = cards.len() as int;
    let q = len / n;
    let r = len % n;
    lemma_fundamental_div_mod(len, n);
    lemma_mod_bound(len, n);
    assert(len == q * n + r) by {
        vstd::arithmetic::mul::lemma_mul_is_commutative(n, q);
    }
    if r + 1 < n {
        lemma_fundamental_div_mod_converse(len + 1, n, q, r + 1);
    } else {
        lemma_mul_is_distributive_add_other_way(n, q, 1);
        lemma_fundamental_div_mod_converse(len + 1, n, q + 1, 0);
    }
    let before = dealt_pile(cards, n, p);
    let after = dealt_pile(cards.push(card), n, p);
    assert forall|k: int| 0 <= k < before.len() implies #[trigger] after[k] == before[k] by {
        lemma_mul_inequality(0, k, n);
        if p < r {
            lemma_mul_inequality(k, q, n);
        } else {
            lemma_mul_inequality(k, q - 1, n);
            lemma_mul_is_distributive_add_other_way(n, q - 1, 1);
        }
    }
}

/// Fifty-two cards dealt to eight piles: the first four piles get seven
/// cards, the other four get six, and pile `p` holds the cards at positions
/// `p`, `p + 8`, `p + 16`, and so on, in that order.
pub proof fn deal_of_52_to_8(cards: Seq<Card>)
    requires
        cards.len() == 52,
    ensures
        forall|p: int|
            0 <= p < 8 ==> (#[trigger] dealt_pile(cards, 8, p)).len() == if p < 4 {
                7int
            } else {
                6int
            },
        forall|p: int, k: int|
            0 <= p < 8 && 0 <= k < dealt_pile(cards, 8, p).len() ==> 0 <= p + 8 * k < 52
                && #[trigger] dealt_pile(cards, 8, p)[k] == cards[p + 8 * k],
{
}

/// Deals `cards` to `num_piles` piles in turn, the first card to the first
/// pile.
pub fn deal_cards(cards: Vec<Card>, num_piles: usize) -> (piles: Vec<Tableau>)
    requires
        num_piles > 0 || cards@.len() == 0,
    ensures
        piles@.len() == num_piles,
        forall|p: int|
            0 <= p < num_piles ==> (#[trigger] piles@[p])@ == dealt_pile(
                cards@,
                num_piles as int,
                p,
            ),
{
    let mut piles: Vec<Tableau> = Vec::new();
    let mut made: usize = 0;
    while made < num_piles
        invariant
            made <= num_piles,
            piles@.len() == made,
            forall|p: int| 0 <= p < made ==> (#[trigger] piles@[p])@ == Seq::<Card>::empty(),
        decreases num_piles - made,
    {
        piles.push(Tableau::new());
        made += 1;
    }
    let ghost n = num_piles as int;
    assert forall|p: int| 0 <= p < num_piles implies (#[trigger] piles@[p])@ == dealt_pile(
        cards@.take(0),
        n,
        p,
    ) by {
        lemma_fundamental_div_mod_converse(0, n, 0, 0);
    }
    let mut i: usize = 0;
    while i < cards.len()
        invariant
            i <= cards@.len(),
            num_piles > 0 || cards@.len() == 0,
            n == num_piles,
            piles@.len() == num_piles,
            forall|p: int|
                0 <= p < num_piles ==> (#[trigger] piles@[p])@ == dealt_pile(cards@.take(i as int), n, p),
        decreases cards@.len() - i,
    {
        let turn: usize = i % num_piles;
        let card: Card = cards[i];
        let ghost dealt = cards@.take(i as int);
        let ghost before = piles@;
        proof {
            assert(dealt.push(card) =~= cards@.take(i + 1));
            assert forall|p: int| 0 <= p < num_piles implies dealt_pile(cards@.take(i + 1), n, p)
                == if p == turn {
                (#[trigger] before[p])@.push(card)
            } else {
                before[p]@
            } by {
                lemma_deal_one_more(dealt, card, n, p);
            }
        }
        piles[turn].illegal_push(card);
        i += 1;
    }
    assert(cards@.take(i as int) =~= cards@);
    piles
}

} // verus!
