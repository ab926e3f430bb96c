//! The pack of twenty-five cards: five of each rank from one to five.
use crate::cards::{count_of, lemma_count_bounds, lemma_count_push};
use crate::rules::{copies, is_full_deck};
use rand::seq::SliceRandom;
use vstd::prelude::*;
use vstd::seq_lib::to_multiset_build;

verus! {

/// The number of ranks, and of cards of each rank.
pub const RANKS: u8 = 5;

/// `count_of` counts as the multiset of the sequence does.
pub proof fn lemma_count_is_multiset_count(s: Seq<u8>, card: u8)
    ensures
        count_of(s, card as int) == s.to_multiset().count(card),
    decreases s.len(),
{
    if s.len() == 0 {
        assert(s =~= Seq::<u8>::empty());
        assert(s.to_multiset().len() == 0) by {
            s.to_multiset_ensures();
        }
        assert(s.to_multiset().count(card) == 0) by {
            if s.to_multiset().count(card) > 0 {
                s.to_multiset_ensures();
                assert(s.contains(card));
            }
        }
    } else {
        let front = s.drop_last();
        lemma_count_is_multiset_count(front, card);
        assert(front.push(s.last()) =~= s);
        to_multiset_build(front, s.last());
    }
}

/// Two sequences with the same cards, in whatever order, count alike.
pub proof fn lemma_same_cards_same_counts(a: Seq<u8>, b: Seq<u8>)
    requires
        a.to_multiset() == b.to_multiset(),
    ensures
        a.len() == b.len(),
        forall|card: int| #[trigger] count_of(a, card) == count_of(b, card),
{
    a.to_multiset_ensures();
    b.to_multiset_ensures();
    assert forall|card: int| #[trigger] count_of(a, card) == count_of(b, card) by {
        if 0 <= card <= 255 {
            lemma_count_is_multiset_count(a, card as u8);
            lemma_count_is_multiset_count(b, card as u8);
        } else {
            lemma_count_bounds(a, card);
            lemma_count_bounds(b, card);
        }
    }
}

/// Puts `cards` in a random order.
///
/// Trusted: calls `rand::seq::SliceRandom::shuffle` on the slice, with the
/// generator that `rand::thread_rng` hands out. The contract claims what
/// holds of every outcome: the sequence afterwards is a rearrangement of
/// the sequence before.
#[verifier::external_body]
fn shuffle(cards: &mut Vec<u8>)
    ensures
        final(cards)@.to_multiset() == old(cards)@.to_multiset(),
{
    cards.shuffle(&mut rand::thread_rng());
}

/// The pack.
pub struct Yamafuda;

impl Yamafuda {
    /// The pack in order of rank: five ones, five twos, and so on.
    pub open spec fn sorted() -> Seq<u8> {
        Seq::new(25, |i: int| (i / 5 + 1) as u8)
    }

    /// A freshly shuffled pack.
    pub fn create() -> (deck: Vec<u8>)
        ensures
            is_full_deck(deck@),
            deck@.to_multiset() == Self::sorted().to_multiset(),
    {
        let mut deck: Vec<u8> = Vec::new();
        let mut rank: u8 = 1;
        while rank <= RANKS
            invariant
                1 <= rank <= RANKS + 1,
                deck@ =~= Self::sorted().take(5 * (rank - 1)),
                forall|card: int| #[trigger]
                    count_of(deck@, card) == if 1 <= card < rank {
                        5nat
                    } else {
                        0nat
                    },
            decreases RANKS + 1 - rank,
        {
            let mut copy: u8 = 0;
            while copy < RANKS
                invariant
                    1 <= rank <= RANKS,
                    copy <= RANKS,
                    deck@ =~= Self::sorted().take(5 * (rank - 1) + copy),
                    forall|card: int| #[trigger]
                        count_of(deck@, card) == if 1 <= card < rank {
                            5nat
                        } else if card == rank {
                            copy as nat
                        } else {
                            0nat
                        },
                decreases RANKS - copy,
            {
                let ghost before = deck@;
                deck.push(rank);
                proof {
                    assert forall|card: int| #[trigger]
                        count_of(deck@, card) == if 1 <= card < rank {
                            5nat
                        } else if card == rank {
                            (copy + 1) as nat
                        } else {
                            0nat
                        } by {
                        lemma_count_push(before, rank, card);
                        assert(count_of(before, card) == if 1 <= card < rank {
                            5nat
                        } else if card == rank {
                            copy as nat
                        } else {
                            0nat
                        });
                    }
                }
                copy += 1;
            }
            rank += 1;
        }
        assert(deck@ =~= Self::sorted());
        let ghost ordered = deck@;
        shuffle(&mut deck);
        proof {
            lemma_same_cards_same_counts(deck@, ordered);
            assert forall|card: int| #[trigger] count_of(deck@, card) == copies(card) by {
                assert(count_of(ordered, card) == copies(card));
            }
        }
        deck
    }

    /// Whether `cards` is a complete pack, in any order.
    pub fn is_complete(cards: &[u8]) -> (r: bool)
        ensures
            r == is_full_deck(cards@),
    {
        if cards.len() != 25 {
            return false;
        }
        let mut seen: [u8; 6] = [0; 6];
        let mut i: usize = 0;
        while i < cards.len()
            invariant
                i <= cards.len() == 25,
                forall|j: int| 0 <= j < i ==> 1 <= #[trigger] cards@[j] <= 5,
                forall|card: int| 1 <= card <= 5 ==> #[trigger] seen@[card] == count_of(cards@.take(i as int), card),
            decreases cards.len() - i,
        {
            let card: u8 = cards[i];
            proof {
                assert(cards@.take(i + 1) =~= cards@.take(i as int).push(card));
                assert forall|c: int| #[trigger]
                    count_of(cards@.take(i + 1), c) == count_of(cards@.take(i as int), c) + if card
                        == c {
                        1nat
                    } else {
                        0nat
                    } by {
                    lemma_count_push(cards@.take(i as int), card, c);
                }
            }
            if card < 1 || card > RANKS {
                proof {
                    crate::cards::lemma_count_positive(cards@, card as int);
                }
                return false;
            }
            proof {
                lemma_count_bounds(cards@.take(i as int), card as int);
            }
            seen[card as usize] = seen[card as usize] + 1;
            i += 1;
        }
        assert(cards@.take(i as int) =~= cards@);
        let mut rank: usize = 1;
        while rank <= 5
            invariant
                1 <= rank <= 6,
                forall|card: int| 1 <= card <= 5 ==> #[trigger] seen@[card] == count_of(cards@, card),
                forall|card: int| 1 <= card < rank ==> count_of(cards@, card) == 5,
            decreases 6 - rank,
        {
            if seen[rank] != 5 {
                assert(count_of(cards@, rank as int) != copies(rank as int));
                return false;
            }
            rank += 1;
        }
        proof {
            assert forall|card: int| #[trigger] count_of(cards@, card) == copies(card) by {
                if !(1 <= card <= 5) {
                    if count_of(cards@, card) > 0 {
                        crate::cards::lemma_count_positive(cards@, card);
                    }
                }
            }
        }
        true
    }
}

} // verus!
