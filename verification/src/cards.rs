//! Counting cards in a sequence, and what the usual changes of a sequence do
//! to the counts.
use vstd::prelude::*;

verus! {

/// How many cards of `s` have the rank `card`.
pub open spec fn count_of(s: Seq<u8>, card: int) -> nat
    decreases s.len(),
{
    if s.len() == 0 {
        0
    } else {
        count_of(s.drop_last(), card) + if s.last() == card {
            1nat
        } else {
            0nat
        }
    }
}

/// `s` without its last `n` cards of rank `card` (without all of them, where
/// it has fewer). The other cards keep their order.
pub open spec fn without_last(s: Seq<u8>, card: int, n: nat) -> Seq<u8>
    decreases s.len(),
{
    if n == 0 || s.len() == 0 {
        s
    } else if s.last() == card {
        without_last(s.drop_last(), card, (n - 1) as nat)
    } else {
        without_last(s.drop_last(), card, n).push(s.last())
    }
}

/// The last `n` cards of `pile`, the last one first: the order in which they
/// leave a pile that is drawn from its end.
pub open spec fn top_cards(pile: Seq<u8>, n: nat) -> Seq<u8>
    recommends
        n <= pile.len(),
{
    Seq::new(n, |i: int| pile[pile.len() - 1 - i])
}

pub proof fn lemma_count_push(s: Seq<u8>, x: u8, card: int)
    ensures
        count_of(s.push(x), card) == count_of(s, card) + if x == card {
            1nat
        } else {
            0nat
        },
{
    assert(s.push(x).drop_last() =~= s);
}

pub proof fn lemma_count_bounds(s: Seq<u8>, card: int)
    ensures
        count_of(s, card) <= s.len(),
        !(0 <= card <= 255) ==> count_of(s, card) == 0,
    decreases s.len(),
{
    if s.len() > 0 {
        lemma_count_bounds(s.drop_last(), card);
    }
}

pub proof fn lemma_count_concat(a: Seq<u8>, b: Seq<u8>, card: int)
    ensures
        count_of(a + b, card) == count_of(a, card) + count_of(b, card),
    decreases b.len(),
{
    if b.len() == 0 {
        assert(a + b =~= a);
    } else {
        assert((a + b).drop_last() =~= a + b.drop_last());
        lemma_count_concat(a, b.drop_last(), card);
    }
}

pub proof fn lemma_count_remove(s: Seq<u8>, i: int, card: int)
    requires
        0 <= i < s.len(),
    ensures
        count_of(s.remove(i), card) + (if s[i] == card {
            1nat
        } else {
            0nat
        }) == count_of(s, card),
{
    let left = s.take(i);
    let right = s.skip(i + 1);
    assert(s.remove(i) =~= left + right);
    assert(s =~= left.push(s[i]) + right);
    lemma_count_concat(left, right, card);
    lemma_count_concat(left.push(s[i]), right, card);
    lemma_count_push(left, s[i], card);
}

/// Counts the cards of rank `card` in `cards`.
pub fn count_cards(cards: &[u8], card: u8) -> (n: usize)
    ensures
        n == count_of(cards@, card as int),
{
    let mut n: usize = 0;
    let mut i: usize = 0;
    while i < cards.len()
        invariant
            i <= cards.len(),
            n == count_of(cards@.take(i as int), card as int),
            n <= i,
        decreases cards.len() - i,
    {
        proof {
            assert(cards@.take(i + 1) =~= cards@.take(i as int).push(cards@[i as int]));
            lemma_count_push(cards@.take(i as int), cards@[i as int], card as int);
        }
        if cards[i] == card {
            n += 1;
        }
        i += 1;
    }
    assert(cards@.take(i as int) =~= cards@);
    n
}

/// Whether every card of `cards` has a rank from one to five.
pub fn all_ranks(cards: &[u8]) -> (r: bool)
    ensures
        r == forall|i: int| 0 <= i < cards@.len() ==> 1 <= #[trigger] cards@[i] <= 5,
{
    let mut i: usize = 0;
    while i < cards.len()
        invariant
            i <= cards.len(),
            forall|j: int| 0 <= j < i ==> 1 <= #[trigger] cards@[j] <= 5,
        decreases cards.len() - i,
    {
        if cards[i] < 1 || cards[i] > 5 {
            return false;
        }
        i += 1;
    }
    true
}

/// A sequence of ranks from one to five is as long as its counts of those
/// ranks add up to.
pub proof fn lemma_len_is_sum_of_counts(s: Seq<u8>)
    requires
        forall|i: int| 0 <= i < s.len() ==> 1 <= #[trigger] s[i] <= 5,
    ensures
        s.len() == count_of(s, 1) + count_of(s, 2) + count_of(s, 3) + count_of(s, 4) + count_of(
            s,
            5,
        ),
    decreases s.len(),
{
    if s.len() > 0 {
        assert(1 <= s[s.len() - 1] <= 5);
        assert forall|i: int| 0 <= i < s.drop_last().len() implies 1 <= #[trigger] s.drop_last()[i]
            <= 5 by {
            assert(s.drop_last()[i] == s[i]);
        }
        lemma_len_is_sum_of_counts(s.drop_last());
    }
}

/// A card that occurs in `s` is counted, and a rank that is counted occurs.
pub proof fn lemma_count_positive(s: Seq<u8>, card: int)
    ensures
        count_of(s, card) > 0 <==> exists|i: int| 0 <= i < s.len() && s[i] == card,
    decreases s.len(),
{
    if s.len() > 0 {
        lemma_count_positive(s.drop_last(), card);
        if count_of(s, card) > 0 {
            if s.last() == card {
                assert(s[s.len() - 1] == card);
            } else {
                let i = choose|i: int| 0 <= i < s.drop_last().len() && s.drop_last()[i] == card;
                assert(s[i] == card);
            }
        }
        if exists|i: int| 0 <= i < s.len() && s[i] == card {
            let i = choose|i: int| 0 <= i < s.len() && s[i] == card;
            if i < s.len() - 1 {
                assert(s.drop_last()[i] == card);
            }
        }
    }
}

pub proof fn lemma_count_split(s: Seq<u8>, k: int, card: int)
    requires
        0 <= k <= s.len(),
    ensures
        count_of(s.take(k), card) + count_of(s.skip(k), card) == count_of(s, card),
{
    assert(s =~= s.take(k) + s.skip(k));
    lemma_count_concat(s.take(k), s.skip(k), card);
}

/// Drawing `n` cards from the end of a pile moves them: together, what is
/// left and what was drawn count as the pile did.
pub proof fn lemma_count_top_cards(pile: Seq<u8>, n: nat, card: int)
    requires
        n <= pile.len(),
    ensures
        count_of(pile.take(pile.len() - n), card) + count_of(top_cards(pile, n), card) == count_of(
            pile,
            card,
        ),
    decreases n,
{
    if n == 0 {
        assert(pile.take(pile.len() - 0) =~= pile);
        assert(top_cards(pile, 0) =~= Seq::<u8>::empty());
    } else {
        let m = (n - 1) as nat;
        let x = pile[pile.len() - n];
        lemma_count_top_cards(pile, m, card);
        assert(top_cards(pile, n) =~= top_cards(pile, m).push(x));
        assert(pile.take(pile.len() - m) =~= pile.take(pile.len() - n).push(x));
        lemma_count_push(top_cards(pile, m), x, card);
        lemma_count_push(pile.take(pile.len() - n), x, card);
    }
}

/// What `without_last` removes: as many cards of the rank as asked for, as
/// far as there are any, and none of another rank.
pub proof fn lemma_without_last(s: Seq<u8>, card: int, n: nat, other: int)
    ensures
        without_last(s, card, n).len() + vstd::math::min(n as int, count_of(s, card) as int)
            == s.len(),
        count_of(without_last(s, card, n), card) + vstd::math::min(
            n as int,
            count_of(s, card) as int,
        ) == count_of(s, card),
        other != card ==> count_of(without_last(s, card, n), other) == count_of(s, other),
    decreases s.len(),
{
    if n == 0 || s.len() == 0 {
    } else if s.last() == card {
        lemma_without_last(s.drop_last(), card, (n - 1) as nat, other);
    } else {
        lemma_without_last(s.drop_last(), card, n, other);
        lemma_count_push(without_last(s.drop_last(), card, n), s.last(), card);
        lemma_count_push(without_last(s.drop_last(), card, n), s.last(), other);
    }
}

} // verus!
