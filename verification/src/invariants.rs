//! What holds of every state of a match, proved of the model in
//! [`crate::rules`]: the cards of the pack are conserved, the duellists
//! never cross or leave the strip, and a refused action changes nothing.
use crate::cards::{
    count_of, lemma_count_bounds, lemma_count_concat, lemma_count_positive, lemma_count_remove,
    lemma_count_split, lemma_count_top_cards, lemma_len_is_sum_of_counts, lemma_without_last,
    top_cards, without_last,
};
use crate::errors::PlayError;
use crate::game::Kekka;
use crate::protocol::{Direction, PlayerID};
use crate::rules::{copies, is_full_deck, BoardView, GameView, DECK_SIZE, HAND_SIZE};
use vstd::prelude::*;

verus! {

/// The cards in play are counted hand by hand, whichever hand comes first.
pub proof fn lemma_in_play_by_side(g: GameView, id: PlayerID, card: int)
    ensures
        g.in_play(card) == count_of(g.board.deck, card) + count_of(g.hand(id), card) + count_of(
            g.hand(id.other()),
            card,
        ),
        g.cards_in_play() == g.board.deck.len() + g.hand(id).len() + g.hand(id.other()).len(),
{
}

/// Every card in the deck or in a hand of a well-formed match has a rank
/// from one to five.
pub proof fn lemma_ranks_in_play(g: GameView)
    requires
        g.wf(),
    ensures
        forall|i: int| 0 <= i < g.board.deck.len() ==> 1 <= #[trigger] g.board.deck[i] <= 5,
        forall|i: int| 0 <= i < g.p0.hand.len() ==> 1 <= #[trigger] g.p0.hand[i] <= 5,
        forall|i: int| 0 <= i < g.p1.hand.len() ==> 1 <= #[trigger] g.p1.hand[i] <= 5,
{
    assert forall|i: int| 0 <= i < g.board.deck.len() implies 1 <= #[trigger] g.board.deck[i]
        <= 5 by {
        let c = g.board.deck[i] as int;
        lemma_count_positive(g.board.deck, c);
        assert(g.in_play(c) <= copies(c));
    }
    assert forall|i: int| 0 <= i < g.p0.hand.len() implies 1 <= #[trigger] g.p0.hand[i] <= 5 by {
        let c = g.p0.hand[i] as int;
        lemma_count_positive(g.p0.hand, c);
        assert(g.in_play(c) <= copies(c));
    }
    assert forall|i: int| 0 <= i < g.p1.hand.len() implies 1 <= #[trigger] g.p1.hand[i] <= 5 by {
        let c = g.p1.hand[i] as int;
        lemma_count_positive(g.p1.hand, c);
        assert(g.in_play(c) <= copies(c));
    }
}

/// Conservation of the pack: in every well-formed state the cards in the
/// deck and in the two hands are at most the twenty-five of the pack, so
/// that the cards put aside, which together with them make up the pack, are
/// none too few; and no more cards of a rank are in play than the pack
/// holds. The cards put aside are none when a round is dealt, and grow by
/// what each action plays: see `lemma_dealt_round_start`, `lemma_movement`
/// and `lemma_attack`.
pub proof fn lemma_cards_conserved(g: GameView)
    requires
        g.wf(),
    ensures
        g.board.deck.len() + g.p0.hand.len() + g.p1.hand.len() <= DECK_SIZE,
        g.discarded() >= 0,
        forall|card: int| 0 <= copies(card) - #[trigger] g.in_play(card),
{
    lemma_ranks_in_play(g);
    lemma_len_is_sum_of_counts(g.board.deck);
    lemma_len_is_sum_of_counts(g.p0.hand);
    lemma_len_is_sum_of_counts(g.p1.hand);
    assert(g.in_play(1) <= copies(1));
    assert(g.in_play(2) <= copies(2));
    assert(g.in_play(3) <= copies(3));
    assert(g.in_play(4) <= copies(4));
    assert(g.in_play(5) <= copies(5));
}

/// A legal step by a card keeps both duellists on the strip with `Zero`
/// to the left of `One`: it moves the one who steps by exactly the card,
/// forward towards the opponent or back towards the own end, and nothing
/// else on the board.
pub proof fn lemma_stepped(b: BoardView, id: PlayerID, card: int, direction: Direction)
    requires
        b.on_strip(),
        0 <= card,
        b.can_move(id, card, direction),
    ensures
        b.stepped(id, card, direction).on_strip(),
        b.stepped(id, card, direction).pos(id.other()) == b.pos(id.other()),
        b.stepped(id, card, direction).pos(id) == (match (id, direction) {
            (PlayerID::Zero, Direction::Forward) => b.pos(id) + card,
            (PlayerID::Zero, Direction::Back) => b.pos(id) - card,
            (PlayerID::One, Direction::Forward) => b.pos(id) - card,
            (PlayerID::One, Direction::Back) => b.pos(id) + card,
        }),
        b.stepped(id, card, direction).score0 == b.score0,
        b.stepped(id, card, direction).score1 == b.score1,
        b.stepped(id, card, direction).deck == b.deck,
        b.stepped(id, card, direction).current_player == b.current_player,
{
}

/// In every well-formed state both duellists stand on the strip, and
/// `Zero` stands to the left of `One`.
pub proof fn lemma_positions_ordered(g: GameView)
    requires
        g.wf(),
    ensures
        1 <= g.board.pos(PlayerID::Zero) < g.board.pos(PlayerID::One) <= 23,
        1 <= g.board.distance() <= 22,
{
}

/// Dealing a round from a full pack gives full hands, a deck of fifteen,
/// and the duellists at the ends of the strip, whatever the state before;
/// the cards in play are then exactly the pack.
pub proof fn lemma_dealt_round_start(g: GameView, deck: Seq<u8>)
    requires
        is_full_deck(deck),
    ensures
        g.dealt(deck).at_round_start(),
        g.dealt(deck).p0.hand.len() == 5,
        g.dealt(deck).p1.hand.len() == 5,
        g.dealt(deck).board.deck.len() == 15,
        g.dealt(deck).board.pos0 == 1,
        g.dealt(deck).board.pos1 == 23,
        g.dealt(deck).discarded() == 0,
        g.p0.id == PlayerID::Zero && g.p1.id == PlayerID::One && g.standing_consistent()
            ==> g.dealt(deck).wf(),
{
    let d = g.dealt(deck);
    assert forall|card: int| #[trigger] d.in_play(card) == copies(card) by {
        lemma_count_split(deck, 15, card);
        lemma_count_split(deck.skip(15), 5, card);
        assert(deck.take(15) =~= d.board.deck);
        assert(deck.skip(15).take(5) =~= d.p1.hand);
        assert(deck.skip(15).skip(5) =~= d.p0.hand);
        assert(count_of(deck, card) == copies(card));
    }
}

/// Dealing twice in a row leaves what dealing once from the second pack
/// leaves: a round at its start.
pub proof fn lemma_dealt_twice(g: GameView, first: Seq<u8>, second: Seq<u8>)
    requires
        is_full_deck(first),
        is_full_deck(second),
    ensures
        g.dealt(first).dealt(second) == g.dealt(second),
        g.dealt(first).dealt(second).at_round_start(),
        g.dealt(first).dealt(second).p0.hand.len() == HAND_SIZE,
        g.dealt(first).dealt(second).p1.hand.len() == HAND_SIZE,
        g.dealt(first).dealt(second).board.deck.len() == 15,
        g.dealt(first).dealt(second).board.pos0 == 1,
        g.dealt(first).dealt(second).board.pos1 == 23,
{
    lemma_dealt_round_start(g, second);
    assert(g.dealt(first).dealt(second) =~= g.dealt(second));
}

/// Going on after a round leaves a match that is won as it is. Otherwise
/// it deals a round at its start; the duellist who begins the new round is
/// the other one than began the round before, and it is that duellist's
/// turn. So over rounds that do not end the match the two take turns to
/// begin.
pub proof fn lemma_next_round(g: GameView, deck: Seq<u8>)
    requires
        is_full_deck(deck),
    ensures
        g.next_round(deck).game_end == g.game_end,
        g.wf() ==> g.next_round(deck).wf(),
        g.game_end is Some ==> g.next_round(deck) == g,
        g.game_end is None ==> {
            &&& g.next_round(deck).at_round_start()
            &&& g.next_round(deck).first_player == g.first_player.other()
            &&& g.next_round(deck).first_player != g.first_player
            &&& g.next_round(deck).board.current_player == g.next_round(deck).first_player
            &&& g.wf() ==> g.next_round(deck).turn_ready()
        },
{
    lemma_dealt_round_start(g, deck);
    let d = g.dealt(deck);
    let n = g.next_round(deck);
    if g.game_end is None {
        assert forall|card: int| #[trigger] n.in_play(card) == copies(card) by {
            assert(d.in_play(card) == copies(card));
        }
    }
}

/// Two rounds on, with the match still not won, the duellist who began
/// the first of them begins again.
pub proof fn lemma_first_player_alternates(g: GameView, first: Seq<u8>, second: Seq<u8>)
    requires
        is_full_deck(first),
        is_full_deck(second),
        g.game_end is None,
    ensures
        g.next_round(first).first_player != g.first_player,
        g.next_round(first).next_round(second).first_player != g.next_round(first).first_player,
        g.next_round(first).next_round(second).first_player == g.first_player,
{
    lemma_next_round(g, first);
    lemma_next_round(g.next_round(first), second);
}

/// A match opens in a well-formed state, at the start of a round.
pub proof fn lemma_opening_wf(max_win: nat, deck: Seq<u8>)
    requires
        is_full_deck(deck),
    ensures
        GameView::opening(max_win, deck).wf(),
        GameView::opening(max_win, deck).at_round_start(),
        GameView::opening(max_win, deck).turn_ready(),
        GameView::opening(max_win, deck).board.score0 == 0,
        GameView::opening(max_win, deck).board.score1 == 0,
        GameView::opening(max_win, deck).game_end is None,
{
    let blank = GameView {
        p0: crate::rules::PlayerView { id: PlayerID::Zero, hand: Seq::empty() },
        p1: crate::rules::PlayerView { id: PlayerID::One, hand: Seq::empty() },
        board: crate::rules::BoardView {
            pos0: 1,
            pos1: 23,
            score0: 0,
            score1: 0,
            deck: Seq::empty(),
            current_player: PlayerID::Zero,
        },
        first_player: PlayerID::Zero,
        game_end: None,
        max_win,
    };
    lemma_dealt_round_start(blank, deck);
}

/// Winning a round moves no card and no duellist, and keeps the state
/// well formed.
pub proof fn lemma_awarded(g: GameView, id: PlayerID)
    requires
        g.wf(),
    ensures
        g.awarded(id).wf(),
        g.awarded(id).board.score(id) == g.board.score(id) + 1,
        g.awarded(id).board.score(id.other()) == g.board.score(id.other()),
        g.awarded(id).board.deck == g.board.deck,
        g.awarded(id).p0 == g.p0,
        g.awarded(id).p1 == g.p1,
{
    let a = g.awarded(id);
    assert forall|card: int| #[trigger] a.in_play(card) <= copies(card) by {
        assert(g.in_play(card) <= copies(card));
    }
}

/// Replenishing moves cards from the deck to the hand of `id`: the hand
/// grows to five cards as far as the deck allows, and no card is gained or
/// lost.
pub proof fn lemma_replenished(g: GameView, id: PlayerID)
    requires
        g.wf(),
    ensures
        g.replenished(id).wf(),
        g.replenished(id).board.pos0 == g.board.pos0,
        g.replenished(id).board.pos1 == g.board.pos1,
        g.replenished(id).hand(id.other()) == g.hand(id.other()),
        g.replenished(id).hand(id).len() == g.hand(id).len() + g.draws(id),
        g.replenished(id).board.deck.len() == g.board.deck.len() - g.draws(id),
        !g.deck_runs_out(id) ==> g.replenished(id).hand(id).len() >= HAND_SIZE,
        forall|card: int| #[trigger] g.replenished(id).in_play(card) == g.in_play(card),
{
    let r = g.replenished(id);
    let n = g.draws(id);
    let deck = g.board.deck;
    assert forall|card: int| #[trigger] r.in_play(card) == g.in_play(card) by {
        lemma_count_top_cards(deck, n, card);
        lemma_count_concat(g.hand(id), top_cards(deck, n), card);
        lemma_in_play_by_side(g, id, card);
        lemma_in_play_by_side(r, id, card);
    }
    assert forall|card: int| #[trigger] r.in_play(card) <= copies(card) by {
        assert(g.in_play(card) <= copies(card));
    }
}

/// Passing the turn keeps the state well formed and moves nothing.
pub proof fn lemma_flipped(g: GameView)
    requires
        g.wf(),
    ensures
        g.flipped().wf(),
        g.flipped().p0 == g.p0,
        g.flipped().p1 == g.p1,
        g.flipped().board.deck == g.board.deck,
        g.flipped().board.current_player == g.board.current_player.other(),
{
    let f = g.flipped();
    assert forall|card: int| #[trigger] f.in_play(card) <= copies(card) by {
        assert(g.in_play(card) <= copies(card));
    }
}

/// Resolving an action keeps the state well formed, moves no duellist and
/// conserves the cards in play. The round goes on only with a full hand for
/// `id` and, where `id` had to draw, a deck that is not empty.
pub proof fn lemma_resolved(g: GameView, id: PlayerID)
    requires
        g.wf(),
    ensures
        g.resolved(id).0.wf(),
        g.resolved(id).0.board.pos0 == g.board.pos0,
        g.resolved(id).0.board.pos1 == g.board.pos1,
        g.resolved(id).0.hand(id.other()) == g.hand(id.other()),
        forall|card: int| #[trigger] g.resolved(id).0.in_play(card) == g.in_play(card),
        g.resolved(id).0.cards_in_play() == g.cards_in_play(),
        g.resolved(id).1 == Kekka::Continue ==> {
            &&& g.resolved(id).0.hand(id).len() == HAND_SIZE
            &&& g.resolved(id).0.board.deck.len() > 0 || g.hand(id).len() == HAND_SIZE
            &&& g.resolved(id).0.board.score0 == g.board.score0
            &&& g.resolved(id).0.board.score1 == g.board.score1
            &&& g.resolved(id).0.game_end == g.game_end
        },
{
    let after = g.resolved(id).0;
    lemma_awarded(g, id);
    lemma_replenished(g, id);
    let r = g.replenished(id);
    match r.tie_break() {
        Some(winner) => {
            lemma_awarded(r, winner);
        },
        None => {},
    }
    assert forall|card: int| #[trigger] after.in_play(card) == g.in_play(card) by {
        assert(r.in_play(card) == g.in_play(card));
    }
    lemma_in_play_by_side(after, id, 0);
    lemma_in_play_by_side(g, id, 0);
    lemma_in_play_by_side(r, id, 0);
}

/// A movement that is accepted puts exactly the played card aside, moves
/// only the mover, and leaves a well-formed state; one that is refused
/// names the reason: a card that the duellist does not hold, else a step
/// that is not legal.
pub proof fn lemma_movement(g: GameView, id: PlayerID, card: u8, direction: Direction)
    requires
        g.wf(),
    ensures
        !g.hand(id).contains(card) ==> g.movement(id, card, direction) == Err::<
            (GameView, Kekka),
            PlayError,
        >(PlayError::CardNotHeld { card }),
        g.movement(id, card, direction) is Ok <==> g.hand(id).contains(card) && g.board.can_move(
            id,
            card as int,
            direction,
        ),
        match g.movement(id, card, direction) {
            Ok((after, kekka)) => {
                &&& after.wf()
                &&& after.board.pos(id.other()) == g.board.pos(id.other())
                &&& after.board.pos(id) == g.board.stepped(id, card as int, direction).pos(id)
                &&& forall|c: int| #[trigger]
                    after.in_play(c) + (if c == card {
                        1nat
                    } else {
                        0nat
                    }) == g.in_play(c)
                &&& after.discarded() == g.discarded() + 1
                &&& after.hand(id.other()) == g.hand(id.other())
                &&& kekka == Kekka::Continue ==> after.hand(id).len() == HAND_SIZE
                    && after.board.deck.len() > 0
                &&& kekka == Kekka::Continue && g.turn_ready() && id == g.board.current_player
                    ==> after.flipped().turn_ready()
            },
            Err(_) => true,
        },
{
    if g.movement(id, card, direction) is Ok {
        let m = g.moved(id, card, direction);
        g.hand(id).index_of_first_ensures(card);
        let i = g.hand(id).index_of_first(card).unwrap();
        assert(m.hand(id) == g.hand(id).remove(i));
        assert forall|c: int| #[trigger]
            m.in_play(c) + (if c == card {
                1nat
            } else {
                0nat
            }) == g.in_play(c) by {
            lemma_count_remove(g.hand(id), i, c);
            lemma_in_play_by_side(g, id, c);
            lemma_in_play_by_side(m, id, c);
        }
        assert forall|c: int| #[trigger] m.in_play(c) <= copies(c) by {
            assert(g.in_play(c) <= copies(c));
            assert(m.in_play(c) + (if c == card {
                1nat
            } else {
                0nat
            }) == g.in_play(c));
        }
        assert(m.wf());
        lemma_resolved(m, id);
        let after = m.resolved(id).0;
        assert forall|c: int| #[trigger]
            after.in_play(c) + (if c == card {
                1nat
            } else {
                0nat
            }) == g.in_play(c) by {
            assert(after.in_play(c) == m.in_play(c));
            assert(m.in_play(c) + (if c == card {
                1nat
            } else {
                0nat
            }) == g.in_play(c));
        }
        lemma_in_play_by_side(g, id, 0);
        lemma_in_play_by_side(m, id, 0);
        lemma_flipped(after);
    }
}

/// An attack is refused exactly when the rank is not the distance or the
/// attacker holds fewer cards of it than announced. An attack that the
/// defender cannot parry gives the attacker one point and moves no card.
/// One that is parried puts aside every card of the rank that the attacker
/// held and as many of the defender's. Either way nobody moves and the state
/// stays well formed.
pub proof fn lemma_attack(g: GameView, id: PlayerID, card: u8, count: u8)
    requires
        g.wf(),
    ensures
        g.board.distance() != card ==> g.attack(id, card, count) is Err,
        count_of(g.hand(id), card as int) < count ==> g.attack(id, card, count) is Err,
        g.attack(id, card, count) is Ok <==> g.board.distance() == card && count_of(
            g.hand(id),
            card as int,
        ) >= count,
        g.attack(id, card, count) is Err ==> g.attack(id, card, count) == Err::<
            (GameView, Kekka),
            PlayError,
        >(PlayError::AttackUnreachableOrInsufficient { card, count }),
        match g.attack(id, card, count) {
            Ok((after, kekka)) => {
                let attacking = count_of(g.hand(id), card as int);
                let defending = count_of(g.hand(id.other()), card as int);
                &&& after.wf()
                &&& after.board.pos0 == g.board.pos0
                &&& after.board.pos1 == g.board.pos1
                &&& defending < attacking ==> {
                    &&& kekka == Kekka::REnd(Some(id))
                    &&& after.board.score(id) == g.board.score(id) + 1
                    &&& after.board.score(id.other()) == g.board.score(id.other())
                    &&& after.p0 == g.p0
                    &&& after.p1 == g.p1
                    &&& after.board.deck == g.board.deck
                }
                &&& defending >= attacking ==> {
                    &&& after.discarded() == g.discarded() + 2 * attacking
                    &&& after.hand(id.other()).len() == g.hand(id.other()).len() - attacking
                    &&& forall|c: int| #[trigger]
                        after.in_play(c) + (if c == card {
                            2 * attacking
                        } else {
                            0
                        }) == g.in_play(c)
                }
                &&& 2 * attacking <= 5 || defending < attacking
                &&& kekka == Kekka::Continue ==> after.hand(id).len() == HAND_SIZE
                &&& kekka == Kekka::Continue && g.turn_ready() && id == g.board.current_player
                    ==> after.flipped().turn_ready()
            },
            Err(_) => true,
        },
{
    if g.attack(id, card, count) is Ok {
        let attacking = count_of(g.hand(id), card as int);
        let defending = count_of(g.hand(id.other()), card as int);
        lemma_awarded(g, id);
        if defending >= attacking {
            let p = g.parried(id, card, attacking);
            assert(p.hand(id) == without_last(g.hand(id), card as int, attacking));
            assert(p.hand(id.other()) == without_last(g.hand(id.other()), card as int, attacking));
            assert forall|c: int| #[trigger]
                p.in_play(c) + (if c == card {
                    2 * attacking
                } else {
                    0
                }) == g.in_play(c) by {
                lemma_without_last(g.hand(id), card as int, attacking, c);
                lemma_without_last(g.hand(id.other()), card as int, attacking, c);
                lemma_in_play_by_side(g, id, c);
                lemma_in_play_by_side(p, id, c);
            }
            assert forall|c: int| #[trigger] p.in_play(c) <= copies(c) by {
                assert(g.in_play(c) <= copies(c));
                assert(p.in_play(c) + (if c == card {
                    2 * attacking
                } else {
                    0
                }) == g.in_play(c));
            }
            lemma_without_last(g.hand(id), card as int, attacking, 0);
            lemma_without_last(g.hand(id.other()), card as int, attacking, 0);
            lemma_count_bounds(g.hand(id), card as int);
            assert(p.wf());
            lemma_resolved(p, id);
            let after = p.resolved(id).0;
            assert forall|c: int| #[trigger]
                after.in_play(c) + (if c == card {
                    2 * attacking
                } else {
                    0
                }) == g.in_play(c) by {
                assert(after.in_play(c) == p.in_play(c));
                assert(p.in_play(c) + (if c == card {
                    2 * attacking
                } else {
                    0
                }) == g.in_play(c));
            }
            lemma_in_play_by_side(g, id, card as int);
            lemma_in_play_by_side(p, id, card as int);
            assert(g.in_play(card as int) <= copies(card as int));
            lemma_flipped(after);
        }
    }
}

} // verus!
