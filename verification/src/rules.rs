//! The mathematical model of a duel: what a state is, which actions are
//! legal in it, and the state and outcome that each action leads to.
//!
//! The executable engine is specified against these functions; the facts
//! that hold of every state are proved of them here.
use crate::cards::{count_of, top_cards, without_last};
use crate::errors::PlayError;
use crate::game::Kekka;
use crate::protocol::{Direction, PlayerID};
use vstd::prelude::*;

verus! {

/// The cell at `Zero`'s end of the strip.
pub const MOST_LEFT_SIDE: u8 = 1;

/// The cell at `One`'s end of the strip.
pub const MOST_RIGHT_SIDE: u8 = 23;

/// The number of cards in a full hand.
pub const HAND_SIZE: usize = 5;

/// The number of cards in the pack.
pub const DECK_SIZE: usize = 25;

/// How many cards of rank `card` the pack holds: five of each rank from one
/// to five, and no others.
pub open spec fn copies(card: int) -> nat {
    if 1 <= card <= 5 {
        5
    } else {
        0
    }
}

/// A complete pack, in any order.
pub open spec fn is_full_deck(deck: Seq<u8>) -> bool {
    &&& deck.len() == DECK_SIZE
    &&& forall|card: int| #[trigger] count_of(deck, card) == copies(card)
}

/// The board as the rules see it.
#[verifier::ext_equal]
pub struct BoardView {
    pub pos0: int,
    pub pos1: int,
    pub score0: nat,
    pub score1: nat,
    /// The cards not yet drawn; the next card to be drawn is the last one.
    pub deck: Seq<u8>,
    pub current_player: PlayerID,
}

/// A duellist as the rules see one.
#[verifier::ext_equal]
pub struct PlayerView {
    pub id: PlayerID,
    pub hand: Seq<u8>,
}

/// A match as the rules see it.
#[verifier::ext_equal]
pub struct GameView {
    pub p0: PlayerView,
    pub p1: PlayerView,
    pub board: BoardView,
    pub first_player: PlayerID,
    pub game_end: Option<PlayerID>,
    pub max_win: nat,
}

impl BoardView {
    pub open spec fn pos(self, id: PlayerID) -> int {
        match id {
            PlayerID::Zero => self.pos0,
            PlayerID::One => self.pos1,
        }
    }

    pub open spec fn score(self, id: PlayerID) -> nat {
        match id {
            PlayerID::Zero => self.score0,
            PlayerID::One => self.score1,
        }
    }

    /// The number of cells from `Zero` to `One`.
    pub open spec fn distance(self) -> int {
        self.pos1 - self.pos0
    }

    /// Both duellists stand on the strip, `Zero` to the left of `One`.
    pub open spec fn on_strip(self) -> bool {
        MOST_LEFT_SIDE <= self.pos0 < self.pos1 <= MOST_RIGHT_SIDE
    }

    /// Whether `id` may step `card` cells in `direction`: a step back stays
    /// on the strip, a step forward stops short of the opponent.
    pub open spec fn can_move(self, id: PlayerID, card: int, direction: Direction) -> bool {
        match (id, direction) {
            (PlayerID::Zero, Direction::Back) => self.pos0 - card >= MOST_LEFT_SIDE,
            (PlayerID::Zero, Direction::Forward) => self.pos0 + card < self.pos1,
            (PlayerID::One, Direction::Back) => self.pos1 + card <= MOST_RIGHT_SIDE,
            (PlayerID::One, Direction::Forward) => self.pos1 - card > self.pos0,
        }
    }

    /// Whether a card of rank `card` reaches the opponent: for either
    /// duellist, the rank must be the distance.
    pub open spec fn can_attack(self, card: int) -> bool {
        self.distance() == card
    }

    /// Whether `id` can do anything at all with a card of rank `card`.
    pub open spec fn playable(self, id: PlayerID, card: int) -> bool {
        ||| self.can_attack(card)
        ||| self.can_move(id, card, Direction::Forward)
        ||| self.can_move(id, card, Direction::Back)
    }

    /// Whether `id`, holding `hand`, has any legal action.
    pub open spec fn can_act(self, id: PlayerID, hand: Seq<u8>) -> bool {
        exists|i: int| 0 <= i < hand.len() && self.playable(id, #[trigger] hand[i] as int)
    }

    /// The board after `id` has stepped `card` cells in `direction`.
    pub open spec fn stepped(self, id: PlayerID, card: int, direction: Direction) -> BoardView {
        match (id, direction) {
            (PlayerID::Zero, Direction::Back) => BoardView { pos0: self.pos0 - card, ..self },
            (PlayerID::Zero, Direction::Forward) => BoardView { pos0: self.pos0 + card, ..self },
            (PlayerID::One, Direction::Back) => BoardView { pos1: self.pos1 + card, ..self },
            (PlayerID::One, Direction::Forward) => BoardView { pos1: self.pos1 - card, ..self },
        }
    }

    /// The board after `id` has won a round.
    pub open spec fn scored(self, id: PlayerID) -> BoardView {
        match id {
            PlayerID::Zero => BoardView { score0: self.score0 + 1, ..self },
            PlayerID::One => BoardView { score1: self.score1 + 1, ..self },
        }
    }
}

impl GameView {
    pub open spec fn player(self, id: PlayerID) -> PlayerView {
        match id {
            PlayerID::Zero => self.p0,
            PlayerID::One => self.p1,
        }
    }

    pub open spec fn hand(self, id: PlayerID) -> Seq<u8> {
        self.player(id).hand
    }

    /// The same match with `hand` in the hand of `id`.
    pub open spec fn with_hand(self, id: PlayerID, hand: Seq<u8>) -> GameView {
        match id {
            PlayerID::Zero => GameView { p0: PlayerView { hand, ..self.p0 }, ..self },
            PlayerID::One => GameView { p1: PlayerView { hand, ..self.p1 }, ..self },
        }
    }

    /// How many cards of rank `card` are in the deck and the two hands.
    pub open spec fn in_play(self, card: int) -> nat {
        count_of(self.board.deck, card) + count_of(self.p0.hand, card) + count_of(
            self.p1.hand,
            card,
        )
    }

    /// How many cards are in the deck and the two hands.
    pub open spec fn cards_in_play(self) -> nat {
        self.board.deck.len() + self.p0.hand.len() + self.p1.hand.len()
    }

    /// How many cards of the pack have been played and put aside since the
    /// round began: those that are neither in the deck nor in a hand.
    pub open spec fn discarded(self) -> int {
        DECK_SIZE - self.cards_in_play()
    }

    /// The winner is recorded exactly when a score has reached the threshold
    /// by winning a round.
    pub open spec fn standing_consistent(self) -> bool {
        match self.game_end {
            Some(winner) => self.board.score(winner) >= self.max_win,
            None => {
                &&& self.board.score0 < self.max_win || self.board.score0 == 0
                &&& self.board.score1 < self.max_win || self.board.score1 == 0
            },
        }
    }

    /// What holds of every state of a match: the duellists are on the strip
    /// and have not crossed, no hand is over-full, and the cards in the deck
    /// and the hands are cards of one pack.
    pub open spec fn wf(self) -> bool {
        &&& self.board.on_strip()
        &&& self.p0.id == PlayerID::Zero
        &&& self.p1.id == PlayerID::One
        &&& self.p0.hand.len() <= HAND_SIZE
        &&& self.p1.hand.len() <= HAND_SIZE
        &&& forall|card: int| #[trigger] self.in_play(card) <= copies(card)
        &&& self.standing_consistent()
    }

    /// A round has just begun: full hands dealt from a full pack, and the
    /// duellists at the two ends of the strip.
    pub open spec fn at_round_start(self) -> bool {
        &&& self.board.pos0 == MOST_LEFT_SIDE
        &&& self.board.pos1 == MOST_RIGHT_SIDE
        &&& self.p0.hand.len() == HAND_SIZE
        &&& self.p1.hand.len() == HAND_SIZE
        &&& self.board.deck.len() == DECK_SIZE - 2 * HAND_SIZE
        &&& forall|card: int| #[trigger] self.in_play(card) == copies(card)
    }

    /// The match after a new round has been dealt from `deck`: `Zero` takes
    /// the last five cards, `One` the five before them, and both go back to
    /// their ends. Scores, the recorded winner and whose turn it is stay.
    pub open spec fn dealt(self, deck: Seq<u8>) -> GameView {
        GameView {
            p0: PlayerView { hand: deck.subrange(deck.len() - 5, deck.len() as int), ..self.p0 },
            p1: PlayerView { hand: deck.subrange(deck.len() - 10, deck.len() - 5), ..self.p1 },
            board: BoardView {
                pos0: MOST_LEFT_SIDE as int,
                pos1: MOST_RIGHT_SIDE as int,
                deck: deck.subrange(0, deck.len() - 10),
                ..self.board
            },
            ..self
        }
    }

    /// The first round of a match to `max_win` points, dealt from `deck`.
    /// `Zero` begins.
    pub open spec fn opening(max_win: nat, deck: Seq<u8>) -> GameView {
        GameView {
            p0: PlayerView { id: PlayerID::Zero, hand: Seq::empty() },
            p1: PlayerView { id: PlayerID::One, hand: Seq::empty() },
            board: BoardView {
                pos0: MOST_LEFT_SIDE as int,
                pos1: MOST_RIGHT_SIDE as int,
                score0: 0,
                score1: 0,
                deck: Seq::empty(),
                current_player: PlayerID::Zero,
            },
            first_player: PlayerID::Zero,
            game_end: None,
            max_win,
        }.dealt(deck)
    }

    /// The match with the turn passed to the other duellist.
    pub open spec fn flipped(self) -> GameView {
        GameView {
            board: BoardView { current_player: self.board.current_player.other(), ..self.board },
            ..self
        }
    }

    /// The match after the round that has ended. While the match is not
    /// won, a new round is dealt from `deck`, and the other duellist than
    /// began the last round begins it. A match that is won stays as it is.
    pub open spec fn next_round(self, deck: Seq<u8>) -> GameView {
        let dealt = self.dealt(deck);
        if self.game_end is None {
            GameView {
                first_player: self.first_player.other(),
                board: BoardView { current_player: self.first_player.other(), ..dealt.board },
                ..dealt
            }
        } else {
            self
        }
    }

    /// A turn can begin: the state is well formed, the duellist whose turn
    /// it is holds at least three cards, and the other one a full hand.
    pub open spec fn turn_ready(self) -> bool {
        &&& self.wf()
        &&& self.hand(self.board.current_player).len() >= 3
        &&& self.hand(self.board.current_player.other()).len() == HAND_SIZE
    }

    /// Either score can still grow by one within the machine's range.
    pub open spec fn scores_have_room(self) -> bool {
        self.board.score0 < u32::MAX && self.board.score1 < u32::MAX
    }

    /// The match after `id` has won a round: one point more, and `id`
    /// recorded as the winner of the match if that reaches the threshold.
    pub open spec fn awarded(self, id: PlayerID) -> GameView {
        GameView {
            board: self.board.scored(id),
            game_end: if self.board.score(id) + 1 >= self.max_win {
                Some(id)
            } else {
                self.game_end
            },
            ..self
        }
    }

    /// How many cards `id` lacks for a full hand.
    pub open spec fn shortfall(self, id: PlayerID) -> nat {
        if self.hand(id).len() < HAND_SIZE {
            (HAND_SIZE - self.hand(id).len()) as nat
        } else {
            0
        }
    }

    /// How many cards `id` draws when replenishing: the shortfall, as far as
    /// the deck holds it.
    pub open spec fn draws(self, id: PlayerID) -> nat {
        if self.shortfall(id) <= self.board.deck.len() {
            self.shortfall(id)
        } else {
            self.board.deck.len()
        }
    }

    /// Whether replenishing the hand of `id` exhausts the deck: `id` has to
    /// draw, and the deck holds no more than is drawn.
    pub open spec fn deck_runs_out(self, id: PlayerID) -> bool {
        self.shortfall(id) > 0 && self.board.deck.len() <= self.shortfall(id)
    }

    /// The match after `id` has replenished: the cards leave the end of the
    /// deck one by one and join the hand in the order drawn.
    pub open spec fn replenished(self, id: PlayerID) -> GameView {
        let n = self.draws(id);
        let deck = self.board.deck;
        GameView {
            board: BoardView { deck: deck.take(deck.len() - n), ..self.board },
            ..self
        }.with_hand(id, self.hand(id) + top_cards(deck, n))
    }

    /// Who wins the round when the deck is exhausted: the duellist who
    /// holds more cards of the rank that is the distance; with equally many,
    /// the one with fewer cells between them and the far end of the strip;
    /// with that equal too, nobody.
    pub open spec fn tie_break(self) -> Option<PlayerID> {
        let have0 = count_of(self.p0.hand, self.board.distance());
        let have1 = count_of(self.p1.hand, self.board.distance());
        let edge0 = MOST_RIGHT_SIDE - self.board.pos0;
        let edge1 = self.board.pos1 - MOST_LEFT_SIDE;
        if have0 < have1 {
            Some(PlayerID::One)
        } else if have0 > have1 {
            Some(PlayerID::Zero)
        } else if edge0 < edge1 {
            Some(PlayerID::Zero)
        } else if edge0 > edge1 {
            Some(PlayerID::One)
        } else {
            None
        }
    }

    /// The match after the round has been decided by the exhausted deck.
    pub open spec fn decided_by_deck(self) -> GameView {
        match self.tie_break() {
            Some(winner) => self.awarded(winner),
            None => self,
        }
    }

    /// What follows once the cards of an action by `id` have been played:
    /// if the opponent is left without a legal action, `id` wins the round
    /// at once; otherwise `id` replenishes, and the round goes on unless
    /// that exhausts the deck, which decides the round.
    pub open spec fn resolved(self, id: PlayerID) -> (GameView, Kekka) {
        if !self.board.can_act(id.other(), self.hand(id.other())) {
            (self.awarded(id), Kekka::REnd(Some(id)))
        } else if self.deck_runs_out(id) {
            (self.replenished(id).decided_by_deck(), Kekka::REnd(self.replenished(id).tie_break()))
        } else {
            (self.replenished(id), Kekka::Continue)
        }
    }

    /// The match after `id` has put down the first card of rank `card` in
    /// hand and stepped by it.
    pub open spec fn moved(self, id: PlayerID, card: u8, direction: Direction) -> GameView {
        GameView {
            board: self.board.stepped(id, card as int, direction),
            ..self
        }.with_hand(id, self.hand(id).remove_value(card))
    }

    /// A movement by `id`: refused if `id` does not hold the card, or if
    /// the step is not legal; otherwise played and resolved.
    pub open spec fn movement(self, id: PlayerID, card: u8, direction: Direction) -> Result<
        (GameView, Kekka),
        PlayError,
    > {
        if !self.hand(id).contains(card) {
            Err(PlayError::CardNotHeld { card })
        } else if !self.board.can_move(id, card as int, direction) {
            Err(PlayError::IllegalMove { card, direction })
        } else {
            Ok(self.moved(id, card, direction).resolved(id))
        }
    }

    /// The match after a parried attack by `id`, who held `n` cards of rank
    /// `card`: the attacker has put down all of them, and the defender the
    /// last `n` of theirs.
    pub open spec fn parried(self, id: PlayerID, card: u8, n: nat) -> GameView {
        self.with_hand(id, without_last(self.hand(id), card as int, n)).with_hand(
            id.other(),
            without_last(self.hand(id.other()), card as int, n),
        )
    }

    /// An attack by `id` with `count` cards of rank `card`: refused unless
    /// the rank is the distance and `id` holds that many. The attack is made
    /// with every card of the rank that `id` holds. A defender who holds as
    /// many parries, and the action is resolved as a movement is; one who
    /// holds fewer loses the round at once, and no card is played.
    pub open spec fn attack(self, id: PlayerID, card: u8, count: u8) -> Result<
        (GameView, Kekka),
        PlayError,
    > {
        let attacking = count_of(self.hand(id), card as int);
        let defending = count_of(self.hand(id.other()), card as int);
        if !(attacking >= count && self.board.can_attack(card as int)) {
            Err(PlayError::AttackUnreachableOrInsufficient { card, count })
        } else if defending >= attacking {
            Ok(self.parried(id, card, attacking).resolved(id))
        } else {
            Ok((self.awarded(id), Kekka::REnd(Some(id))))
        }
    }
}

} // verus!
