//! The executable board, hands and match engine.
use crate::cards::{
    all_ranks, count_cards, count_of, lemma_count_bounds, lemma_count_positive,
    lemma_count_push, top_cards, without_last,
};
use crate::deck::Yamafuda;
use crate::errors::PlayError;
use crate::invariants::{
    lemma_attack, lemma_cards_conserved, lemma_dealt_round_start, lemma_movement,
    lemma_opening_wf, lemma_ranks_in_play, lemma_stepped,
};
use crate::protocol::{Direction, PlayAttack, PlayMovement, PlayerID};
use crate::rules::{
    copies, is_full_deck, BoardView, GameView, PlayerView, HAND_SIZE, MOST_LEFT_SIDE,
    MOST_RIGHT_SIDE,
};
use vstd::prelude::*;

verus! {

/// How an action left the round.
#[derive(Debug, Clone, Copy, PartialEq, Eq)]
pub enum Kekka {
    /// The round has ended: won by the duellist named, or drawn.
    REnd(Option<PlayerID>),
    /// The round goes on with the other duellist's turn.
    Continue,
}

/// Where the duellists stand, what they have scored, the cards not yet
/// drawn, and whose turn it is.
#[derive(Debug)]
pub struct Board {
    p0_pos: u8,
    p1_pos: u8,
    p0_score: u32,
    p1_score: u32,
    yamafuda: Vec<u8>,
    current_player: PlayerID,
}

impl View for Board {
    type V = BoardView;

    closed spec fn view(&self) -> BoardView {
        BoardView {
            pos0: self.p0_pos as int,
            pos1: self.p1_pos as int,
            score0: self.p0_score as nat,
            score1: self.p1_score as nat,
            deck: self.yamafuda@,
            current_player: self.current_player,
        }
    }
}

impl Board {
    /// A board for the start of a match, with a freshly shuffled pack.
    fn new() -> (r: Self)
        ensures
            r@.pos0 == MOST_LEFT_SIDE,
            r@.pos1 == MOST_RIGHT_SIDE,
            r@.score0 == 0,
            r@.score1 == 0,
            r@.current_player == PlayerID::Zero,
            is_full_deck(r@.deck),
    {
        Self::with_deck(Yamafuda::create())
    }

    /// A board for the start of a match, with `deck` as its pack.
    fn with_deck(deck: Vec<u8>) -> (r: Self)
        ensures
            r@ == (BoardView {
                pos0: MOST_LEFT_SIDE as int,
                pos1: MOST_RIGHT_SIDE as int,
                score0: 0,
                score1: 0,
                deck: deck@,
                current_player: PlayerID::Zero,
            }),
    {
        Self {
            p0_pos: MOST_LEFT_SIDE,
            p1_pos: MOST_RIGHT_SIDE,
            p0_score: 0,
            p1_score: 0,
            yamafuda: deck,
            current_player: PlayerID::Zero,
        }
    }

    pub fn pos(&self, id: PlayerID) -> (r: u8)
        ensures
            r == self@.pos(id),
    {
        match id {
            PlayerID::Zero => self.p0_pos,
            PlayerID::One => self.p1_pos,
        }
    }

    pub fn score(&self, id: PlayerID) -> (r: u32)
        ensures
            r == self@.score(id),
    {
        match id {
            PlayerID::Zero => self.p0_score,
            PlayerID::One => self.p1_score,
        }
    }

    pub fn yamafuda(&self) -> (r: &[u8])
        ensures
            r@ == self@.deck,
    {
        self.yamafuda.as_slice()
    }

    pub fn current_player(&self) -> (r: PlayerID)
        ensures
            r == self@.current_player,
    {
        self.current_player
    }

    fn score_mut(&mut self, id: PlayerID) -> (r: &mut u32)
        ensures
            *r == old(self)@.score(id),
            final(self)@ == (match id {
                PlayerID::Zero => BoardView { score0: *final(r) as nat, ..old(self)@ },
                PlayerID::One => BoardView { score1: *final(r) as nat, ..old(self)@ },
            }),
    {
        match id {
            PlayerID::Zero => &mut self.p0_score,
            PlayerID::One => &mut self.p1_score,
        }
    }
}

/// A duellist: a side of the strip and a hand of cards.
#[derive(Debug)]
pub struct Player {
    id: PlayerID,
    hand: Vec<u8>,
}

impl View for Player {
    type V = PlayerView;

    closed spec fn view(&self) -> PlayerView {
        PlayerView { id: self.id, hand: self.hand@ }
    }
}

impl Player {
    pub fn can_move(&self, board: &Board, card: u8, direction: Direction) -> (r: bool)
        ensures
            r == board@.can_move(self@.id, card as int, direction),
    {
        let own: u16 = board.pos(self.id) as u16;
        let opponent: u16 = board.pos(self.id.opposite()) as u16;
        let step: u16 = card as u16;
        match (self.id, direction) {
            (PlayerID::Zero, Direction::Back) => own >= step + MOST_LEFT_SIDE as u16,
            (PlayerID::Zero, Direction::Forward) => own + step < opponent,
            (PlayerID::One, Direction::Back) => own + step <= MOST_RIGHT_SIDE as u16,
            (PlayerID::One, Direction::Forward) => own > opponent + step,
        }
    }

    pub fn can_attack(&self, board: &Board, card: u8) -> (r: bool)
        ensures
            r == board@.can_attack(card as int),
    {
        let left: u16 = board.pos(PlayerID::Zero) as u16;
        let right: u16 = board.pos(PlayerID::One) as u16;
        left + card as u16 == right
    }

    pub fn can_actions(&self, board: &Board) -> (r: bool)
        ensures
            r == board@.can_act(self@.id, self@.hand),
    {
        let mut i: usize = 0;
        while i < self.hand.len()
            invariant
                i <= self.hand.len(),
                forall|j: int| 0 <= j < i ==> !board@.playable(self@.id, #[trigger] self@.hand[j] as int),
            decreases self.hand.len() - i,
        {
            let card: u8 = self.hand[i];
            if self.can_attack(board, card) || self.can_move(board, card, Direction::Forward)
                || self.can_move(board, card, Direction::Back) {
                return true;
            }
            i += 1;
        }
        false
    }

    pub fn card_pos(&self, card: u8) -> (r: Option<usize>)
        ensures
            match r {
                Some(i) => {
                    &&& i < self@.hand.len()
                    &&& self@.hand[i as int] == card
                    &&& self@.hand.index_of_first(card) == Some(i as int)
                },
                None => self@.hand.index_of_first(card) is None,
            },
            r is Some <==> self@.hand.contains(card),
    {
        let mut i: usize = 0;
        while i < self.hand.len()
            invariant
                i <= self.hand.len(),
                forall|j: int| 0 <= j < i ==> self.hand@[j] != card,
            decreases self.hand.len() - i,
        {
            if self.hand[i] == card {
                proof {
                    assert(self.hand@.contains(card));
                    self.hand@.index_of_first_ensures(card);
                }
                return Some(i);
            }
            i += 1;
        }
        proof {
            self.hand@.index_of_first_ensures(card);
        }
        None
    }

    pub fn card_positions(&self, card: u8) -> (r: Vec<usize>)
        ensures
            r@.len() == count_of(self@.hand, card as int),
            forall|k: int| 0 <= k < r@.len() ==> r@[k] < self@.hand.len() && self@.hand[r@[k] as int] == card,
            forall|k: int, l: int| 0 <= k < l < r@.len() ==> r@[k] < r@[l],
            forall|i: int| 0 <= i < self@.hand.len() && self@.hand[i] == card ==> r@.contains(i as usize),
    {
        let mut found: Vec<usize> = Vec::new();
        let mut i: usize = 0;
        while i < self.hand.len()
            invariant
                i <= self.hand.len(),
                found@.len() == count_of(self.hand@.take(i as int), card as int),
                forall|k: int| 0 <= k < found@.len() ==> found@[k] < i && self.hand@[found@[k] as int] == card,
                forall|k: int, l: int| 0 <= k < l < found@.len() ==> found@[k] < found@[l],
                forall|j: int| 0 <= j < i && self.hand@[j] == card ==> found@.contains(j as usize),
            decreases self.hand.len() - i,
        {
            proof {
                assert(self.hand@.take(i + 1) =~= self.hand@.take(i as int).push(self.hand@[i as int]));
                lemma_count_push(self.hand@.take(i as int), self.hand@[i as int], card as int);
            }
            if self.hand[i] == card {
                let ghost before = found@;
                found.push(i);
                assert forall|j: int| 0 <= j < i + 1 && self.hand@[j] == card implies found@.contains(
                    j as usize,
                ) by {
                    if j < i {
                        let k = choose|k: int| 0 <= k < before.len() && before[k] == j as usize;
                        assert(found@[k] == j as usize);
                    } else {
                        assert(found@[found@.len() - 1] == j as usize);
                    }
                }
            }
            i += 1;
        }
        assert(self.hand@.take(i as int) =~= self.hand@);
        found
    }

    pub fn remove_card(&mut self, index: usize)
        requires
            index < old(self)@.hand.len(),
        ensures
            final(self)@ == (PlayerView { hand: old(self)@.hand.remove(index as int), ..old(self)@ }),
    {
        self.hand.remove(index);
    }

    pub fn push_card(&mut self, card: u8)
        ensures
            final(self)@ == (PlayerView { hand: old(self)@.hand.push(card), ..old(self)@ }),
    {
        self.hand.push(card);
    }

    pub fn count_card(&self, card: u8) -> (r: usize)
        ensures
            r == count_of(self@.hand, card as int),
    {
        count_cards(self.hand.as_slice(), card)
    }

    pub fn hand(&self) -> (r: &[u8])
        ensures
            r@ == self@.hand,
    {
        self.hand.as_slice()
    }

    /// Puts down the last `n` cards of rank `card` in hand, or all of them
    /// where the hand holds fewer.
    fn discard(&mut self, card: u8, n: usize)
        ensures
            final(self)@ == (PlayerView {
                hand: without_last(old(self)@.hand, card as int, n as nat),
                ..old(self)@
            }),
    {
        let ghost start = self.hand@;
        let ghost mut kept: Seq<u8> = Seq::empty();
        let mut left: usize = n;
        let mut i: usize = self.hand.len();
        proof {
            assert(start.take(i as int) =~= start);
        }
        while i > 0 && left > 0
            invariant
                i <= start.len(),
                self.id == old(self).id,
                self.hand@ == start.take(i as int) + kept,
                without_last(start, card as int, n as nat) == without_last(
                    start.take(i as int),
                    card as int,
                    left as nat,
                ) + kept,
            decreases i,
        {
            let ghost front = start.take(i as int);
            proof {
                assert(front.drop_last() =~= start.take(i - 1));
                assert(front.last() == start[i - 1]);
            }
            i -= 1;
            if self.hand[i] == card {
                self.hand.remove(i);
                left -= 1;
                proof {
                    assert(self.hand@ =~= start.take(i as int) + kept);
                }
            } else {
                proof {
                    let shorter = without_last(start.take(i as int), card as int, left as nat);
                    assert(shorter.push(start[i as int]) + kept =~= shorter + (seq![start[i as int]]
                        + kept));
                    assert(start.take(i + 1) + kept =~= start.take(i as int) + (seq![
                        start[i as int],
                    ] + kept));
                    kept = seq![start[i as int]] + kept;
                }
            }
        }
    }
}

/// A match: the two duellists, the board, who begins the round, and the
/// winner once there is one.
pub struct GameManager {
    p0: Player,
    p1: Player,
    board: Board,
    first_player: PlayerID,
    game_end: Option<PlayerID>,
    max_win: u32,
}

impl View for GameManager {
    type V = GameView;

    closed spec fn view(&self) -> GameView {
        GameView {
            p0: self.p0@,
            p1: self.p1@,
            board: self.board@,
            first_player: self.first_player,
            game_end: self.game_end,
            max_win: self.max_win as nat,
        }
    }
}

impl GameManager {
    /// A match to `max_win` points, with the first round dealt from a
    /// freshly shuffled pack.
    pub fn new(max_win: u32) -> (r: Self)
        ensures
            exists|deck: Seq<u8>| is_full_deck(deck) && r@ == GameView::opening(max_win as nat, deck),
            r@.wf(),
            r@.at_round_start(),
            r@.turn_ready(),
    {
        let mut board = Board::new();
        let ghost deck = board@.deck;
        let p0_hand = board.yamafuda.split_off(board.yamafuda.len() - 5);
        let p1_hand = board.yamafuda.split_off(board.yamafuda.len() - 5);
        let r = Self {
            p0: Player { id: PlayerID::Zero, hand: p0_hand },
            p1: Player { id: PlayerID::One, hand: p1_hand },
            first_player: PlayerID::Zero,
            board,
            game_end: None,
            max_win,
        };
        proof {
            assert(r@.board.deck =~= deck.subrange(0, deck.len() - 10));
            assert(r@.p1.hand =~= deck.subrange(deck.len() - 10, deck.len() - 5));
            assert(r@ =~= GameView::opening(max_win as nat, deck));
            lemma_opening_wf(max_win as nat, deck);
        }
        r
    }

    /// A match to `max_win` points, with the first round dealt from `deck`.
    pub fn with_deck(max_win: u32, deck: Vec<u8>) -> (r: Self)
        requires
            is_full_deck(deck@),
        ensures
            r@ == GameView::opening(max_win as nat, deck@),
            r@.wf(),
            r@.at_round_start(),
            r@.turn_ready(),
    {
        let mut r = Self {
            p0: Player { id: PlayerID::Zero, hand: Vec::new() },
            p1: Player { id: PlayerID::One, hand: Vec::new() },
            first_player: PlayerID::Zero,
            board: Board::with_deck(Vec::new()),
            game_end: None,
            max_win,
        };
        r.deal(deck);
        proof {
            lemma_opening_wf(max_win as nat, deck@);
        }
        r
    }

    /// A match in the state given, if that state is well formed: the state
    /// of a round under way, for a caller that keeps matches elsewhere.
    pub fn from_parts(
        p0_hand: Vec<u8>,
        p1_hand: Vec<u8>,
        board: (u8, u8, u32, u32),
        yamafuda: Vec<u8>,
        players: (PlayerID, PlayerID),
        game_end: Option<PlayerID>,
        max_win: u32,
    ) -> (r: Option<Self>)
        ensures
            match r {
                Some(game) => game@.wf() && game@ == Self::parts(
                    p0_hand@,
                    p1_hand@,
                    board,
                    yamafuda@,
                    players,
                    game_end,
                    max_win,
                ),
                None => !Self::parts(
                    p0_hand@,
                    p1_hand@,
                    board,
                    yamafuda@,
                    players,
                    game_end,
                    max_win,
                ).wf(),
            },
    {
        let game = Self {
            p0: Player { id: PlayerID::Zero, hand: p0_hand },
            p1: Player { id: PlayerID::One, hand: p1_hand },
            board: Board {
                p0_pos: board.0,
                p1_pos: board.1,
                p0_score: board.2,
                p1_score: board.3,
                yamafuda,
                current_player: players.0,
            },
            first_player: players.1,
            game_end,
            max_win,
        };
        if game.is_well_formed() {
            Some(game)
        } else {
            None
        }
    }

    /// The state that `from_parts` is asked for: the two hands; the
    /// positions and the scores of `Zero` and `One`; the deck; whose turn it
    /// is and who began the round; the winner of the match, if any; the
    /// threshold.
    pub open spec fn parts(
        p0_hand: Seq<u8>,
        p1_hand: Seq<u8>,
        board: (u8, u8, u32, u32),
        yamafuda: Seq<u8>,
        players: (PlayerID, PlayerID),
        game_end: Option<PlayerID>,
        max_win: u32,
    ) -> GameView {
        GameView {
            p0: PlayerView { id: PlayerID::Zero, hand: p0_hand },
            p1: PlayerView { id: PlayerID::One, hand: p1_hand },
            board: BoardView {
                pos0: board.0 as int,
                pos1: board.1 as int,
                score0: board.2 as nat,
                score1: board.3 as nat,
                deck: yamafuda,
                current_player: players.0,
            },
            first_player: players.1,
            game_end,
            max_win: max_win as nat,
        }
    }

    /// Whether the state is well formed.
    pub fn is_well_formed(&self) -> (r: bool)
        ensures
            r == self@.wf(),
    {
        let seated = match (self.p0.id, self.p1.id) {
            (PlayerID::Zero, PlayerID::One) => true,
            _ => false,
        };
        let on_strip = MOST_LEFT_SIDE <= self.board.p0_pos && self.board.p0_pos < self.board.p1_pos
            && self.board.p1_pos <= MOST_RIGHT_SIDE;
        let standing = match self.game_end {
            Some(winner) => self.board.score(winner) >= self.max_win,
            None => (self.board.p0_score < self.max_win || self.board.p0_score == 0) && (
            self.board.p1_score < self.max_win || self.board.p1_score == 0),
        };
        if !seated || !on_strip || !standing || self.p0.hand.len() > HAND_SIZE || self.p1.hand.len()
            > HAND_SIZE {
            return false;
        }
        let ranks_in_deck = all_ranks(self.board.yamafuda.as_slice());
        let ranks_in_p0 = all_ranks(self.p0.hand.as_slice());
        let ranks_in_p1 = all_ranks(self.p1.hand.as_slice());
        if !ranks_in_deck || !ranks_in_p0 || !ranks_in_p1 {
            proof {
                if self@.wf() {
                    lemma_ranks_in_play(self@);
                    assert(self@.board.deck == self.board.yamafuda@);
                    assert(self@.p0.hand == self.p0.hand@);
                    assert(self@.p1.hand == self.p1.hand@);
                }
            }
            return false;
        }
        let mut rank: u8 = 1;
        while rank <= 5
            invariant
                1 <= rank <= 6,
                self.p0.hand@.len() <= HAND_SIZE,
                self.p1.hand@.len() <= HAND_SIZE,
                forall|card: int| 1 <= card < rank ==> #[trigger] self@.in_play(card) <= 5,
            decreases 6 - rank,
        {
            proof {
                lemma_count_bounds(self.p0.hand@, rank as int);
                lemma_count_bounds(self.p1.hand@, rank as int);
            }
            let in_deck: usize = count_cards(self.board.yamafuda.as_slice(), rank);
            let in_hands: usize = self.p0.count_card(rank) + self.p1.count_card(rank);
            if in_deck > 5 || in_deck + in_hands > 5 {
                assert(self@.in_play(rank as int) > copies(rank as int));
                return false;
            }
            rank += 1;
        }
        proof {
            assert forall|card: int| #[trigger] self@.in_play(card) <= copies(card) by {
                if !(1 <= card <= 5) {
                    lemma_count_positive(self@.board.deck, card);
                    lemma_count_positive(self@.p0.hand, card);
                    lemma_count_positive(self@.p1.hand, card);
                }
            }
        }
        true
    }

    pub fn change_first_player(&mut self)
        ensures
            final(self)@ == (GameView {
                first_player: old(self)@.first_player.other(),
                board: BoardView {
                    current_player: old(self)@.first_player.other(),
                    ..old(self)@.board
                },
                ..old(self)@
            }),
    {
        self.first_player = self.first_player.opposite();
        *self.current_playerid_mut() = self.first_player;
    }

    pub fn player(&self, id: PlayerID) -> (r: &Player)
        ensures
            r@ == self@.player(id),
    {
        match id {
            PlayerID::Zero => &self.p0,
            PlayerID::One => &self.p1,
        }
    }

    pub fn player_mut(&mut self, id: PlayerID) -> (r: &mut Player)
        ensures
            r@ == old(self)@.player(id),
            final(self)@ == (match id {
                PlayerID::Zero => GameView { p0: final(r)@, ..old(self)@ },
                PlayerID::One => GameView { p1: final(r)@, ..old(self)@ },
            }),
    {
        match id {
            PlayerID::Zero => &mut self.p0,
            PlayerID::One => &mut self.p1,
        }
    }

    pub fn board(&self) -> (r: &Board)
        ensures
            r@ == self@.board,
    {
        &self.board
    }

    pub fn current_playerid_mut(&mut self) -> (r: &mut PlayerID)
        ensures
            *r == old(self)@.board.current_player,
            final(self)@ == (GameView {
                board: BoardView { current_player: *final(r), ..old(self)@.board },
                ..old(self)@
            }),
    {
        &mut self.board.current_player
    }

    /// The winner of the match, once a score has reached the threshold.
    pub fn ended(&self) -> (r: Option<PlayerID>)
        ensures
            r == self@.game_end,
    {
        self.game_end
    }

    /// Begins a new round with a freshly shuffled pack: full hands, and
    /// both duellists back at their ends.
    pub fn reset_round(&mut self)
        ensures
            exists|deck: Seq<u8>| is_full_deck(deck) && final(self)@ == old(self)@.dealt(deck),
            final(self)@.at_round_start(),
            final(self)@.p0.hand.len() == 5,
            final(self)@.p1.hand.len() == 5,
            final(self)@.board.deck.len() == 15,
            final(self)@.board.pos0 == MOST_LEFT_SIDE,
            final(self)@.board.pos1 == MOST_RIGHT_SIDE,
            old(self)@.wf() ==> final(self)@.wf(),
    {
        let yamafuda = Yamafuda::create();
        self.deal(yamafuda);
    }

    /// Begins a new round with `deck` as its pack.
    pub fn deal(&mut self, deck: Vec<u8>)
        requires
            is_full_deck(deck@),
        ensures
            final(self)@ == old(self)@.dealt(deck@),
            final(self)@.at_round_start(),
            old(self)@.wf() ==> final(self)@.wf(),
    {
        let mut yamafuda = deck;
        self.p0.hand = yamafuda.split_off(yamafuda.len() - 5);
        self.p1.hand = yamafuda.split_off(yamafuda.len() - 5);
        self.board.p0_pos = MOST_LEFT_SIDE;
        self.board.p1_pos = MOST_RIGHT_SIDE;
        self.board.yamafuda = yamafuda;
        proof {
            assert(self@.board.deck =~= deck@.subrange(0, deck@.len() - 10));
            assert(self@.p1.hand =~= deck@.subrange(deck@.len() - 10, deck@.len() - 5));
            assert(self@ =~= old(self)@.dealt(deck@));
            lemma_dealt_round_start(old(self)@, deck@);
        }
    }

    fn move_player(&mut self, id: PlayerID, direction: Direction, card: u8)
        requires
            old(self)@.board.can_move(id, card as int, direction),
        ensures
            final(self)@ == (GameView {
                board: old(self)@.board.stepped(id, card as int, direction),
                ..old(self)@
            }),
            old(self)@.board.on_strip() ==> final(self)@.board.on_strip(),
    {
        proof {
            if old(self)@.board.on_strip() {
                lemma_stepped(old(self)@.board, id, card as int, direction);
            }
        }
        match (id, direction) {
            (PlayerID::Zero, Direction::Back) => self.board.p0_pos -= card,
            (PlayerID::Zero, Direction::Forward) => self.board.p0_pos += card,
            (PlayerID::One, Direction::Back) => self.board.p1_pos += card,
            (PlayerID::One, Direction::Forward) => self.board.p1_pos -= card,
        }
    }

    /// Ends the round because the deck is exhausted.
    fn round_end_yamafuda(&mut self) -> (r: Kekka)
        requires
            old(self)@.board.on_strip(),
            match old(self)@.tie_break() {
                Some(winner) => old(self)@.board.score(winner) < u32::MAX,
                None => true,
            },
        ensures
            final(self)@ == old(self)@.decided_by_deck(),
            r == Kekka::REnd(old(self)@.tie_break()),
    {
        let distance: u8 = self.board.pos(PlayerID::One) - self.board.pos(PlayerID::Zero);
        let have0: usize = self.player(PlayerID::Zero).count_card(distance);
        let have1: usize = self.player(PlayerID::One).count_card(distance);
        if have0 < have1 {
            self.award(PlayerID::One)
        } else if have0 > have1 {
            self.award(PlayerID::Zero)
        } else {
            let distance_from_opposite_0: u8 = MOST_RIGHT_SIDE - self.board.pos(PlayerID::Zero);
            let distance_from_opposite_1: u8 = self.board.pos(PlayerID::One) - MOST_LEFT_SIDE;
            if distance_from_opposite_0 < distance_from_opposite_1 {
                self.award(PlayerID::Zero)
            } else if distance_from_opposite_0 > distance_from_opposite_1 {
                self.award(PlayerID::One)
            } else {
                Kekka::REnd(None)
            }
        }
    }

    /// Ends the round because the defender could not parry.
    fn round_end_attack(&mut self, id: PlayerID) -> (r: Kekka)
        requires
            old(self)@.board.score(id) < u32::MAX,
        ensures
            final(self)@ == old(self)@.awarded(id),
            r == Kekka::REnd(Some(id)),
    {
        self.award(id)
    }

    /// Ends the round because the opponent of `id` has no legal action.
    fn round_end_tumi(&mut self, id: PlayerID) -> (r: Kekka)
        requires
            old(self)@.board.score(id) < u32::MAX,
        ensures
            final(self)@ == old(self)@.awarded(id),
            r == Kekka::REnd(Some(id)),
    {
        self.award(id)
    }

    /// Gives `id` the point for the round, and the match if that reaches
    /// the threshold.
    fn award(&mut self, id: PlayerID) -> (r: Kekka)
        requires
            old(self)@.board.score(id) < u32::MAX,
        ensures
            final(self)@ == old(self)@.awarded(id),
            r == Kekka::REnd(Some(id)),
    {
        let score = self.board.score_mut(id);
        *score = *score + 1;
        if self.board.score(id) >= self.max_win {
            self.game_end = Some(id);
        }
        Kekka::REnd(Some(id))
    }

    /// Draws for `id` until the hand is full or the deck is exhausted, and
    /// says whether the deck was exhausted.
    fn replenish(&mut self, id: PlayerID) -> (ran_out: bool)
        ensures
            final(self)@ == old(self)@.replenished(id),
            ran_out == old(self)@.deck_runs_out(id),
    {
        let ghost start = self@;
        let ghost deck = start.board.deck;
        let ghost mut drawn: nat = 0;
        let mut ran_out = false;
        proof {
            assert(deck.take(deck.len() - 0) =~= deck);
            assert(start.hand(id) + top_cards(deck, 0) =~= start.hand(id));
        }
        while self.player(id).hand().len() < HAND_SIZE
            invariant
                start == old(self)@,
                deck == start.board.deck,
                drawn <= start.shortfall(id),
                drawn <= deck.len(),
                !ran_out ==> (drawn > 0 ==> drawn < deck.len()),
                ran_out ==> drawn == deck.len() && start.shortfall(id) > 0,
                self.board@.deck == deck.take(deck.len() - drawn),
                self@.hand(id) == start.hand(id) + top_cards(deck, drawn),
                self@.hand(id.other()) == start.hand(id.other()),
                self@.p0.id == start.p0.id,
                self@.p1.id == start.p1.id,
                self.board@.pos0 == start.board.pos0,
                self.board@.pos1 == start.board.pos1,
                self.board@.score0 == start.board.score0,
                self.board@.score1 == start.board.score1,
                self.board@.current_player == start.board.current_player,
                self@.board == self.board@,
                self@.first_player == start.first_player,
                self@.game_end == start.game_end,
                self@.max_win == start.max_win,
            ensures
                ran_out || self@.hand(id).len() >= HAND_SIZE,
            decreases HAND_SIZE - self@.hand(id).len(),
        {
            match self.board.yamafuda.pop() {
                Some(card) => {
                    self.player_mut(id).push_card(card);
                    proof {
                        assert(top_cards(deck, drawn + 1) =~= top_cards(deck, drawn).push(card));
                        assert(deck.take(deck.len() - drawn).subrange(0, deck.len() - drawn - 1)
                            =~= deck.take(deck.len() - (drawn + 1)));
                        assert(start.hand(id) + top_cards(deck, drawn + 1) =~= (start.hand(id)
                            + top_cards(deck, drawn)).push(card));
                        drawn = drawn + 1;
                    }
                },
                None => {
                    ran_out = true;
                    break ;
                },
            }
            if self.board.yamafuda.is_empty() {
                ran_out = true;
                break ;
            }
        }
        proof {
            assert(drawn == start.draws(id));
            assert(self@.p0 =~= start.replenished(id).p0);
            assert(self@.p1 =~= start.replenished(id).p1);
            assert(self@.board =~= start.replenished(id).board);
            assert(self@ =~= start.replenished(id));
        }
        ran_out
    }

    /// What follows once the cards of an action by `id` are played: the
    /// check for an opponent without a legal action, then replenishing.
    fn resolve(&mut self, id: PlayerID) -> (r: Kekka)
        requires
            old(self)@.board.on_strip(),
            old(self)@.scores_have_room(),
            old(self)@.p0.id == PlayerID::Zero,
            old(self)@.p1.id == PlayerID::One,
        ensures
            (final(self)@, r) == old(self)@.resolved(id),
    {
        if !self.player(id.opposite()).can_actions(&self.board) {
            return self.round_end_tumi(id);
        }
        if self.replenish(id) {
            self.round_end_yamafuda()
        } else {
            Kekka::Continue
        }
    }

    /// Plays a movement for `id`.
    pub fn play_movement(&mut self, id: PlayerID, movement: &PlayMovement) -> (r: Result<
        Kekka,
        PlayError,
    >)
        requires
            old(self)@.wf(),
            old(self)@.scores_have_room(),
        ensures
            match old(self)@.movement(id, movement@.play_card, movement@.direction) {
                Ok((after, kekka)) => r == Ok::<Kekka, PlayError>(kekka) && final(self)@ == after,
                Err(e) => r == Err::<Kekka, PlayError>(e) && final(self)@ == old(self)@,
            },
            final(self)@.wf(),
            final(self)@.discarded() >= 0,
            r is Ok ==> final(self)@.discarded() == old(self)@.discarded() + 1,
            r is Err ==> final(self)@.discarded() == old(self)@.discarded(),
            MOST_LEFT_SIDE <= final(self)@.board.pos0 < final(self)@.board.pos1 <= MOST_RIGHT_SIDE,
            !old(self)@.hand(id).contains(movement@.play_card) ==> final(self)@ == old(self)@ && r
                == Err::<Kekka, PlayError>(PlayError::CardNotHeld { card: movement@.play_card }),
    {
        let card: u8 = movement.play_card();
        let direction: Direction = movement.direction();
        proof {
            lemma_movement(old(self)@, id, card, direction);
            match old(self)@.movement(id, card, direction) {
                Ok((after, _)) => lemma_cards_conserved(after),
                Err(_) => lemma_cards_conserved(old(self)@),
            }
        }
        match self.player(id).card_pos(card) {
            Some(index) => {
                if self.player(id).can_move(&self.board, card, direction) {
                    self.player_mut(id).remove_card(index);
                    self.move_player(id, direction, card);
                    assert(self@ == old(self)@.moved(id, card, direction));
                    Ok(self.resolve(id))
                } else {
                    Err(PlayError::IllegalMove { card, direction })
                }
            },
            None => Err(PlayError::CardNotHeld { card }),
        }
    }

    /// Plays an attack for `id`.
    pub fn play_attack(&mut self, id: PlayerID, attack: &PlayAttack) -> (r: Result<
        Kekka,
        PlayError,
    >)
        requires
            old(self)@.wf(),
            old(self)@.scores_have_room(),
        ensures
            match old(self)@.attack(id, attack@.play_card, attack@.num_of_card) {
                Ok((after, kekka)) => r == Ok::<Kekka, PlayError>(kekka) && final(self)@ == after,
                Err(e) => r == Err::<Kekka, PlayError>(e) && final(self)@ == old(self)@,
            },
            final(self)@.wf(),
            final(self)@.discarded() >= 0,
            r is Ok ==> final(self)@.discarded() == old(self)@.discarded() + (if count_of(
                old(self)@.hand(id.other()),
                attack@.play_card as int,
            ) >= count_of(old(self)@.hand(id), attack@.play_card as int) {
                2 * count_of(old(self)@.hand(id), attack@.play_card as int)
            } else {
                0
            }),
            r is Err ==> final(self)@.discarded() == old(self)@.discarded(),
            MOST_LEFT_SIDE <= final(self)@.board.pos0 < final(self)@.board.pos1 <= MOST_RIGHT_SIDE,
            old(self)@.board.distance() != attack@.play_card ==> r is Err && final(self)@ == old(
                self,
            )@,
            count_of(old(self)@.hand(id), attack@.play_card as int) < attack@.num_of_card ==> r
                is Err && final(self)@ == old(self)@,
    {
        let card: u8 = attack.play_card();
        let count: u8 = attack.num_of_card();
        proof {
            lemma_attack(old(self)@, id, card, count);
            match old(self)@.attack(id, card, count) {
                Ok((after, _)) => lemma_cards_conserved(after),
                Err(_) => lemma_cards_conserved(old(self)@),
            }
        }
        let attacking: usize = self.player(id).count_card(card);
        if attacking >= count as usize && self.player(id).can_attack(&self.board, card) {
            let defending: usize = self.player(id.opposite()).count_card(card);
            if defending >= attacking {
                self.player_mut(id.opposite()).discard(card, attacking);
                self.player_mut(id).discard(card, attacking);
                assert(self@ == old(self)@.parried(id, card, attacking as nat));
                Ok(self.resolve(id))
            } else {
                Ok(self.round_end_attack(id))
            }
        } else {
            Err(PlayError::AttackUnreachableOrInsufficient { card, count })
        }
    }
}

} // verus!
