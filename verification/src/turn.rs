//! The sequence of a turn, of a round and of a match, as the decisions
//! between the messages: the caller sends and receives, and asks here what
//! follows.
use crate::deck::Yamafuda;
use crate::errors::{Errors, PlayError, TurnError};
use crate::game::{GameManager, Kekka};
use crate::invariants::{lemma_attack, lemma_movement, lemma_next_round};
use crate::protocol::{
    BoardInfo, DoPlay, GameEnd, HandInfo, Messages, PlayAttackView, PlayMovementView, PlayedAttack,
    PlayedMoveMent, PlayerID, RoundEnd, ServerError,
};
use crate::rules::{is_full_deck, GameView};
use vstd::prelude::*;

verus! {

/// Where a turn stands. A turn begins by awaiting the active client's
/// declaration, and then awaits its action; a message that is refused sends
/// it back to the beginning.
#[derive(Debug, Clone, Copy, PartialEq, Eq)]
pub enum TurnState {
    AwaitDeclaration,
    AwaitAction,
    Resolved(Kekka),
}

/// A message that a step of a turn gives rise to: the report of a refusal,
/// with its cause, or the echo of an action.
pub enum Notice {
    Error(TurnError, ServerError),
    Movement(PlayedMoveMent),
    Attack(PlayedAttack),
}

/// What follows a message received in a turn: the state of the turn, and
/// the message to send, with the client it is for.
pub struct TurnStep {
    pub next: TurnState,
    pub notice: Option<(PlayerID, Notice)>,
}

/// What a step of a turn has to send.
pub enum Expected {
    Nothing,
    /// The report of this refusal.
    Error(PlayerID, TurnError),
    /// The echo of a movement.
    Movement(PlayerID, PlayMovementView),
    /// The echo of an attack.
    Attack(PlayerID, PlayAttackView),
}

impl TurnStep {
    /// Whether the message of this step is the one expected.
    pub open spec fn sends(self, expected: Expected) -> bool {
        match expected {
            Expected::Nothing => self.notice is None,
            Expected::Error(to, cause) => (self.notice matches Some(
                (id, Notice::Error(found, error)),
            ) && id == to && found == cause && error.says(cause.words())),
            Expected::Movement(to, play) => (self.notice matches Some(
                (id, Notice::Movement(echo)),
            ) && id == to && echo.echoes(play)),
            Expected::Attack(to, play) => (self.notice matches Some((id, Notice::Attack(echo)))
                && id == to && echo.echoes(play)),
        }
    }
}

/// The turn after an action was tried: resolved, with the echo for the
/// opponent, whether the round goes on or has ended; or refused, with the
/// report of the refusal.
pub open spec fn after_action(
    g: GameView,
    played: Result<(GameView, Kekka), PlayError>,
    echo: Expected,
) -> (GameView, TurnState, Expected) {
    match played {
        Ok((after, kekka)) => (after, TurnState::Resolved(kekka), echo),
        Err(e) => (
            g,
            TurnState::AwaitDeclaration,
            Expected::Error(g.board.current_player, TurnError::Play(e)),
        ),
    }
}

/// One step of a turn: the match, the state of the turn and the message
/// to send after `received` has come in from the active client.
///
/// A declaration is awaited first and an action second. Anything else, and
/// a text that is no message, is reported to the active client, changes
/// nothing, and begins the turn again. An action is played for the active
/// client; every action that is accepted is echoed to the other client,
/// also one that ends the round.
pub open spec fn turn_step(g: GameView, state: TurnState, received: Result<Messages, Errors>) -> (
    GameView,
    TurnState,
    Expected,
) {
    let current = g.board.current_player;
    match state {
        TurnState::Resolved(kekka) => (g, state, Expected::Nothing),
        TurnState::AwaitDeclaration => match received {
            Err(_) => (
                g,
                TurnState::AwaitDeclaration,
                Expected::Error(current, TurnError::Malformed),
            ),
            Ok(Messages::Eval(_)) => (g, TurnState::AwaitAction, Expected::Nothing),
            Ok(_) => (
                g,
                TurnState::AwaitDeclaration,
                Expected::Error(current, TurnError::DeclarationMissing),
            ),
        },
        TurnState::AwaitAction => match received {
            Err(_) => (
                g,
                TurnState::AwaitDeclaration,
                Expected::Error(current, TurnError::Malformed),
            ),
            Ok(Messages::Eval(_)) => (
                g,
                TurnState::AwaitDeclaration,
                Expected::Error(current, TurnError::DeclaredTwice),
            ),
            Ok(Messages::PlayM(movement)) => after_action(
                g,
                g.movement(current, movement@.play_card, movement@.direction),
                Expected::Movement(current.other(), movement@),
            ),
            Ok(Messages::PlayA(attack)) => after_action(
                g,
                g.attack(current, attack@.play_card, attack@.num_of_card),
                Expected::Attack(current.other(), attack@),
            ),
        },
    }
}

/// What both clients are sent at the top of every turn, and again when the
/// turn begins again: the board.
pub fn begin_round_turn(game: &GameManager) -> (r: BoardInfo)
    ensures
        r.shows(game@.board),
{
    BoardInfo::from_board(game.board())
}

/// What the active client is sent when its turn begins: its hand and the
/// prompt. The hand holds at least three cards, as in every state in which
/// a turn can begin.
pub fn begin_turn(game: &GameManager) -> (r: (HandInfo, DoPlay))
    requires
        game@.hand(game@.board.current_player).len() >= 3,
    ensures
        r.0.shows(game@.hand(game@.board.current_player)),
        r.1.is_prompt(),
{
    let current = game.board().current_player();
    (HandInfo::from_vec(game.player(current).hand()), DoPlay::new())
}

/// The step that refuses a message: the cause is reported to `to`, and
/// the turn begins again.
fn refuse(to: PlayerID, cause: TurnError) -> (step: TurnStep)
    ensures
        step.next == TurnState::AwaitDeclaration,
        step.sends(Expected::Error(to, cause)),
{
    TurnStep {
        next: TurnState::AwaitDeclaration,
        notice: Some((to, Notice::Error(cause, ServerError::new(cause.message())))),
    }
}

/// Takes one step of a turn with what was received from the active client.
pub fn process_turn(game: &mut GameManager, state: TurnState, received: Result<Messages, Errors>) -> (step:
    TurnStep)
    requires
        old(game)@.wf(),
        old(game)@.scores_have_room(),
    ensures
        final(game)@ == turn_step(old(game)@, state, received).0,
        step.next == turn_step(old(game)@, state, received).1,
        step.sends(turn_step(old(game)@, state, received).2),
        final(game)@.wf(),
        !(step.next is Resolved) ==> final(game)@ == old(game)@,
        old(game)@.turn_ready() && !(state is Resolved) && step.next == TurnState::Resolved(
            Kekka::Continue,
        ) ==> final(game)@.flipped().turn_ready(),
{
    let current = game.board().current_player();
    proof {
        match &received {
            Ok(Messages::PlayM(movement)) => {
                lemma_movement(game@, current, movement@.play_card, movement@.direction);
            },
            Ok(Messages::PlayA(attack)) => {
                lemma_attack(game@, current, attack@.play_card, attack@.num_of_card);
            },
            _ => {},
        }
    }
    match state {
        TurnState::Resolved(_) => TurnStep { next: state, notice: None },
        TurnState::AwaitDeclaration => match received {
            Err(_) => refuse(current, TurnError::Malformed),
            Ok(Messages::Eval(_)) => TurnStep { next: TurnState::AwaitAction, notice: None },
            Ok(_) => refuse(current, TurnError::DeclarationMissing),
        },
        TurnState::AwaitAction => match received {
            Err(_) => refuse(current, TurnError::Malformed),
            Ok(Messages::Eval(_)) => refuse(current, TurnError::DeclaredTwice),
            Ok(Messages::PlayM(movement)) => {
                match game.play_movement(current, &movement) {
                    Ok(kekka) => TurnStep {
                        next: TurnState::Resolved(kekka),
                        notice: Some(
                            (current.opposite(), Notice::Movement(PlayedMoveMent::new(&movement))),
                        ),
                    },
                    Err(e) => refuse(current, TurnError::Play(e)),
                }
            },
            Ok(Messages::PlayA(attack)) => {
                match game.play_attack(current, &attack) {
                    Ok(kekka) => TurnStep {
                        next: TurnState::Resolved(kekka),
                        notice: Some(
                            (current.opposite(), Notice::Attack(PlayedAttack::new(&attack))),
                        ),
                    },
                    Err(e) => refuse(current, TurnError::Play(e)),
                }
            },
        },
    }
}

/// Closes a turn that was resolved as `kekka`. If the round goes on, the
/// turn passes to the other client and nothing is sent; if the round has
/// ended, the result, which is for both clients, is returned.
pub fn process_round(game: &mut GameManager, kekka: Kekka) -> (r: Option<RoundEnd>)
    ensures
        match kekka {
            Kekka::Continue => r is None && final(game)@ == old(game)@.flipped(),
            Kekka::REnd(winner) => final(game)@ == old(game)@ && (r matches Some(end)
                && end.reports(old(game)@.board, winner)),
        },
{
    match kekka {
        Kekka::Continue => {
            let next = game.board().current_player().opposite();
            *game.current_playerid_mut() = next;
            None
        },
        Kekka::REnd(None) => Some(RoundEnd::hikiwake(game.board())),
        Kekka::REnd(Some(winner)) => Some(RoundEnd::win_lose(game.board(), winner)),
    }
}

/// Goes on after a round that has ended. If the match is won, nothing
/// changes and the result is returned, which is for both clients; otherwise
/// a new round is dealt from `deck`, and the other client begins it.
pub fn next_round_with(game: &mut GameManager, deck: Vec<u8>) -> (r: Option<GameEnd>)
    requires
        is_full_deck(deck@),
    ensures
        final(game)@ == old(game)@.next_round(deck@),
        match old(game)@.game_end {
            Some(winner) => final(game)@ == old(game)@ && (r matches Some(end) && end.reports(
                old(game)@.board,
                winner,
            )),
            None => {
                &&& r is None
                &&& final(game)@.first_player == old(game)@.first_player.other()
                &&& final(game)@.board.current_player == final(game)@.first_player
                &&& final(game)@.at_round_start()
                &&& old(game)@.wf() ==> final(game)@.turn_ready()
            },
        },
        old(game)@.wf() ==> final(game)@.wf(),
{
    proof {
        lemma_next_round(game@, deck@);
    }
    match game.ended() {
        None => {
            game.deal(deck);
            game.change_first_player();
            None
        },
        Some(winner) => Some(GameEnd::new(game.board(), winner)),
    }
}

/// Goes on after a round that has ended, with a freshly shuffled pack for
/// the new round if there is one.
pub fn next_round(game: &mut GameManager) -> (r: Option<GameEnd>)
    ensures
        exists|deck: Seq<u8>| is_full_deck(deck) && final(game)@ == old(game)@.next_round(deck),
        match old(game)@.game_end {
            Some(winner) => final(game)@ == old(game)@ && (r matches Some(end) && end.reports(
                old(game)@.board,
                winner,
            )),
            None => {
                &&& r is None
                &&& final(game)@.first_player == old(game)@.first_player.other()
                &&& final(game)@.board.current_player == final(game)@.first_player
                &&& final(game)@.at_round_start()
                &&& old(game)@.wf() ==> final(game)@.turn_ready()
            },
        },
        old(game)@.wf() ==> final(game)@.wf(),
{
    next_round_with(game, Yamafuda::create())
}

} // verus!
