use engarde::errors::{Errors, PlayError, TurnError};
use engarde::game::{GameManager, Kekka};
use engarde::protocol::{Direction, Messages, PlayAttack, PlayMovement, PlayerID};
use engarde::turn::{
    begin_round_turn, begin_turn, next_round, next_round_with, process_round, process_turn, Notice,
    TurnState,
};

fn game(current: PlayerID) -> GameManager {
    GameManager::from_parts(
        vec![1, 2, 2, 4, 4],
        vec![1, 2, 3, 4, 5],
        (1, 23, 0, 0),
        vec![5, 5, 3],
        (current, PlayerID::Zero),
        None,
        3,
    )
    .unwrap()
}

fn declaration() -> Result<Messages, Errors> {
    Messages::parse(r#"{"Type":"Evaluation","From":"Client","To":"Server"}"#)
}

fn sorted_pack() -> Vec<u8> {
    let mut pack = Vec::new();
    for rank in 1..=5u8 {
        for _ in 0..5 {
            pack.push(rank);
        }
    }
    pack
}

fn error_words(notice: Option<(PlayerID, Notice)>) -> (PlayerID, &'static str) {
    match notice {
        Some((to, Notice::Error(cause, e))) => {
            assert_eq!((e.typ, e.from, e.to, e.message_id), ("Error", "Server", "Client", "111"));
            assert_eq!(cause.message(), e.message);
            (to, e.message)
        }
        _ => panic!("an error was expected"),
    }
}

fn error_cause(notice: &Option<(PlayerID, Notice)>) -> Option<TurnError> {
    match notice {
        Some((_, Notice::Error(cause, _))) => Some(*cause),
        _ => None,
    }
}

#[test]
fn a_turn_opens_with_board_hand_and_prompt() {
    let g = game(PlayerID::One);
    let board = begin_round_turn(&g);
    let (hand, prompt) = begin_turn(&g);
    assert_eq!((board.player_position_0, board.player_position_1), (1, 23));
    assert_eq!(board.num_of_deck, 3);
    assert_eq!(board.current_player, PlayerID::One);
    assert_eq!((hand.hand1, hand.hand2, hand.hand3), (1, 2, 3));
    assert_eq!((hand.hand4, hand.hand5), (Some(4), Some(5)));
    assert_eq!(prompt.typ, "DoPlay");
}

#[test]
fn a_declaration_opens_the_action_phase() {
    let mut g = game(PlayerID::Zero);
    let step = process_turn(&mut g, TurnState::AwaitDeclaration, declaration());
    assert_eq!(step.next, TurnState::AwaitAction);
    assert!(step.notice.is_none());
    assert_eq!(g.player(PlayerID::Zero).hand(), &[1, 2, 2, 4, 4]);
}

#[test]
fn an_action_before_the_declaration_is_refused() {
    let mut g = game(PlayerID::One);
    let step = process_turn(
        &mut g,
        TurnState::AwaitDeclaration,
        Ok(Messages::PlayM(PlayMovement::new(5, Direction::Forward))),
    );
    assert_eq!(step.next, TurnState::AwaitDeclaration);
    assert_eq!(error_cause(&step.notice), Some(TurnError::DeclarationMissing));
    assert_eq!(error_words(step.notice), (PlayerID::One, "先にEvalしてください"));
    assert_eq!(g.board().pos(PlayerID::One), 23);
    assert_eq!(g.player(PlayerID::One).hand(), &[1, 2, 3, 4, 5]);
    let step = process_turn(
        &mut g,
        TurnState::AwaitDeclaration,
        Ok(Messages::PlayA(PlayAttack::new(5, 1))),
    );
    assert_eq!(step.next, TurnState::AwaitDeclaration);
    assert_eq!(error_words(step.notice), (PlayerID::One, "先にEvalしてください"));
}

#[test]
fn a_second_declaration_is_refused() {
    let mut g = game(PlayerID::Zero);
    let step = process_turn(&mut g, TurnState::AwaitAction, declaration());
    assert_eq!(step.next, TurnState::AwaitDeclaration);
    assert_eq!(error_cause(&step.notice), Some(TurnError::DeclaredTwice));
    assert_eq!(error_words(step.notice), (PlayerID::Zero, "もうEvalは受け取りました"));
}

#[test]
fn a_malformed_message_is_refused_in_either_phase() {
    for state in [TurnState::AwaitDeclaration, TurnState::AwaitAction] {
        let mut g = game(PlayerID::One);
        let step = process_turn(&mut g, state, Messages::parse("{"));
        assert_eq!(step.next, TurnState::AwaitDeclaration);
        assert_eq!(error_cause(&step.notice), Some(TurnError::Malformed));
        assert_eq!(
            error_words(step.notice),
            (PlayerID::One, "送信されたメッセージがおかしいです")
        );
        let step = process_turn(&mut g, state, Err(Errors::Other("x")));
        assert_eq!(step.next, TurnState::AwaitDeclaration);
        assert_eq!(
            error_words(step.notice),
            (PlayerID::One, "送信されたメッセージがおかしいです")
        );
        assert_eq!(g.player(PlayerID::One).hand(), &[1, 2, 3, 4, 5]);
        assert_eq!(g.board().yamafuda(), &[5, 5, 3]);
    }
}

#[test]
fn a_legal_movement_is_played_and_echoed_to_the_opponent() {
    let mut g = game(PlayerID::Zero);
    let step = process_turn(
        &mut g,
        TurnState::AwaitAction,
        Ok(Messages::PlayM(PlayMovement::new(2, Direction::Forward))),
    );
    assert_eq!(step.next, TurnState::Resolved(Kekka::Continue));
    match step.notice {
        Some((to, Notice::Movement(echo))) => {
            assert_eq!(to, PlayerID::One);
            assert_eq!(echo.play_card, 2);
            assert_eq!(echo.direction, "F");
            assert_eq!(echo.message_id, "101");
        }
        _ => panic!("an echo of the movement"),
    }
    assert_eq!(g.board().pos(PlayerID::Zero), 3);
    assert_eq!(g.player(PlayerID::Zero).hand(), &[1, 2, 4, 4, 3]);
}

#[test]
fn a_parried_attack_is_echoed_to_the_opponent() {
    let mut g = GameManager::from_parts(
        vec![3, 1, 3, 2, 3],
        vec![3, 5, 3, 5, 4],
        (10, 13, 0, 0),
        vec![1, 1, 2, 2],
        (PlayerID::One, PlayerID::Zero),
        None,
        3,
    )
    .unwrap();
    let step =
        process_turn(&mut g, TurnState::AwaitAction, Ok(Messages::PlayA(PlayAttack::new(3, 2))));
    assert_eq!(step.next, TurnState::Resolved(Kekka::Continue));
    match step.notice {
        Some((to, Notice::Attack(echo))) => {
            assert_eq!(to, PlayerID::Zero);
            assert_eq!((echo.play_card, echo.num_of_card), (3, 2));
            assert_eq!(echo.message_id, "102");
        }
        _ => panic!("an echo of the attack"),
    }
    assert_eq!(g.player(PlayerID::Zero).hand(), &[3, 1, 2]);
}

#[test]
fn a_refused_action_is_reported_and_the_turn_begins_again() {
    let mut g = game(PlayerID::Zero);
    let step = process_turn(
        &mut g,
        TurnState::AwaitAction,
        Ok(Messages::PlayM(PlayMovement::new(5, Direction::Forward))),
    );
    assert_eq!(step.next, TurnState::AwaitDeclaration);
    assert_eq!(
        error_cause(&step.notice),
        Some(TurnError::Play(PlayError::CardNotHeld { card: 5 }))
    );
    assert_eq!(error_words(step.notice), (PlayerID::Zero, "そのカードは持ってません!"));
    let step = process_turn(
        &mut g,
        TurnState::AwaitAction,
        Ok(Messages::PlayM(PlayMovement::new(1, Direction::Back))),
    );
    assert_eq!(step.next, TurnState::AwaitDeclaration);
    assert_eq!(error_words(step.notice), (PlayerID::Zero, "そちらへは動けません!"));
    let step =
        process_turn(&mut g, TurnState::AwaitAction, Ok(Messages::PlayA(PlayAttack::new(4, 1))));
    assert_eq!(step.next, TurnState::AwaitDeclaration);
    assert_eq!(
        error_words(step.notice),
        (PlayerID::Zero, "攻撃はとどかないか、そんなに枚数持っていません！")
    );
    assert_eq!(g.player(PlayerID::Zero).hand(), &[1, 2, 2, 4, 4]);
    assert_eq!(g.board().pos(PlayerID::Zero), 1);
    assert_eq!(g.board().yamafuda(), &[5, 5, 3]);
}

#[test]
fn an_attack_that_ends_the_round_is_echoed_too() {
    let mut g = GameManager::from_parts(
        vec![4, 4, 4, 1, 2],
        vec![4, 1, 2, 3, 5],
        (10, 14, 0, 0),
        vec![1, 1],
        (PlayerID::Zero, PlayerID::Zero),
        None,
        3,
    )
    .unwrap();
    let step =
        process_turn(&mut g, TurnState::AwaitAction, Ok(Messages::PlayA(PlayAttack::new(4, 3))));
    assert_eq!(step.next, TurnState::Resolved(Kekka::REnd(Some(PlayerID::Zero))));
    match step.notice {
        Some((to, Notice::Attack(echo))) => {
            assert_eq!(to, PlayerID::One);
            assert_eq!((echo.play_card, echo.num_of_card), (4, 3));
            assert_eq!(echo.message_id, "102");
        }
        _ => panic!("an echo of the attack"),
    }
    assert_eq!(g.board().score(PlayerID::Zero), 1);
}

#[test]
fn a_movement_that_ends_the_round_is_echoed_too() {
    // The step leaves One without a legal action.
    let mut g = GameManager::from_parts(
        vec![2, 3, 3, 1, 1],
        vec![2, 3, 4, 5, 5],
        (20, 23, 0, 0),
        vec![4, 4, 4],
        (PlayerID::Zero, PlayerID::Zero),
        None,
        3,
    )
    .unwrap();
    let step = process_turn(
        &mut g,
        TurnState::AwaitAction,
        Ok(Messages::PlayM(PlayMovement::new(2, Direction::Forward))),
    );
    assert_eq!(step.next, TurnState::Resolved(Kekka::REnd(Some(PlayerID::Zero))));
    match step.notice {
        Some((to, Notice::Movement(echo))) => {
            assert_eq!(to, PlayerID::One);
            assert_eq!(echo.play_card, 2);
            assert_eq!(echo.direction, "F");
        }
        _ => panic!("an echo of the movement"),
    }
    // The deck decides a round: One moves with an empty deck, and is echoed to Zero.
    let mut g = GameManager::from_parts(
        vec![3, 3, 2, 2, 2],
        vec![2, 1, 1, 1, 1],
        (5, 12, 0, 0),
        vec![],
        (PlayerID::One, PlayerID::Zero),
        None,
        3,
    )
    .unwrap();
    let step = process_turn(
        &mut g,
        TurnState::AwaitAction,
        Ok(Messages::PlayM(PlayMovement::new(2, Direction::Forward))),
    );
    assert!(matches!(step.next, TurnState::Resolved(Kekka::REnd(_))));
    match step.notice {
        Some((to, Notice::Movement(echo))) => {
            assert_eq!(to, PlayerID::Zero);
            assert_eq!((echo.play_card, echo.direction.as_str()), (2, "F"));
        }
        _ => panic!("an echo of the movement"),
    }
}

#[test]
fn a_resolved_turn_takes_no_further_step() {
    let mut g = game(PlayerID::Zero);
    let state = TurnState::Resolved(Kekka::Continue);
    let step = process_turn(
        &mut g,
        state,
        Ok(Messages::PlayM(PlayMovement::new(2, Direction::Forward))),
    );
    assert_eq!(step.next, state);
    assert!(step.notice.is_none());
    assert_eq!(g.board().pos(PlayerID::Zero), 1);
}

#[test]
fn the_turn_passes_while_the_round_goes_on() {
    let mut g = game(PlayerID::Zero);
    assert!(process_round(&mut g, Kekka::Continue).is_none());
    assert_eq!(g.board().current_player(), PlayerID::One);
    assert!(process_round(&mut g, Kekka::Continue).is_none());
    assert_eq!(g.board().current_player(), PlayerID::Zero);
}

#[test]
fn the_end_of_a_round_is_reported() {
    let mut g = GameManager::from_parts(
        vec![1],
        vec![2],
        (4, 9, 2, 1),
        vec![],
        (PlayerID::One, PlayerID::Zero),
        None,
        3,
    )
    .unwrap();
    let end = process_round(&mut g, Kekka::REnd(None)).unwrap();
    assert_eq!(end.round_winner, -1);
    assert_eq!((end.score_0, end.score_1), (2, 1));
    let end = process_round(&mut g, Kekka::REnd(Some(PlayerID::One))).unwrap();
    assert_eq!(end.round_winner, 1);
    let end = process_round(&mut g, Kekka::REnd(Some(PlayerID::Zero))).unwrap();
    assert_eq!(end.round_winner, 0);
    assert_eq!(g.board().current_player(), PlayerID::One);
}

#[test]
fn the_first_player_alternates_over_rounds() {
    let mut g = GameManager::new(3);
    let mut expected = PlayerID::Zero;
    for _ in 0..6 {
        assert_eq!(g.board().current_player(), expected);
        *g.current_playerid_mut() = PlayerID::Zero;
        assert!(next_round(&mut g).is_none());
        expected = expected.opposite();
        assert_eq!(g.board().current_player(), expected);
        assert_eq!(g.player(PlayerID::Zero).hand().len(), 5);
        assert_eq!(g.player(PlayerID::One).hand().len(), 5);
        assert_eq!(g.board().yamafuda().len(), 15);
        assert!(g.is_well_formed());
    }
}

#[test]
fn the_next_round_is_dealt_from_the_deck_given() {
    let mut g = game(PlayerID::One);
    assert!(next_round_with(&mut g, sorted_pack()).is_none());
    assert_eq!(g.board().current_player(), PlayerID::One);
    assert_eq!(g.player(PlayerID::Zero).hand(), &[5, 5, 5, 5, 5]);
    assert_eq!(g.player(PlayerID::One).hand(), &[4, 4, 4, 4, 4]);
    assert_eq!(g.board().yamafuda().len(), 15);
    assert_eq!((g.board().pos(PlayerID::Zero), g.board().pos(PlayerID::One)), (1, 23));
    assert!(next_round_with(&mut g, sorted_pack()).is_none());
    assert_eq!(g.board().current_player(), PlayerID::Zero);
}

#[test]
fn a_won_match_is_reported_after_the_last_round() {
    let mut g = GameManager::from_parts(
        vec![1],
        vec![2],
        (4, 9, 3, 1),
        vec![],
        (PlayerID::One, PlayerID::Zero),
        Some(PlayerID::Zero),
        3,
    )
    .unwrap();
    let end = next_round(&mut g).expect("the match is won");
    assert_eq!(end.winner, 0);
    assert_eq!((end.score_0, end.score_1), (3, 1));
    assert_eq!(g.ended(), Some(PlayerID::Zero));
    // nothing is dealt, and the turn is left where it was
    assert_eq!(g.board().current_player(), PlayerID::One);
    assert_eq!(g.player(PlayerID::Zero).hand(), &[1]);
    assert_eq!(g.player(PlayerID::One).hand(), &[2]);
    assert_eq!(g.board().yamafuda(), &[] as &[u8]);
    assert_eq!((g.board().pos(PlayerID::Zero), g.board().pos(PlayerID::One)), (4, 9));
    let mut g = GameManager::from_parts(
        vec![1],
        vec![2],
        (4, 9, 1, 3),
        vec![5],
        (PlayerID::Zero, PlayerID::One),
        Some(PlayerID::One),
        3,
    )
    .unwrap();
    let end = next_round_with(&mut g, sorted_pack()).expect("the match is won");
    assert_eq!(end.winner, 1);
    assert_eq!((end.score_0, end.score_1), (1, 3));
    assert_eq!(g.board().yamafuda(), &[5]);
    assert_eq!(g.board().current_player(), PlayerID::Zero);
}

#[test]
fn a_whole_turn_by_lines() {
    let mut g = game(PlayerID::Zero);
    let mut state = TurnState::AwaitDeclaration;
    let lines = [
        r#"{"Type":"Play","From":"Client","To":"Server","MessageID":"101","PlayCard":"2","Direction":"F"}"#,
        r#"{"Type":"Evaluation","From":"Client","To":"Server","2F":"1.0"}"#,
        r#"{"Type":"Play","From":"Client","To":"Server","MessageID":"101","PlayCard":"2","Direction":"F"}"#,
    ];
    let mut errors = 0;
    for line in lines {
        let step = process_turn(&mut g, state, Messages::parse(line));
        if let Some((_, Notice::Error(cause, _))) = step.notice {
            assert_eq!(cause, TurnError::DeclarationMissing);
            errors += 1;
        }
        state = step.next;
    }
    assert_eq!(errors, 1);
    assert_eq!(state, TurnState::Resolved(Kekka::Continue));
    assert_eq!(g.board().pos(PlayerID::Zero), 3);
}
