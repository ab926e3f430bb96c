use engarde::deck::Yamafuda;
use engarde::errors::PlayError;
use engarde::game::{GameManager, Kekka};
use engarde::protocol::{Direction, PlayAttack, PlayMovement, PlayerID};

fn state(
    hand0: &[u8],
    hand1: &[u8],
    pos: (u8, u8),
    deck: &[u8],
    current: PlayerID,
) -> GameManager {
    GameManager::from_parts(
        hand0.to_vec(),
        hand1.to_vec(),
        (pos.0, pos.1, 0, 0),
        deck.to_vec(),
        (current, PlayerID::Zero),
        None,
        3,
    )
    .expect("a well-formed state")
}

fn sorted_pack() -> Vec<u8> {
    let mut pack = Vec::new();
    for rank in 1..=5u8 {
        for _ in 0..5 {
            pack.push(rank);
        }
    }
    pack
}

#[test]
fn created_pack_is_complete() {
    let pack = Yamafuda::create();
    assert_eq!(pack.len(), 25);
    for rank in 1..=5u8 {
        assert_eq!(pack.iter().filter(|&&c| c == rank).count(), 5);
    }
    assert!(Yamafuda::is_complete(&pack));
}

#[test]
fn created_pack_is_shuffled() {
    assert_ne!(Yamafuda::create(), sorted_pack());
}

#[test]
fn is_complete_rejects_wrong_packs() {
    assert!(Yamafuda::is_complete(&sorted_pack()));
    let mut short = sorted_pack();
    short.pop();
    assert!(!Yamafuda::is_complete(&short));
    let mut skewed = sorted_pack();
    skewed[0] = 2;
    assert!(!Yamafuda::is_complete(&skewed));
    let mut foreign = sorted_pack();
    foreign[24] = 6;
    assert!(!Yamafuda::is_complete(&foreign));
    let mut zero = sorted_pack();
    zero[3] = 0;
    assert!(!Yamafuda::is_complete(&zero));
}

#[test]
fn new_match_starts_a_round() {
    let game = GameManager::new(7);
    assert_eq!(game.player(PlayerID::Zero).hand().len(), 5);
    assert_eq!(game.player(PlayerID::One).hand().len(), 5);
    assert_eq!(game.board().yamafuda().len(), 15);
    assert_eq!(game.board().pos(PlayerID::Zero), 1);
    assert_eq!(game.board().pos(PlayerID::One), 23);
    assert_eq!(game.board().score(PlayerID::Zero), 0);
    assert_eq!(game.board().score(PlayerID::One), 0);
    assert_eq!(game.board().current_player(), PlayerID::Zero);
    assert_eq!(game.ended(), None);
    assert!(game.is_well_formed());
}

#[test]
fn with_deck_deals_from_the_end() {
    let game = GameManager::with_deck(3, sorted_pack());
    assert_eq!(game.player(PlayerID::Zero).hand(), &[5, 5, 5, 5, 5]);
    assert_eq!(game.player(PlayerID::One).hand(), &[4, 4, 4, 4, 4]);
    assert_eq!(game.board().yamafuda(), &sorted_pack()[..15]);
    assert!(game.is_well_formed());
}

#[test]
fn from_parts_refuses_ill_formed_states() {
    let deck: Vec<u8> = vec![1, 2, 3];
    let make = |h0: Vec<u8>, h1: Vec<u8>, pos: (u8, u8), deck: Vec<u8>| {
        GameManager::from_parts(h0, h1, (pos.0, pos.1, 0, 0), deck, (PlayerID::Zero, PlayerID::Zero), None, 3)
    };
    assert!(make(vec![1, 2], vec![3], (1, 23), deck.clone()).is_some());
    // crossed, same cell, off the strip
    assert!(make(vec![1, 2], vec![3], (10, 9), deck.clone()).is_none());
    assert!(make(vec![1, 2], vec![3], (10, 10), deck.clone()).is_none());
    assert!(make(vec![1, 2], vec![3], (0, 10), deck.clone()).is_none());
    assert!(make(vec![1, 2], vec![3], (10, 24), deck.clone()).is_none());
    // a hand of six
    assert!(make(vec![1, 1, 2, 2, 3, 3], vec![3], (1, 23), deck.clone()).is_none());
    // six cards of one rank
    assert!(make(vec![1, 1, 1], vec![1, 1], (1, 23), vec![1]).is_none());
    // a rank that the pack does not hold
    assert!(make(vec![6], vec![3], (1, 23), deck.clone()).is_none());
    assert!(make(vec![1], vec![3], (1, 23), vec![0]).is_none());
    // a winner without the score
    assert!(GameManager::from_parts(
        vec![1],
        vec![2],
        (1, 23, 2, 0),
        vec![],
        (PlayerID::Zero, PlayerID::Zero),
        Some(PlayerID::Zero),
        3
    )
    .is_none());
    // a score at the threshold without a winner
    assert!(GameManager::from_parts(
        vec![1],
        vec![2],
        (1, 23, 3, 0),
        vec![],
        (PlayerID::Zero, PlayerID::Zero),
        None,
        3
    )
    .is_none());
    assert!(GameManager::from_parts(
        vec![1],
        vec![2],
        (1, 23, 3, 0),
        vec![],
        (PlayerID::Zero, PlayerID::Zero),
        Some(PlayerID::Zero),
        3
    )
    .is_some());
}

#[test]
fn can_move_follows_the_four_rules() {
    let game = state(&[1, 2, 3, 4, 5], &[1, 2, 3, 4, 5], (4, 8), &[1, 1], PlayerID::Zero);
    let zero = game.player(PlayerID::Zero);
    let one = game.player(PlayerID::One);
    let board = game.board();
    // Zero back: pos - c >= 1
    assert!(zero.can_move(board, 3, Direction::Back));
    assert!(!zero.can_move(board, 4, Direction::Back));
    assert!(!zero.can_move(board, 5, Direction::Back));
    assert!(!zero.can_move(board, 255, Direction::Back));
    // Zero forward: pos + c < pos(One)
    assert!(zero.can_move(board, 3, Direction::Forward));
    assert!(!zero.can_move(board, 4, Direction::Forward));
    assert!(!zero.can_move(board, 255, Direction::Forward));
    // One back: pos + c <= 23
    assert!(one.can_move(board, 5, Direction::Back));
    assert!(one.can_move(board, 15, Direction::Back));
    assert!(!one.can_move(board, 16, Direction::Back));
    assert!(!one.can_move(board, 255, Direction::Back));
    // One forward: pos - c > pos(Zero)
    assert!(one.can_move(board, 3, Direction::Forward));
    assert!(!one.can_move(board, 4, Direction::Forward));
    assert!(!one.can_move(board, 9, Direction::Forward));
}

#[test]
fn can_attack_needs_the_exact_distance() {
    let game = state(&[1, 2, 3, 4, 5], &[1, 2, 3, 4, 5], (4, 8), &[], PlayerID::Zero);
    for id in [PlayerID::Zero, PlayerID::One] {
        let player = game.player(id);
        assert!(player.can_attack(game.board(), 4));
        assert!(!player.can_attack(game.board(), 3));
        assert!(!player.can_attack(game.board(), 5));
        assert!(!player.can_attack(game.board(), 0));
    }
}

#[test]
fn can_actions_is_false_only_without_any_legal_card() {
    // One at the right end, Zero next to it: One can only attack with a 1.
    let stuck = state(&[1, 2, 3, 4, 5], &[2, 3, 4, 5, 5], (22, 23), &[], PlayerID::One);
    assert!(!stuck.player(PlayerID::One).can_actions(stuck.board()));
    assert!(stuck.player(PlayerID::Zero).can_actions(stuck.board()));
    let armed = state(&[2, 2, 3, 4, 5], &[2, 3, 4, 5, 1], (22, 23), &[], PlayerID::One);
    assert!(armed.player(PlayerID::One).can_actions(armed.board()));
    let empty = state(&[], &[2], (1, 23), &[], PlayerID::Zero);
    assert!(!empty.player(PlayerID::Zero).can_actions(empty.board()));
}

#[test]
fn hand_queries_count_and_find() {
    let game = state(&[3, 1, 3, 2, 3], &[1, 1, 2], (1, 23), &[], PlayerID::Zero);
    let zero = game.player(PlayerID::Zero);
    assert_eq!(zero.card_pos(3), Some(0));
    assert_eq!(zero.card_pos(2), Some(3));
    assert_eq!(zero.card_pos(5), None);
    assert_eq!(zero.card_positions(3), vec![0, 2, 4]);
    assert_eq!(zero.card_positions(1), vec![1]);
    assert_eq!(zero.card_positions(4), Vec::<usize>::new());
    assert_eq!(zero.count_card(3), 3);
    assert_eq!(zero.count_card(4), 0);
    assert_eq!(game.player(PlayerID::One).count_card(1), 2);
}

#[test]
fn player_mut_changes_one_hand() {
    let mut game = state(&[3, 1, 3], &[1, 1, 2], (1, 23), &[4], PlayerID::Zero);
    game.player_mut(PlayerID::Zero).remove_card(1);
    assert_eq!(game.player(PlayerID::Zero).hand(), &[3, 3]);
    game.player_mut(PlayerID::One).push_card(5);
    assert_eq!(game.player(PlayerID::One).hand(), &[1, 1, 2, 5]);
    assert_eq!(game.player(PlayerID::Zero).hand(), &[3, 3]);
    assert_eq!(game.board().yamafuda(), &[4]);
}

#[test]
fn movement_with_card_not_held_changes_nothing() {
    let mut game = state(&[1, 2, 3, 4, 4], &[1, 2, 3, 4, 5], (1, 23), &[5, 5], PlayerID::Zero);
    let r = game.play_movement(PlayerID::Zero, &PlayMovement::new(5, Direction::Forward));
    assert_eq!(r, Err(PlayError::CardNotHeld { card: 5 }));
    assert_eq!(game.player(PlayerID::Zero).hand(), &[1, 2, 3, 4, 4]);
    assert_eq!(game.player(PlayerID::One).hand(), &[1, 2, 3, 4, 5]);
    assert_eq!(game.board().yamafuda(), &[5, 5]);
    assert_eq!(game.board().pos(PlayerID::Zero), 1);
    assert_eq!(game.board().pos(PlayerID::One), 23);
    assert_eq!(game.board().score(PlayerID::Zero), 0);
}

#[test]
fn illegal_movement_changes_nothing() {
    let mut game = state(&[1, 2, 3, 4, 4], &[1, 2, 3, 4, 5], (1, 23), &[5, 5], PlayerID::Zero);
    let r = game.play_movement(PlayerID::Zero, &PlayMovement::new(1, Direction::Back));
    assert_eq!(r, Err(PlayError::IllegalMove { card: 1, direction: Direction::Back }));
    let r = game.play_movement(PlayerID::One, &PlayMovement::new(3, Direction::Back));
    assert_eq!(r, Err(PlayError::IllegalMove { card: 3, direction: Direction::Back }));
    assert_eq!(game.player(PlayerID::Zero).hand(), &[1, 2, 3, 4, 4]);
    assert_eq!(game.board().pos(PlayerID::Zero), 1);
    assert_eq!(game.board().pos(PlayerID::One), 23);
}

#[test]
fn movement_steps_and_replenishes_from_the_end_of_the_deck() {
    let mut game = state(&[1, 2, 2, 4, 4], &[1, 2, 3, 4, 5], (1, 23), &[5, 5, 3], PlayerID::Zero);
    let r = game.play_movement(PlayerID::Zero, &PlayMovement::new(2, Direction::Forward));
    assert_eq!(r, Ok(Kekka::Continue));
    assert_eq!(game.board().pos(PlayerID::Zero), 3);
    assert_eq!(game.board().pos(PlayerID::One), 23);
    assert_eq!(game.player(PlayerID::Zero).hand(), &[1, 2, 4, 4, 3]);
    assert_eq!(game.board().yamafuda(), &[5, 5]);
    let r = game.play_movement(PlayerID::One, &PlayMovement::new(5, Direction::Forward));
    assert_eq!(r, Ok(Kekka::Continue));
    assert_eq!(game.board().pos(PlayerID::One), 18);
    assert_eq!(game.player(PlayerID::One).hand(), &[1, 2, 3, 4, 5]);
    assert_eq!(game.board().yamafuda(), &[5]);
    assert!(game.is_well_formed());
}

#[test]
fn movement_back_for_both_sides() {
    let mut game = state(&[1, 2, 2, 4, 4], &[1, 2, 3, 4, 5], (6, 15), &[5, 5, 3, 3], PlayerID::Zero);
    assert_eq!(
        game.play_movement(PlayerID::Zero, &PlayMovement::new(4, Direction::Back)),
        Ok(Kekka::Continue)
    );
    assert_eq!(game.board().pos(PlayerID::Zero), 2);
    assert_eq!(
        game.play_movement(PlayerID::One, &PlayMovement::new(5, Direction::Back)),
        Ok(Kekka::Continue)
    );
    assert_eq!(game.board().pos(PlayerID::One), 20);
}

#[test]
fn drawing_the_last_card_ends_the_round() {
    // Zero fills the hand with the last card of the deck: the deck decides.
    let mut game = state(&[2, 3, 3, 1, 1], &[1, 1, 2, 2, 2], (5, 10), &[4], PlayerID::Zero);
    let r = game.play_movement(PlayerID::Zero, &PlayMovement::new(2, Direction::Forward));
    assert_eq!(r, Ok(Kekka::REnd(Some(PlayerID::Zero))));
    assert_eq!(game.player(PlayerID::Zero).hand(), &[3, 3, 1, 1, 4]);
    assert_eq!(game.board().yamafuda(), &[] as &[u8]);
    assert_eq!(game.board().score(PlayerID::Zero), 1);
}

#[test]
fn empty_deck_is_decided_by_cards_of_the_distance() {
    let mut game = state(&[2, 3, 3, 1, 1], &[1, 1, 2, 2, 2], (5, 10), &[], PlayerID::Zero);
    let r = game.play_movement(PlayerID::Zero, &PlayMovement::new(2, Direction::Forward));
    assert_eq!(r, Ok(Kekka::REnd(Some(PlayerID::Zero))));
    assert_eq!(game.player(PlayerID::Zero).hand(), &[3, 3, 1, 1]);
    assert_eq!(game.board().pos(PlayerID::Zero), 7);
    assert_eq!(game.board().score(PlayerID::Zero), 1);
    assert_eq!(game.board().score(PlayerID::One), 0);
    assert_eq!(game.ended(), None);
}

#[test]
fn empty_deck_with_fewer_cards_of_the_distance_loses() {
    let mut game = state(&[2, 1, 1, 1, 1], &[3, 3, 2, 2, 2], (5, 10), &[], PlayerID::Zero);
    let r = game.play_movement(PlayerID::Zero, &PlayMovement::new(2, Direction::Forward));
    assert_eq!(r, Ok(Kekka::REnd(Some(PlayerID::One))));
    assert_eq!(game.board().score(PlayerID::One), 1);
    assert_eq!(game.board().score(PlayerID::Zero), 0);
}

#[test]
fn empty_deck_tie_goes_to_the_smaller_edge_distance() {
    // After the move: Zero at 7, One at 10. edge0 = 23 - 7 = 16, edge1 = 10 - 1 = 9.
    let mut game = state(&[2, 1, 1, 4, 4], &[5, 5, 2, 2, 2], (5, 10), &[], PlayerID::Zero);
    let r = game.play_movement(PlayerID::Zero, &PlayMovement::new(2, Direction::Forward));
    assert_eq!(r, Ok(Kekka::REnd(Some(PlayerID::One))));
    assert_eq!(game.board().score(PlayerID::One), 1);
    // After the move: Zero at 15, One at 18. edge0 = 8, edge1 = 17.
    let mut game = state(&[2, 1, 1, 4, 4], &[5, 5, 2, 2, 2], (13, 18), &[], PlayerID::Zero);
    let r = game.play_movement(PlayerID::Zero, &PlayMovement::new(2, Direction::Forward));
    assert_eq!(r, Ok(Kekka::REnd(Some(PlayerID::Zero))));
    assert_eq!(game.board().score(PlayerID::Zero), 1);
}

#[test]
fn empty_deck_full_tie_is_a_draw() {
    // After the move: Zero at 11, One at 13. edge0 = 12, edge1 = 12.
    let mut game = state(&[1, 3, 3, 4, 4], &[5, 5, 1, 1, 1], (10, 13), &[], PlayerID::Zero);
    let r = game.play_movement(PlayerID::Zero, &PlayMovement::new(1, Direction::Forward));
    assert_eq!(r, Ok(Kekka::REnd(None)));
    assert_eq!(game.board().score(PlayerID::Zero), 0);
    assert_eq!(game.board().score(PlayerID::One), 0);
}

#[test]
fn opponent_without_action_loses_at_once() {
    let mut game = state(&[2, 3, 3, 1, 1], &[2, 3, 4, 5, 5], (20, 23), &[4, 4, 4], PlayerID::Zero);
    let r = game.play_movement(PlayerID::Zero, &PlayMovement::new(2, Direction::Forward));
    assert_eq!(r, Ok(Kekka::REnd(Some(PlayerID::Zero))));
    // no replenishment
    assert_eq!(game.player(PlayerID::Zero).hand(), &[3, 3, 1, 1]);
    assert_eq!(game.board().yamafuda(), &[4, 4, 4]);
    assert_eq!(game.board().pos(PlayerID::Zero), 22);
    assert_eq!(game.board().score(PlayerID::Zero), 1);
    assert_eq!(game.board().score(PlayerID::One), 0);
}

#[test]
fn attack_with_wrong_distance_fails() {
    let mut game = state(&[4, 4, 4, 1, 2], &[4, 1, 2, 3, 5], (10, 15), &[1, 1], PlayerID::Zero);
    let r = game.play_attack(PlayerID::Zero, &PlayAttack::new(4, 1));
    assert_eq!(r, Err(PlayError::AttackUnreachableOrInsufficient { card: 4, count: 1 }));
    assert_eq!(game.player(PlayerID::Zero).hand(), &[4, 4, 4, 1, 2]);
    assert_eq!(game.player(PlayerID::One).hand(), &[4, 1, 2, 3, 5]);
    assert_eq!(game.board().score(PlayerID::Zero), 0);
    // not even with a hand full of the card
    let mut game = state(&[4, 4, 4, 4, 4], &[1, 1, 2, 3, 5], (10, 15), &[1, 1], PlayerID::Zero);
    let r = game.play_attack(PlayerID::Zero, &PlayAttack::new(4, 5));
    assert_eq!(r, Err(PlayError::AttackUnreachableOrInsufficient { card: 4, count: 5 }));
}

#[test]
fn attack_with_too_few_cards_fails() {
    let mut game = state(&[4, 4, 3, 1, 2], &[4, 1, 2, 3, 5], (10, 14), &[1, 1], PlayerID::Zero);
    let r = game.play_attack(PlayerID::Zero, &PlayAttack::new(4, 3));
    assert_eq!(r, Err(PlayError::AttackUnreachableOrInsufficient { card: 4, count: 3 }));
    assert_eq!(game.player(PlayerID::Zero).hand(), &[4, 4, 3, 1, 2]);
    assert_eq!(game.player(PlayerID::One).hand(), &[4, 1, 2, 3, 5]);
    assert_eq!(game.board().yamafuda(), &[1, 1]);
    assert_eq!(game.board().score(PlayerID::Zero), 0);
    assert_eq!(game.board().score(PlayerID::One), 0);
}

#[test]
fn attack_that_cannot_be_parried_scores_and_moves_no_card() {
    let mut game = state(&[4, 4, 4, 1, 2], &[4, 1, 2, 3, 5], (10, 14), &[1, 1], PlayerID::Zero);
    let r = game.play_attack(PlayerID::Zero, &PlayAttack::new(4, 3));
    assert_eq!(r, Ok(Kekka::REnd(Some(PlayerID::Zero))));
    assert_eq!(game.board().score(PlayerID::Zero), 1);
    assert_eq!(game.board().score(PlayerID::One), 0);
    assert_eq!(game.player(PlayerID::Zero).hand(), &[4, 4, 4, 1, 2]);
    assert_eq!(game.player(PlayerID::One).hand(), &[4, 1, 2, 3, 5]);
    assert_eq!(game.board().yamafuda(), &[1, 1]);
}

#[test]
fn parried_attack_discards_from_both_hands() {
    // One attacks with its two 3s; Zero parries with the last two of three.
    let mut game = state(&[3, 1, 3, 2, 3], &[3, 5, 3, 5, 4], (10, 13), &[1, 1, 2, 2], PlayerID::One);
    let r = game.play_attack(PlayerID::One, &PlayAttack::new(3, 1));
    assert_eq!(r, Ok(Kekka::Continue));
    assert_eq!(game.player(PlayerID::Zero).hand(), &[3, 1, 2]);
    assert_eq!(game.player(PlayerID::One).hand(), &[5, 5, 4, 2, 2]);
    assert_eq!(game.board().yamafuda(), &[1, 1]);
    assert_eq!(game.board().pos(PlayerID::Zero), 10);
    assert_eq!(game.board().pos(PlayerID::One), 13);
    assert_eq!(game.board().score(PlayerID::One), 0);
    assert!(game.is_well_formed());
}

#[test]
fn parried_attack_that_empties_the_deck_is_decided_by_the_deck() {
    let mut game = state(&[3, 1, 3, 2, 3], &[3, 5, 3, 5, 4], (10, 13), &[1, 2], PlayerID::One);
    let r = game.play_attack(PlayerID::One, &PlayAttack::new(3, 2));
    // Zero keeps one 3, One has none: Zero wins the round.
    assert_eq!(r, Ok(Kekka::REnd(Some(PlayerID::Zero))));
    assert_eq!(game.player(PlayerID::One).hand(), &[5, 5, 4, 2, 1]);
    assert_eq!(game.board().score(PlayerID::Zero), 1);
}

#[test]
fn parried_attack_that_leaves_no_action_wins_the_round() {
    // After the parry Zero holds only 5s: at cell 3 with One at 4 nothing is legal.
    let mut game = state(&[1, 5, 5, 5, 5], &[1, 2, 2, 3, 3], (3, 4), &[2, 2, 3], PlayerID::One);
    let r = game.play_attack(PlayerID::One, &PlayAttack::new(1, 1));
    assert_eq!(r, Ok(Kekka::REnd(Some(PlayerID::One))));
    assert_eq!(game.player(PlayerID::Zero).hand(), &[5, 5, 5, 5]);
    assert_eq!(game.player(PlayerID::One).hand(), &[2, 2, 3, 3]);
    assert_eq!(game.board().yamafuda(), &[2, 2, 3]);
    assert_eq!(game.board().score(PlayerID::One), 1);
}

#[test]
fn reaching_the_threshold_ends_the_match() {
    let mut game = GameManager::from_parts(
        vec![4, 4, 4, 1, 2],
        vec![4, 1, 2, 3, 5],
        (10, 14, 2, 1),
        vec![1, 1],
        (PlayerID::Zero, PlayerID::Zero),
        None,
        3,
    )
    .unwrap();
    let r = game.play_attack(PlayerID::Zero, &PlayAttack::new(4, 3));
    assert_eq!(r, Ok(Kekka::REnd(Some(PlayerID::Zero))));
    assert_eq!(game.board().score(PlayerID::Zero), 3);
    assert_eq!(game.ended(), Some(PlayerID::Zero));
}

#[test]
fn first_player_alternates() {
    let mut game = GameManager::new(3);
    assert_eq!(game.board().current_player(), PlayerID::Zero);
    game.change_first_player();
    assert_eq!(game.board().current_player(), PlayerID::One);
    game.change_first_player();
    assert_eq!(game.board().current_player(), PlayerID::Zero);
    *game.current_playerid_mut() = PlayerID::One;
    assert_eq!(game.board().current_player(), PlayerID::One);
    // the round still begins with the other side than the last one
    game.change_first_player();
    assert_eq!(game.board().current_player(), PlayerID::One);
}

#[test]
fn reset_round_twice_gives_a_fresh_round() {
    let mut game = state(&[3, 1, 3], &[3, 5], (10, 13), &[1, 2], PlayerID::One);
    game.reset_round();
    game.reset_round();
    assert_eq!(game.player(PlayerID::Zero).hand().len(), 5);
    assert_eq!(game.player(PlayerID::One).hand().len(), 5);
    assert_eq!(game.board().yamafuda().len(), 15);
    assert_eq!(game.board().pos(PlayerID::Zero), 1);
    assert_eq!(game.board().pos(PlayerID::One), 23);
    assert_eq!(game.board().current_player(), PlayerID::One);
    assert!(game.is_well_formed());
    let mut all: Vec<u8> = game.board().yamafuda().to_vec();
    all.extend_from_slice(game.player(PlayerID::Zero).hand());
    all.extend_from_slice(game.player(PlayerID::One).hand());
    assert!(Yamafuda::is_complete(&all));
}

#[test]
fn cards_are_conserved_through_a_round() {
    let mut game = GameManager::with_deck(3, sorted_pack());
    let mut discarded = 0;
    let total = |g: &GameManager| {
        g.board().yamafuda().len()
            + g.player(PlayerID::Zero).hand().len()
            + g.player(PlayerID::One).hand().len()
    };
    assert_eq!(total(&game) + discarded, 25);
    // Zero holds 5s, One holds 4s.
    assert_eq!(
        game.play_movement(PlayerID::Zero, &PlayMovement::new(5, Direction::Forward)),
        Ok(Kekka::Continue)
    );
    discarded += 1;
    assert_eq!(total(&game) + discarded, 25);
    assert_eq!(
        game.play_movement(PlayerID::One, &PlayMovement::new(4, Direction::Forward)),
        Ok(Kekka::Continue)
    );
    discarded += 1;
    assert_eq!(total(&game) + discarded, 25);
    assert_eq!(game.board().pos(PlayerID::Zero), 6);
    assert_eq!(game.board().pos(PlayerID::One), 19);
    assert!(game.is_well_formed());
}

#[test]
fn player_ids_denote_and_oppose() {
    assert_eq!(PlayerID::Zero.denote(), 0);
    assert_eq!(PlayerID::One.denote(), 1);
    assert_eq!(PlayerID::Zero.opposite(), PlayerID::One);
    assert_eq!(PlayerID::One.opposite(), PlayerID::Zero);
}
