use connect4::other_player;
use connect4::Move;
use connect4::Phase;
use connect4::Stone;

#[test]
fn the_turn_passes_to_the_other_player() {
    assert_eq!(other_player(Stone::Pink), Stone::Teal);
    assert_eq!(other_player(Stone::Teal), Stone::Pink);
    assert_eq!(other_player(Stone::Neutral), Stone::Pink);
}

#[test]
fn a_session_opens_with_pink_to_move() {
    assert_eq!(Phase::start(), Phase::AwaitingMove(Stone::Pink));
}

#[test]
fn a_placed_stone_passes_the_turn() {
    let phase = Phase::AwaitingMove(Stone::Pink);
    assert_eq!(
        phase.after_move(Move::Placed(3, 0)),
        Phase::AwaitingMove(Stone::Teal)
    );
    assert_eq!(
        Phase::AwaitingMove(Stone::Teal).after_move(Move::Placed(0, 5)),
        Phase::AwaitingMove(Stone::Pink)
    );
}

#[test]
fn a_rejected_move_keeps_the_turn() {
    let phase = Phase::AwaitingMove(Stone::Teal);
    assert_eq!(
        phase.after_move(Move::ColumnFull),
        Phase::AwaitingMove(Stone::Teal)
    );
}

#[test]
fn a_win_ends_the_round_for_the_winner() {
    let phase = Phase::AwaitingMove(Stone::Teal);
    assert_eq!(
        phase.after_move(Move::Win(Stone::Teal, 4, 2)),
        Phase::RoundOver(Stone::Teal)
    );
}

#[test]
fn an_acknowledged_round_hands_the_opening_move_to_pink() {
    assert_eq!(
        Phase::RoundOver(Stone::Teal).acknowledged(),
        Phase::AwaitingMove(Stone::Pink)
    );
    assert_eq!(
        Phase::AwaitingMove(Stone::Teal).acknowledged(),
        Phase::AwaitingMove(Stone::Teal)
    );
}

#[test]
fn outcomes_do_not_disturb_an_ended_round() {
    let phase = Phase::RoundOver(Stone::Pink);
    assert_eq!(phase.after_move(Move::Placed(1, 1)), phase);
    assert_eq!(phase.after_move(Move::ColumnFull), phase);
    assert_eq!(phase.after_move(Move::Win(Stone::Teal, 0, 3)), phase);
}
