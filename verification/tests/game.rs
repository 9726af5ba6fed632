use engine_battle::errors::MatchError;
use engine_battle::game::runner::{Board, PlayOutcome};
use engine_battle::game::{GameResult, GameRunner};

#[test]
fn test_board_startpos() {
    let board = Board::startpos();
    assert_eq!(board.ply_count(), 0);
    assert!(board.turn_is_white());
    assert_eq!(board.halfmove_clock(), 0);
}

#[test]
fn test_try_play_legal_move() {
    let mut board = Board::startpos();
    assert!(matches!(board.try_play("e2e4"), PlayOutcome::Applied));
    assert_eq!(board.ply_count(), 1);
    assert_eq!(board.moves()[0], "e2e4");
    assert!(!board.turn_is_white());
}

#[test]
fn test_try_play_rejections() {
    let mut board = Board::startpos();
    assert!(matches!(board.try_play("not a move"), PlayOutcome::NotParsed));
    assert!(matches!(board.try_play("e2e5"), PlayOutcome::Illegal));
    assert!(matches!(board.try_play("e7e5"), PlayOutcome::Illegal));
    assert_eq!(board.ply_count(), 0);
}

#[test]
fn test_runner_new() {
    let runner = GameRunner::new(50, 200);
    assert_eq!(runner.movetime_ms(), 50);
    assert_eq!(runner.max_moves(), 200);
}

#[test]
fn test_white_resignation_loses_immediately() {
    let runner = GameRunner::new(50, 200);
    let mut board = Board::startpos();
    let r = runner.advance(&mut board, "(none)");
    assert_eq!(r, Ok(Some(GameResult::BlackWins)));
    assert_eq!(board.ply_count(), 0);
}

#[test]
fn test_black_resignation_loses_immediately() {
    let runner = GameRunner::new(50, 200);
    let mut board = Board::startpos();
    assert_eq!(runner.advance(&mut board, "e2e4"), Ok(None));
    let r = runner.advance(&mut board, "");
    assert_eq!(r, Ok(Some(GameResult::WhiteWins)));
}

#[test]
fn test_advance_rejects_bad_tokens() {
    let runner = GameRunner::new(50, 200);
    let mut board = Board::startpos();
    assert_eq!(runner.advance(&mut board, "xyzzy"), Err(MatchError::InvalidMove));
    assert_eq!(runner.advance(&mut board, "e2e5"), Err(MatchError::IllegalMove));
    assert_eq!(board.ply_count(), 0);
}

#[test]
fn test_fools_mate_is_black_win() {
    let runner = GameRunner::new(50, 200);
    let mut board = Board::startpos();
    assert_eq!(runner.advance(&mut board, "f2f3"), Ok(None));
    assert_eq!(runner.advance(&mut board, "e7e5"), Ok(None));
    assert_eq!(runner.advance(&mut board, "g2g4"), Ok(None));
    assert_eq!(runner.advance(&mut board, "d8h4"), Ok(Some(GameResult::BlackWins)));
    assert_eq!(board.ply_count(), 4);
}

#[test]
fn test_scholars_mate_is_white_win() {
    let runner = GameRunner::new(50, 200);
    let mut board = Board::startpos();
    for ply in ["e2e4", "e7e5", "d1h5", "b8c6", "f1c4", "g8f6"] {
        assert_eq!(runner.advance(&mut board, ply), Ok(None));
    }
    assert_eq!(runner.advance(&mut board, "h5f7"), Ok(Some(GameResult::WhiteWins)));
}

#[test]
fn test_stalemate_is_draw() {
    // The shortest known stalemate: after White's tenth move no Black move
    // is legal, yet Black is not in check.
    let plies = [
        "e2e3", "a7a5", "d1h5", "a8a6", "h5a5", "h7h5", "a5c7", "a6h6", "h2h4", "f7f6", "c7d7",
        "e8f7", "d7b7", "d8d3", "b7b8", "d3h7", "b8c8", "f7g6", "c8e6",
    ];
    let runner = GameRunner::new(50, 200);
    let mut board = Board::startpos();
    for ply in &plies[..plies.len() - 1] {
        assert_eq!(runner.advance(&mut board, ply), Ok(None), "premature end at {ply}");
    }
    assert_eq!(runner.advance(&mut board, plies[plies.len() - 1]), Ok(Some(GameResult::Draw)));
}

#[test]
fn test_halfmove_clock_reaching_100_is_draw() {
    // Knights shuffling for fifty moves a side: no capture and no pawn move
    // ever resets the half-move clock, so ply 100 ends in the fifty-move
    // rule draw (the game never repeats a terminal condition before it).
    let shuffle = ["g1f3", "g8f6", "f3g1", "f6g8"];
    let runner = GameRunner::new(50, 500);
    let mut board = Board::startpos();
    for i in 0..100 {
        let ply = shuffle[i % 4];
        let r = runner.advance(&mut board, ply).expect("move rejected");
        if i < 99 {
            assert_eq!(r, None, "premature end at ply {i}");
        } else {
            assert_eq!(r, Some(GameResult::Draw));
        }
    }
    assert_eq!(board.halfmove_clock(), 100);
}

#[test]
fn test_max_moves_cap_is_draw() {
    let runner = GameRunner::new(50, 1);
    let mut board = Board::startpos();
    assert_eq!(runner.advance(&mut board, "e2e4"), Ok(Some(GameResult::Draw)));

    let runner = GameRunner::new(50, 2);
    let mut board = Board::startpos();
    assert_eq!(runner.advance(&mut board, "e2e4"), Ok(None));
    assert_eq!(runner.advance(&mut board, "e7e5"), Ok(Some(GameResult::Draw)));
}
