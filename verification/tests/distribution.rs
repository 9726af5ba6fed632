use engine_battle::game::GameResult;
use engine_battle::stats::{GameCompleted, MatchStats};
use engine_battle::worker::{stockfish_plays_white, WorkCounter};

#[test]
fn test_work_counter_hands_out_consecutive_indices() {
    let mut counter = WorkCounter::new();
    assert_eq!(counter.claim(), 0);
    assert_eq!(counter.claim(), 1);
    assert_eq!(counter.claim(), 2);
}

#[test]
fn test_color_alternation_by_parity() {
    // Slot 0 gives the first-named engine the White pieces, slot 1 the
    // Black pieces.
    assert!(stockfish_plays_white(0));
    assert!(!stockfish_plays_white(1));
    assert!(stockfish_plays_white(2));
    assert!(!stockfish_plays_white(3));
}

#[test]
fn test_single_worker_drains_with_one_overshoot() {
    // One worker, target of three games: it claims 0, 1, 2 and stops on
    // claiming 3, the single index at or past the target.
    let total_games: u64 = 3;
    let mut counter = WorkCounter::new();
    let mut played: Vec<u64> = Vec::new();
    let mut overshoot = 0;
    loop {
        let claimed = counter.claim();
        if claimed >= total_games {
            overshoot += 1;
            break;
        }
        played.push(claimed);
    }
    assert_eq!(played, vec![0, 1, 2]);
    assert_eq!(overshoot, 1);
}

#[test]
fn test_stats_record_totals() {
    let mut stats = MatchStats::new();
    stats.record(GameResult::WhiteWins, true);
    stats.record(GameResult::BlackWins, true);
    stats.record(GameResult::WhiteWins, false);
    stats.record(GameResult::Draw, true);
    stats.record(GameResult::Draw, false);

    assert_eq!(stats.total_games(), 5);
    assert_eq!(stats.stockfish_wins(), 1);
    assert_eq!(stats.reckless_wins(), 2);
    assert_eq!(stats.draws(), 2);
    assert_eq!(stats.stockfish_white_wins(), 1);
    assert_eq!(stats.stockfish_black_wins(), 0);
    assert_eq!(stats.reckless_white_wins(), 1);
    assert_eq!(stats.reckless_black_wins(), 1);
}

#[test]
fn test_stats_order_independent() {
    // The same multiset of completion messages, drained in two different
    // interleavings, yields identical counters.
    let batch = vec![
        GameCompleted { result: GameResult::WhiteWins, stockfish_is_white: true },
        GameCompleted { result: GameResult::BlackWins, stockfish_is_white: false },
        GameCompleted { result: GameResult::Draw, stockfish_is_white: true },
        GameCompleted { result: GameResult::WhiteWins, stockfish_is_white: false },
    ];
    let mut reversed = batch.clone();
    reversed.reverse();

    let mut first = MatchStats::new();
    first.record_all(&batch);
    let mut second = MatchStats::new();
    second.record_all(&reversed);

    assert_eq!(first.total_games(), second.total_games());
    assert_eq!(first.stockfish_wins(), second.stockfish_wins());
    assert_eq!(first.reckless_wins(), second.reckless_wins());
    assert_eq!(first.draws(), second.draws());
    assert_eq!(first.stockfish_white_wins(), second.stockfish_white_wins());
    assert_eq!(first.stockfish_black_wins(), second.stockfish_black_wins());
    assert_eq!(first.reckless_white_wins(), second.reckless_white_wins());
    assert_eq!(first.reckless_black_wins(), second.reckless_black_wins());
}
