//! Match statistics: the counters the aggregator maintains while draining
//! completed-game messages, and the proof that the totals do not depend on
//! the order in which the messages arrive.

use vstd::prelude::*;
use vstd::multiset::Multiset;
use vstd::seq_lib::group_to_multiset_ensures;
use crate::game::result::GameResult;

verus! {

/// Message sent from a worker to the aggregator: one completed game's
/// outcome and which named engine played White.
#[derive(Debug, Clone, Copy, PartialEq, Eq, Structural)]
pub struct GameCompleted {
    /// The game's outcome.
    pub result: GameResult,
    /// Whether stockfish, the first-named engine, held the White pieces.
    pub stockfish_is_white: bool,
}

/// The mathematical value of the statistics counters.
#[verifier::ext_equal]
pub ghost struct StatsView {
    pub stockfish_wins: int,
    pub reckless_wins: int,
    pub draws: int,
    pub stockfish_white_wins: int,
    pub stockfish_black_wins: int,
    pub reckless_white_wins: int,
    pub reckless_black_wins: int,
    pub games_completed: int,
}

/// The counters after recording one completed game: the winning engine is
/// the one that held the winning color, a draw counts for neither, and the
/// completed-game count always grows by one.
pub open spec fn record_spec(s: StatsView, m: GameCompleted) -> StatsView {
    let bumped = match m.result {
        GameResult::WhiteWins => if m.stockfish_is_white {
            StatsView {
                stockfish_wins: s.stockfish_wins + 1,
                stockfish_white_wins: s.stockfish_white_wins + 1,
                ..s
            }
        } else {
            StatsView {
                reckless_wins: s.reckless_wins + 1,
                reckless_white_wins: s.reckless_white_wins + 1,
                ..s
            }
        },
        GameResult::BlackWins => if m.stockfish_is_white {
            StatsView {
                reckless_wins: s.reckless_wins + 1,
                reckless_black_wins: s.reckless_black_wins + 1,
                ..s
            }
        } else {
            StatsView {
                stockfish_wins: s.stockfish_wins + 1,
                stockfish_black_wins: s.stockfish_black_wins + 1,
                ..s
            }
        },
        GameResult::Draw => StatsView { draws: s.draws + 1, ..s },
    };
    StatsView { games_completed: bumped.games_completed + 1, ..bumped }
}

/// The counters after recording a whole sequence of completed games.
pub open spec fn apply_all(s: StatsView, msgs: Seq<GameCompleted>) -> StatsView
    decreases msgs.len(),
{
    if msgs.len() == 0 {
        s
    } else {
        record_spec(apply_all(s, msgs.drop_last()), msgs.last())
    }
}

/// How many messages of `msgs` fall in the class `m`: same outcome, same
/// color assignment. A message's effect on the counters depends only on its
/// class.
pub open spec fn class_count(msgs: Seq<GameCompleted>, m: GameCompleted) -> int {
    msgs.to_multiset().count(m) as int
}

/// Shorthand for one message class.
pub open spec fn message(result: GameResult, stockfish_is_white: bool) -> GameCompleted {
    GameCompleted { result, stockfish_is_white }
}

/// Every counter after a drain is the initial counter plus the number of
/// messages of the classes that bump it — a function of the multiset of
/// messages alone.
pub proof fn lemma_apply_all_counts(s: StatsView, msgs: Seq<GameCompleted>)
    ensures
        apply_all(s, msgs) == (StatsView {
            stockfish_wins: s.stockfish_wins + class_count(msgs, message(GameResult::WhiteWins, true))
                + class_count(msgs, message(GameResult::BlackWins, false)),
            reckless_wins: s.reckless_wins + class_count(msgs, message(GameResult::WhiteWins, false))
                + class_count(msgs, message(GameResult::BlackWins, true)),
            draws: s.draws + class_count(msgs, message(GameResult::Draw, true)) + class_count(
                msgs,
                message(GameResult::Draw, false),
            ),
            stockfish_white_wins: s.stockfish_white_wins + class_count(
                msgs,
                message(GameResult::WhiteWins, true),
            ),
            stockfish_black_wins: s.stockfish_black_wins + class_count(
                msgs,
                message(GameResult::BlackWins, false),
            ),
            reckless_white_wins: s.reckless_white_wins + class_count(
                msgs,
                message(GameResult::WhiteWins, false),
            ),
            reckless_black_wins: s.reckless_black_wins + class_count(
                msgs,
                message(GameResult::BlackWins, true),
            ),
            games_completed: s.games_completed + msgs.len(),
        }),
    decreases msgs.len(),
{
    broadcast use group_to_multiset_ensures;

    if msgs.len() == 0 {
        assert(msgs.to_multiset() =~= Multiset::<GameCompleted>::empty());
    } else {
        let head = msgs.drop_last();
        let m = msgs.last();
        lemma_apply_all_counts(s, head);
        assert(head.push(m) =~= msgs);
        assert(msgs.to_multiset() =~= head.to_multiset().insert(m));
        assert(apply_all(s, msgs) =~= record_spec(apply_all(s, head), m));
    }
}

/// The aggregator's totals are order-independent: draining the same
/// multiset of completed-game messages, in whatever interleaving the
/// workers produced them, yields identical final counters.
pub proof fn lemma_stats_order_independent(
    s: StatsView,
    a: Seq<GameCompleted>,
    b: Seq<GameCompleted>,
)
    requires
        a.to_multiset() == b.to_multiset(),
    ensures
        apply_all(s, a) == apply_all(s, b),
{
    broadcast use group_to_multiset_ensures;

    lemma_apply_all_counts(s, a);
    lemma_apply_all_counts(s, b);
    assert(a.len() == b.len()) by {
        assert(a.to_multiset().len() == a.len());
        assert(b.to_multiset().len() == b.len());
    }
}

/// Statistics for a match: monotonically increasing counters, created once
/// at run start, written only by recording completed games.
pub struct MatchStats {
    stockfish_wins: u64,
    reckless_wins: u64,
    draws: u64,
    stockfish_white_wins: u64,
    stockfish_black_wins: u64,
    reckless_white_wins: u64,
    reckless_black_wins: u64,
    games_completed: u64,
}

impl View for MatchStats {
    type V = StatsView;

    closed spec fn view(&self) -> StatsView {
        StatsView {
            stockfish_wins: self.stockfish_wins as int,
            reckless_wins: self.reckless_wins as int,
            draws: self.draws as int,
            stockfish_white_wins: self.stockfish_white_wins as int,
            stockfish_black_wins: self.stockfish_black_wins as int,
            reckless_white_wins: self.reckless_white_wins as int,
            reckless_black_wins: self.reckless_black_wins as int,
            games_completed: self.games_completed as int,
        }
    }
}

/// The counters are mutually consistent: wins split by color sum to the
/// per-engine totals, and everything recorded sums to the completed count.
pub open spec fn consistent(v: StatsView) -> bool {
    &&& v.stockfish_wins == v.stockfish_white_wins + v.stockfish_black_wins
    &&& v.reckless_wins == v.reckless_white_wins + v.reckless_black_wins
    &&& v.games_completed == v.stockfish_wins + v.reckless_wins + v.draws
    &&& v.stockfish_white_wins >= 0
    &&& v.stockfish_black_wins >= 0
    &&& v.reckless_white_wins >= 0
    &&& v.reckless_black_wins >= 0
    &&& v.draws >= 0
}

impl MatchStats {
    /// Fresh statistics: all counters zero.
    pub fn new() -> (r: MatchStats)
        ensures
            r@ == (StatsView {
                stockfish_wins: 0,
                reckless_wins: 0,
                draws: 0,
                stockfish_white_wins: 0,
                stockfish_black_wins: 0,
                reckless_white_wins: 0,
                reckless_black_wins: 0,
                games_completed: 0,
            }),
            consistent(r@),
    {
        MatchStats {
            stockfish_wins: 0,
            reckless_wins: 0,
            draws: 0,
            stockfish_white_wins: 0,
            stockfish_black_wins: 0,
            reckless_white_wins: 0,
            reckless_black_wins: 0,
            games_completed: 0,
        }
    }

    /// Record one completed game.
    pub fn record(&mut self, result: GameResult, stockfish_is_white: bool)
        requires
            consistent(old(self)@),
            old(self)@.games_completed < u64::MAX,
        ensures
            final(self)@ == record_spec(old(self)@, message(result, stockfish_is_white)),
            consistent(final(self)@),
    {
        match result {
            GameResult::WhiteWins => {
                if stockfish_is_white {
                    self.stockfish_wins = self.stockfish_wins + 1;
                    self.stockfish_white_wins = self.stockfish_white_wins + 1;
                } else {
                    self.reckless_wins = self.reckless_wins + 1;
                    self.reckless_white_wins = self.reckless_white_wins + 1;
                }
            },
            GameResult::BlackWins => {
                if stockfish_is_white {
                    self.reckless_wins = self.reckless_wins + 1;
                    self.reckless_black_wins = self.reckless_black_wins + 1;
                } else {
                    self.stockfish_wins = self.stockfish_wins + 1;
                    self.stockfish_black_wins = self.stockfish_black_wins + 1;
                }
            },
            GameResult::Draw => {
                self.draws = self.draws + 1;
            },
        }
        self.games_completed = self.games_completed + 1;
    }

    /// Drain a batch of completed-game messages in arrival order.
    pub fn record_all(&mut self, msgs: &Vec<GameCompleted>)
        requires
            consistent(old(self)@),
            old(self)@.games_completed + msgs@.len() <= u64::MAX,
        ensures
            final(self)@ == apply_all(old(self)@, msgs@),
            consistent(final(self)@),
    {
        let n = msgs.len();
        let mut i: usize = 0;
        proof {
            assert(msgs@.take(0) =~= Seq::<GameCompleted>::empty());
        }
        while i < n
            invariant
                n == msgs@.len(),
                0 <= i <= n,
                consistent(self@),
                self@ == apply_all(old(self)@, msgs@.take(i as int)),
                self@.games_completed == old(self)@.games_completed + i,
                old(self)@.games_completed + msgs@.len() <= u64::MAX,
            decreases n - i,
        {
            let m = msgs[i];
            self.record(m.result, m.stockfish_is_white);
            proof {
                let cur = msgs@.take(i + 1);
                assert(cur.drop_last() =~= msgs@.take(i as int));
                assert(cur.last() == msgs@[i as int]);
            }
            i = i + 1;
        }
        proof {
            assert(msgs@.take(n as int) =~= msgs@);
        }
    }

    /// How many games have been recorded so far.
    pub fn total_games(&self) -> (r: u64)
        ensures
            r == self@.games_completed,
    {
        self.games_completed
    }

    /// Wins recorded for stockfish, the first-named engine.
    pub fn stockfish_wins(&self) -> (r: u64)
        ensures
            r == self@.stockfish_wins,
    {
        self.stockfish_wins
    }

    /// Wins recorded for reckless, the second-named engine.
    pub fn reckless_wins(&self) -> (r: u64)
        ensures
            r == self@.reckless_wins,
    {
        self.reckless_wins
    }

    /// Draws recorded.
    pub fn draws(&self) -> (r: u64)
        ensures
            r == self@.draws,
    {
        self.draws
    }

    /// Wins stockfish recorded with the White pieces.
    pub fn stockfish_white_wins(&self) -> (r: u64)
        ensures
            r == self@.stockfish_white_wins,
    {
        self.stockfish_white_wins
    }

    /// Wins stockfish recorded with the Black pieces.
    pub fn stockfish_black_wins(&self) -> (r: u64)
        ensures
            r == self@.stockfish_black_wins,
    {
        self.stockfish_black_wins
    }

    /// Wins reckless recorded with the White pieces.
    pub fn reckless_white_wins(&self) -> (r: u64)
        ensures
            r == self@.reckless_white_wins,
    {
        self.reckless_white_wins
    }

    /// Wins reckless recorded with the Black pieces.
    pub fn reckless_black_wins(&self) -> (r: u64)
        ensures
            r == self@.reckless_black_wins,
    {
        self.reckless_black_wins
    }
}

} // verus!
