//! Game runner - plays a single game between two engines.
//!
//! The runner owns the decision logic of one game: whose turn it is, what a
//! returned move token means, and when the game is over. Legality and
//! termination questions are delegated to the rules collaborator,
//! `shakmaty`, behind trusted wrappers; everything either wrapper reports is
//! a deterministic function of the move list replayed from the starting
//! position, so the contracts speak over that list alone.
//!
//! The engines themselves are driven outside the library: the caller sends
//! the accumulated move list, requests a best move, and feeds the returned
//! token to [`GameRunner::advance`], repeating until it reports an outcome.

use vstd::prelude::*;
use crate::engine::uci::str_eq;
use crate::errors::MatchError;
use crate::game::result::GameResult;

verus! {

/// Declares `shakmaty::Chess`, the rules collaborator's position type, so it
/// can stand in a field. The value is opaque to verification; every fact
/// about it is stated over the move list that produced it.
#[verifier::external_type_specification]
#[verifier::external_body]
pub struct ExChess(shakmaty::Chess);

/// Names the side to move of the position reached by applying `moves`, in
/// order, to the starting position; stated by the wrapper over
/// `shakmaty::Position::turn`. Chess is deterministic, so the position and
/// every question about it are functions of the move list alone.
pub uninterp spec fn white_to_move(moves: Seq<Seq<char>>) -> bool;

/// Names whether `mv` is syntactically a move token; stated by the wrapper
/// over `shakmaty::uci::UciMove::from_str`.
pub uninterp spec fn parses_as_move(mv: Seq<char>) -> bool;

/// Names whether the move token `mv` resolves to a legal move in the
/// position reached by `moves`; stated by the wrapper over
/// `shakmaty::uci::UciMove::to_move`.
pub uninterp spec fn legal_continuation(moves: Seq<Seq<char>>, mv: Seq<char>) -> bool;

/// Names whether the position reached by `moves` is checkmate; stated by
/// the wrapper over `shakmaty::Position::is_checkmate`.
pub uninterp spec fn checkmate_after(moves: Seq<Seq<char>>) -> bool;

/// Names whether the position reached by `moves` is stalemate; stated by
/// the wrapper over `shakmaty::Position::is_stalemate`.
pub uninterp spec fn stalemate_after(moves: Seq<Seq<char>>) -> bool;

/// Names whether the position reached by `moves` leaves both sides with
/// insufficient winning material; stated by the wrapper over
/// `shakmaty::Position::is_insufficient_material`.
pub uninterp spec fn insufficient_material_after(moves: Seq<Seq<char>>) -> bool;

/// Names the half-move clock of the position reached by `moves` (plies
/// since the last capture or pawn move); stated by the wrapper over
/// `shakmaty::Position::halfmoves`.
pub uninterp spec fn halfmove_clock_after(moves: Seq<Seq<char>>) -> u32;

/// One game's state: the current position, owned for the duration of the
/// game, and the ordered move tokens applied so far (the replay log sent to
/// engines as position context). Both fields are private and change only in
/// lockstep, so replaying the log from the starting position always
/// reproduces the position; the view of a `Board` is that log.
pub struct Board {
    chess: shakmaty::Chess,
    moves: Vec<String>,
}

/// How the rules collaborator received one move token.
pub enum PlayOutcome {
    /// The token is not syntactically a move.
    NotParsed,
    /// The token parsed, but is not a legal move here.
    Illegal,
    /// The token resolved to a legal move, yet applying it was refused.
    Refused,
    /// The move was applied; the log grew by this token.
    Applied,
}

impl View for Board {
    type V = Seq<Seq<char>>;

    closed spec fn view(&self) -> Seq<Seq<char>> {
        self.moves.deep_view()
    }
}

impl Board {
    /// Relies on `shakmaty::Chess::default`: the standard starting
    /// position, with White to move and a zeroed half-move clock.
    #[verifier::external_body]
    pub fn startpos() -> (r: Board)
        ensures
            r@ == Seq::<Seq<char>>::empty(),
            white_to_move(r@),
            halfmove_clock_after(r@) == 0,
    {
        Board { chess: shakmaty::Chess::default(), moves: Vec::new() }
    }

    /// Relies on `shakmaty::Position::turn`: the side to move of the held
    /// position, which the replay log deterministically fixes.
    #[verifier::external_body]
    pub fn turn_is_white(&self) -> (r: bool)
        ensures
            r == white_to_move(self@),
    {
        shakmaty::Position::turn(&self.chess) == shakmaty::Color::White
    }

    /// Relies on `shakmaty::Position::is_checkmate`.
    #[verifier::external_body]
    pub fn is_checkmate(&self) -> (r: bool)
        ensures
            r == checkmate_after(self@),
    {
        shakmaty::Position::is_checkmate(&self.chess)
    }

    /// Relies on `shakmaty::Position::is_stalemate`.
    #[verifier::external_body]
    pub fn is_stalemate(&self) -> (r: bool)
        ensures
            r == stalemate_after(self@),
    {
        shakmaty::Position::is_stalemate(&self.chess)
    }

    /// Relies on `shakmaty::Position::is_insufficient_material`.
    #[verifier::external_body]
    pub fn is_insufficient_material(&self) -> (r: bool)
        ensures
            r == insufficient_material_after(self@),
    {
        shakmaty::Position::is_insufficient_material(&self.chess)
    }

    /// Relies on `shakmaty::Position::halfmoves`: the half-move clock used
    /// for the fifty-move draw rule.
    #[verifier::external_body]
    pub fn halfmove_clock(&self) -> (r: u32)
        ensures
            r == halfmove_clock_after(self@),
    {
        shakmaty::Position::halfmoves(&self.chess)
    }

    /// Hand one move token to the rules collaborator: parse it, resolve it
    /// against the current position, and apply it, growing the replay log on
    /// success. Relies on `shakmaty::uci::UciMove::from_str` (parse; depends
    /// on the token alone), `shakmaty::uci::UciMove::to_move` (resolve;
    /// returns a move exactly when the token names a legal one here) and
    /// `shakmaty::Position::play` (apply; may refuse, in which case nothing
    /// changes). Whether a resolved move is also applied is left to the
    /// collaborator: the contract allows `Refused` so that a defensive
    /// caller can report it.
    #[verifier::external_body]
    pub fn try_play(&mut self, mv: &str) -> (r: PlayOutcome)
        ensures
            r is NotParsed <==> !parses_as_move(mv@),
            r is Illegal <==> parses_as_move(mv@) && !legal_continuation(old(self)@, mv@),
            (r is Applied || r is Refused) <==> parses_as_move(mv@) && legal_continuation(
                old(self)@,
                mv@,
            ),
            r is Applied ==> final(self)@ == old(self)@.push(mv@),
            !(r is Applied) ==> final(self)@ == old(self)@,
            r is Applied ==> white_to_move(final(self)@) == !white_to_move(old(self)@),
    {
        let parsed: Result<shakmaty::uci::UciMove, _> = mv.parse();
        let uci = match parsed { Ok(u) => u, Err(_) => return PlayOutcome::NotParsed };
        let m = match uci.to_move(&self.chess) { Ok(m) => m, Err(_) => return PlayOutcome::Illegal };
        match shakmaty::Position::play(self.chess.clone(), m) {
            Err(_) => PlayOutcome::Refused,
            Ok(next) => { self.chess = next; self.moves.push(mv.to_owned()); PlayOutcome::Applied },
        }
    }

    /// The replay log: every move token applied so far, in order.
    pub fn moves(&self) -> (r: &Vec<String>)
        ensures
            r.deep_view() == self@,
    {
        &self.moves
    }

    /// How many plies have been played.
    pub fn ply_count(&self) -> (r: usize)
        ensures
            r == self@.len(),
    {
        self.moves.len()
    }
}

/// Whether a returned move token is the resignation sentinel: a dedicated
/// token or an empty announcement, meaning the side to move has no move.
pub open spec fn is_resignation(mv: Seq<char>) -> bool {
    mv == "(none)"@ || mv.len() == 0
}

/// The terminal outcome, if any, of the position reached by `moves`, the
/// conditions checked in this order: checkmate (the side now to move has no
/// reply, so the side that just moved wins), stalemate or insufficient
/// material (draw), the half-move clock reaching 100 (draw by the
/// fifty-move rule), and the ply cap `max_moves` (draw).
pub open spec fn terminal_outcome(moves: Seq<Seq<char>>, max_moves: int) -> Option<GameResult> {
    if checkmate_after(moves) {
        if white_to_move(moves) {
            Some(GameResult::BlackWins)
        } else {
            Some(GameResult::WhiteWins)
        }
    } else if stalemate_after(moves) || insufficient_material_after(moves) {
        Some(GameResult::Draw)
    } else if halfmove_clock_after(moves) >= 100 {
        Some(GameResult::Draw)
    } else if moves.len() >= max_moves {
        Some(GameResult::Draw)
    } else {
        None
    }
}

/// Runs chess games between two engines.
pub struct GameRunner {
    movetime_ms: u64,
    max_moves: u32,
}

impl GameRunner {
    /// The per-move time budget in milliseconds.
    pub closed spec fn spec_movetime_ms(&self) -> u64 {
        self.movetime_ms
    }

    /// The maximum number of plies before a game is declared drawn.
    pub closed spec fn spec_max_moves(&self) -> u32 {
        self.max_moves
    }

    /// Create a new game runner.
    #[must_use]
    pub fn new(movetime_ms: u64, max_moves: u32) -> (r: Self)
        ensures
            r.spec_movetime_ms() == movetime_ms,
            r.spec_max_moves() == max_moves,
    {
        GameRunner { movetime_ms, max_moves }
    }

    /// The per-move time budget to put in each move-request command.
    pub fn movetime_ms(&self) -> (r: u64)
        ensures
            r == self.spec_movetime_ms(),
    {
        self.movetime_ms
    }

    /// The ply cap.
    pub fn max_moves(&self) -> (r: u32)
        ensures
            r == self.spec_max_moves(),
    {
        self.max_moves
    }

    /// Feed one engine reply to the game: the token the side to move
    /// returned for the current position. Reports the game's outcome when
    /// this ply ends it, `None` when the game continues, and an error when
    /// the token is rejected (the board is then unchanged and the game's
    /// outcome is discarded).
    ///
    /// A resignation sentinel loses immediately for the side to move. An
    /// applied move ends the game by checkmate (the side that just moved
    /// wins), stalemate or insufficient material (draw), a half-move clock
    /// of 100 (draw), or the ply cap (draw).
    pub fn advance(&self, board: &mut Board, reply: &str) -> (r: Result<
        Option<GameResult>,
        MatchError,
    >)
        requires
            old(board)@.len() < self.spec_max_moves(),
        ensures
            is_resignation(reply@) ==> r == Ok::<Option<GameResult>, MatchError>(
                Some(
                    if white_to_move(old(board)@) {
                        GameResult::BlackWins
                    } else {
                        GameResult::WhiteWins
                    },
                ),
            ) && final(board)@ == old(board)@,
            !is_resignation(reply@) && !parses_as_move(reply@) ==> r == Err::<
                Option<GameResult>,
                MatchError,
            >(MatchError::InvalidMove) && final(board)@ == old(board)@,
            !is_resignation(reply@) && parses_as_move(reply@) && !legal_continuation(
                old(board)@,
                reply@,
            ) ==> r == Err::<Option<GameResult>, MatchError>(MatchError::IllegalMove)
                && final(board)@ == old(board)@,
            !is_resignation(reply@) && parses_as_move(reply@) && legal_continuation(
                old(board)@,
                reply@,
            ) ==> (r == Err::<Option<GameResult>, MatchError>(MatchError::GameApplyError)
                && final(board)@ == old(board)@) || (final(board)@ == old(board)@.push(reply@)
                && r == Ok::<Option<GameResult>, MatchError>(
                terminal_outcome(final(board)@, self.spec_max_moves() as int),
            )),
    {
        if str_eq(reply, "(none)") || reply.is_empty() {
            let white_resigned = board.turn_is_white();
            return Ok(
                Some(
                    if white_resigned {
                        GameResult::BlackWins
                    } else {
                        GameResult::WhiteWins
                    },
                ),
            );
        }
        match board.try_play(reply) {
            PlayOutcome::NotParsed => Err(MatchError::InvalidMove),
            PlayOutcome::Illegal => Err(MatchError::IllegalMove),
            PlayOutcome::Refused => Err(MatchError::GameApplyError),
            PlayOutcome::Applied => {
                if board.is_checkmate() {
                    // The side to move is checkmated, so the other side wins
                    let white_mated = board.turn_is_white();
                    if white_mated {
                        Ok(Some(GameResult::BlackWins))
                    } else {
                        Ok(Some(GameResult::WhiteWins))
                    }
                } else if board.is_stalemate() || board.is_insufficient_material() {
                    Ok(Some(GameResult::Draw))
                } else if board.halfmove_clock() >= 100 {
                    Ok(Some(GameResult::Draw))
                } else if board.ply_count() >= self.max_moves as usize {
                    Ok(Some(GameResult::Draw))
                } else {
                    Ok(None)
                }
            },
        }
    }
}

} // verus!
