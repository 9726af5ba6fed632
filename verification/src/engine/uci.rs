//! UCI protocol text handling: the commands sent to an engine and the
//! scanning of the lines it answers with.
//!
//! The functions here are pure: the async read/write loops around the engine
//! process hand each received line (or the whole received transcript) to
//! them and act on the returned classification.

use vstd::prelude::*;
use crate::errors::MatchError;

verus! {

/// The whitespace characters recognized when trimming a protocol line and
/// when splitting a best-move announcement into tokens.
pub open spec fn is_ws_char(c: char) -> bool {
    c == ' ' || c == '\t' || c == '\r' || c == '\n'
}

/// `s` with its leading whitespace removed.
pub open spec fn trim_front(s: Seq<char>) -> Seq<char>
    decreases s.len(),
{
    if s.len() > 0 && is_ws_char(s[0]) {
        trim_front(s.drop_first())
    } else {
        s
    }
}

/// `s` with its trailing whitespace removed.
pub open spec fn trim_back(s: Seq<char>) -> Seq<char>
    decreases s.len(),
{
    if s.len() > 0 && is_ws_char(s.last()) {
        trim_back(s.drop_last())
    } else {
        s
    }
}

/// `s` with leading and trailing whitespace removed.
pub open spec fn trim_spec(s: Seq<char>) -> Seq<char> {
    trim_back(trim_front(s))
}

/// The longest whitespace-free prefix of `s`: the first token if `s` starts
/// with one, the empty sequence otherwise.
pub open spec fn leading_token(s: Seq<char>) -> Seq<char>
    decreases s.len(),
{
    if s.len() > 0 && !is_ws_char(s[0]) {
        seq![s[0]] + leading_token(s.drop_first())
    } else {
        Seq::empty()
    }
}

proof fn lemma_trim_front_is_suffix(s: Seq<char>, i: int)
    requires
        0 <= i <= s.len(),
        forall|j: int| 0 <= j < i ==> is_ws_char(s[j]),
        i < s.len() ==> !is_ws_char(s[i]),
    ensures
        trim_front(s) == s.subrange(i, s.len() as int),
    decreases i,
{
    if i == 0 {
        assert(trim_front(s) == s);
        assert(s.subrange(0, s.len() as int) =~= s);
    } else {
        let t = s.drop_first();
        lemma_trim_front_is_suffix(t, i - 1);
        assert(t.subrange(i - 1, t.len() as int) =~= s.subrange(i, s.len() as int));
    }
}

proof fn lemma_trim_back_is_prefix(s: Seq<char>, e: int)
    requires
        0 <= e <= s.len(),
        forall|j: int| e <= j < s.len() ==> is_ws_char(s[j]),
        e > 0 ==> !is_ws_char(s[e - 1]),
    ensures
        trim_back(s) == s.subrange(0, e),
    decreases s.len() - e,
{
    if e == s.len() {
        if s.len() > 0 && is_ws_char(s.last()) {
            assert(!is_ws_char(s[e - 1]));
            assert(false);
        }
        assert(s.subrange(0, e) =~= s);
    } else {
        let t = s.drop_last();
        assert(is_ws_char(s.last()));
        lemma_trim_back_is_prefix(t, e);
        assert(t.subrange(0, e) =~= s.subrange(0, e));
    }
}

proof fn lemma_leading_token_is_prefix(s: Seq<char>, k: int)
    requires
        0 <= k <= s.len(),
        forall|j: int| 0 <= j < k ==> !is_ws_char(s[j]),
        k < s.len() ==> is_ws_char(s[k]),
    ensures
        leading_token(s) == s.subrange(0, k),
    decreases k,
{
    if k == 0 {
        assert(s.subrange(0, 0) =~= Seq::<char>::empty());
    } else {
        let t = s.drop_first();
        lemma_leading_token_is_prefix(t, k - 1);
        assert(seq![s[0]] + t.subrange(0, k - 1) =~= s.subrange(0, k));
    }
}

/// Whether the character at position `i` of `s` is whitespace.
fn is_ws_at(s: &str, i: usize) -> (r: bool)
    requires
        i < s@.len(),
    ensures
        r == is_ws_char(s@[i as int]),
{
    let c = s.get_char(i);
    c == ' ' || c == '\t' || c == '\r' || c == '\n'
}

/// Whether two string slices hold the same characters.
pub fn str_eq(a: &str, b: &str) -> (r: bool)
    ensures
        r == (a@ == b@),
{
    let la: usize = a.unicode_len();
    let lb: usize = b.unicode_len();
    if la != lb {
        return false;
    }
    let mut i: usize = 0;
    while i < la
        invariant
            la == a@.len(),
            la == b@.len(),
            0 <= i <= la,
            forall|j: int| 0 <= j < i ==> a@[j] == b@[j],
        decreases la - i,
    {
        if a.get_char(i) != b.get_char(i) {
            return false;
        }
        i = i + 1;
    }
    proof {
        assert(a@ =~= b@);
    }
    true
}

/// The bounds of `line` once trimmed: `trim_spec(line@)` is exactly the
/// characters of `line` from `r.0` (inclusive) to `r.1` (exclusive).
pub fn trim_bounds(line: &str) -> (r: (usize, usize))
    ensures
        0 <= r.0 <= r.1 <= line@.len(),
        trim_spec(line@) == line@.subrange(r.0 as int, r.1 as int),
        forall|j: int| 0 <= j < r.0 ==> is_ws_char(line@[j]),
        r.0 < line@.len() ==> !is_ws_char(line@[r.0 as int]),
{
    let n: usize = line.unicode_len();
    let mut start: usize = 0;
    while start < n && is_ws_at(line, start)
        invariant
            n == line@.len(),
            0 <= start <= n,
            forall|j: int| 0 <= j < start ==> is_ws_char(line@[j]),
        decreases n - start,
    {
        start = start + 1;
    }
    proof {
        lemma_trim_front_is_suffix(line@, start as int);
    }
    let ghost front = line@.subrange(start as int, line@.len() as int);
    let mut end: usize = n;
    while end > start && is_ws_at(line, end - 1)
        invariant
            n == line@.len(),
            0 <= start <= end <= n,
            forall|j: int| end <= j < n ==> is_ws_char(line@[j]),
        decreases end,
    {
        end = end - 1;
    }
    proof {
        assert(forall|j: int| end - start <= j < front.len() ==> is_ws_char(#[trigger] front[j]));
        lemma_trim_back_is_prefix(front, end - start);
        assert(front.subrange(0, end - start) =~= line@.subrange(start as int, end as int));
    }
    (start, end)
}

/// Whether `line`, once trimmed, is exactly the awaited response token.
/// This is the per-line decision of the blocking wait loop: lines for which
/// it returns false are read and discarded.
pub fn line_matches_token(line: &str, token: &str) -> (r: bool)
    ensures
        r == (trim_spec(line@) == token@),
{
    let (start, end) = trim_bounds(line);
    let lt: usize = token.unicode_len();
    if end - start != lt {
        proof {
            assert(trim_spec(line@).len() == end - start);
        }
        return false;
    }
    let mut i: usize = 0;
    while i < lt
        invariant
            lt == token@.len(),
            0 <= i <= lt,
            start + lt == end <= line@.len(),
            trim_spec(line@) == line@.subrange(start as int, (start + lt) as int),
            forall|j: int| 0 <= j < i ==> line@[start + j] == token@[j],
        decreases lt - i,
    {
        if line.get_char(start + i) != token.get_char(i) {
            proof {
                assert(trim_spec(line@)[i as int] == line@[start + i]);
            }
            return false;
        }
        i = i + 1;
    }
    proof {
        assert(trim_spec(line@) =~= token@);
    }
    true
}

/// The outcome of waiting for a given response token over a finite
/// transcript of output lines: the index of the first line that matches, or
/// `EngineDisconnected` if the stream closed (the transcript ran out) first.
pub open spec fn seek_token_spec(lines: Seq<Seq<char>>, token: Seq<char>) -> Result<int, MatchError>
    decreases lines.len(),
{
    if lines.len() == 0 {
        Err(MatchError::EngineDisconnected)
    } else if trim_spec(lines[0]) == token {
        Ok(0)
    } else {
        match seek_token_spec(lines.drop_first(), token) {
            Ok(i) => Ok(i + 1),
            Err(e) => Err(e),
        }
    }
}

/// Scan a transcript of engine output lines for the awaited response token,
/// discarding every line that does not match, as the blocking wait loop
/// does. `lines` is everything the engine wrote before closing its output,
/// so exhausting it without a match is the stream closing unexpectedly:
/// the result is then `EngineDisconnected`, never a hang.
pub fn seek_token(lines: &Vec<String>, token: &str) -> (r: Result<usize, MatchError>)
    ensures
        match r {
            Ok(i) => seek_token_spec(lines.deep_view(), token@) == Ok::<int, MatchError>(i as int),
            Err(e) => seek_token_spec(lines.deep_view(), token@) == Err::<int, MatchError>(e),
        },
{
    let n = lines.len();
    let mut i: usize = 0;
    proof {
        assert(lines.deep_view().skip(0) =~= lines.deep_view());
    }
    while i < n
        invariant
            n == lines@.len(),
            0 <= i <= n,
            forall|j: int| 0 <= j < i ==> trim_spec(lines.deep_view()[j]) != token@,
            seek_token_spec(lines.deep_view(), token@) == (match seek_token_spec(
                lines.deep_view().skip(i as int),
                token@,
            ) {
                Ok(k) => Ok(k + i),
                Err(e) => Err::<int, MatchError>(e),
            }),
        decreases n - i,
    {
        let ghost rest = lines.deep_view().skip(i as int);
        if line_matches_token(&lines[i], token) {
            proof {
                assert(rest[0] == lines.deep_view()[i as int]);
                assert(seek_token_spec(rest, token@) == Ok::<int, MatchError>(0));
            }
            return Ok(i);
        }
        proof {
            assert(rest[0] == lines.deep_view()[i as int]);
            assert(rest.drop_first() =~= lines.deep_view().skip(i + 1));
        }
        i = i + 1;
    }
    proof {
        assert(lines.deep_view().skip(i as int) =~= Seq::<Seq<char>>::empty());
    }
    Err(MatchError::EngineDisconnected)
}

/// How one engine output line looks to the best-move read loop.
pub enum BestMoveLine {
    /// Not a best-move announcement; the read loop discards it.
    NotBestMove,
    /// A best-move announcement with no move token after the keyword.
    MissingMove,
    /// A best-move announcement; the move is the first token after the
    /// keyword (a trailing ponder token is ignored).
    Move(String),
}

/// Whether `s` begins with the characters of `p`.
pub open spec fn starts_with(s: Seq<char>, p: Seq<char>) -> bool {
    s.len() >= p.len() && s.subrange(0, p.len() as int) == p
}

/// Whether a trimmed output line is a best-move announcement.
pub open spec fn is_bestmove_line(line: Seq<char>) -> bool {
    starts_with(trim_spec(line), "bestmove "@)
}

/// The move token announced by a best-move line: the first
/// whitespace-delimited token after the `bestmove ` keyword (empty if the
/// announcement carries none).
pub open spec fn bestmove_token(line: Seq<char>) -> Seq<char> {
    leading_token(trim_front(trim_spec(line).skip("bestmove "@.len() as int)))
}

/// Classify one engine output line as the best-move read loop does: lines
/// that do not announce a best move are discarded; an announcement yields
/// the first token after the keyword, and is malformed if it has none.
pub fn parse_bestmove_line(line: &str) -> (r: BestMoveLine)
    ensures
        r is NotBestMove <==> !is_bestmove_line(line@),
        r is MissingMove <==> is_bestmove_line(line@) && bestmove_token(line@).len() == 0,
        r matches BestMoveLine::Move(m) ==> is_bestmove_line(line@) && m@ == bestmove_token(
            line@,
        ) && m@.len() > 0,
{
    let marker = "bestmove ";
    proof {
        reveal_strlit("bestmove ");
    }
    let ml: usize = marker.unicode_len();
    let (a, b) = trim_bounds(line);
    if b - a < ml {
        proof {
            assert(trim_spec(line@).len() < marker@.len());
        }
        return BestMoveLine::NotBestMove;
    }
    let mut i: usize = 0;
    while i < ml
        invariant
            ml == marker@.len(),
            marker@ == "bestmove "@,
            0 <= i <= ml,
            a + ml <= b <= line@.len(),
            trim_spec(line@) == line@.subrange(a as int, b as int),
            forall|j: int| 0 <= j < i ==> line@[a + j] == marker@[j],
        decreases ml - i,
    {
        if line.get_char(a + i) != marker.get_char(i) {
            proof {
                let t = trim_spec(line@);
                assert(t[i as int] == line@[a + i]);
                if is_bestmove_line(line@) {
                    assert(marker@ =~= "bestmove "@);
                    assert(t.subrange(0, ml as int) == marker@);
                    assert(t.subrange(0, ml as int)[i as int] == marker@[i as int]);
                    assert(false);
                }
            }
            return BestMoveLine::NotBestMove;
        }
        i = i + 1;
    }
    proof {
        assert(trim_spec(line@).subrange(0, ml as int) =~= marker@);
    }
    let ghost rest = trim_spec(line@).skip(ml as int);
    proof {
        assert(rest =~= line@.subrange(a + ml, b as int));
    }
    let mut ts: usize = a + ml;
    while ts < b && is_ws_at(line, ts)
        invariant
            a + ml <= ts <= b <= line@.len(),
            forall|j: int| a + ml <= j < ts ==> is_ws_char(line@[j]),
        decreases b - ts,
    {
        ts = ts + 1;
    }
    proof {
        assert(forall|j: int|
            0 <= j < ts - (a + ml) ==> is_ws_char(#[trigger] rest[j]));
        lemma_trim_front_is_suffix(rest, ts - (a + ml));
        assert(trim_front(rest) =~= line@.subrange(ts as int, b as int));
    }
    if ts == b {
        proof {
            assert(trim_front(rest).len() == 0);
        }
        return BestMoveLine::MissingMove;
    }
    let mut te: usize = ts;
    while te < b && !is_ws_at(line, te)
        invariant
            ts <= te <= b <= line@.len(),
            forall|j: int| ts <= j < te ==> !is_ws_char(line@[j]),
        decreases b - te,
    {
        te = te + 1;
    }
    let ghost u = line@.subrange(ts as int, b as int);
    proof {
        assert(forall|j: int| 0 <= j < te - ts ==> !is_ws_char(#[trigger] u[j]));
        lemma_leading_token_is_prefix(u, te - ts);
        assert(u.subrange(0, te - ts) =~= line@.subrange(ts as int, te as int));
        assert(te > ts);
    }
    let tok = line.substring_char(ts, te).to_owned();
    BestMoveLine::Move(tok)
}

/// The outcome of the best-move read loop over a finite transcript of
/// output lines: every line that is not a best-move announcement is
/// discarded; the first announcement yields its move token, or
/// `ProtocolViolation` if it carries none; a transcript with no
/// announcement at all means the stream closed, `EngineDisconnected`.
pub open spec fn bestmove_scan_spec(lines: Seq<Seq<char>>) -> Result<Seq<char>, MatchError>
    decreases lines.len(),
{
    if lines.len() == 0 {
        Err(MatchError::EngineDisconnected)
    } else if is_bestmove_line(lines[0]) {
        if bestmove_token(lines[0]).len() == 0 {
            Err(MatchError::ProtocolViolation)
        } else {
            Ok(bestmove_token(lines[0]))
        }
    } else {
        bestmove_scan_spec(lines.drop_first())
    }
}

/// Scan a transcript of engine output lines for the first best-move
/// announcement, as the move-request read loop does.
pub fn seek_bestmove(lines: &Vec<String>) -> (r: Result<String, MatchError>)
    ensures
        match r {
            Ok(m) => bestmove_scan_spec(lines.deep_view()) == Ok::<Seq<char>, MatchError>(m@),
            Err(e) => bestmove_scan_spec(lines.deep_view()) == Err::<Seq<char>, MatchError>(e),
        },
{
    let n = lines.len();
    let mut i: usize = 0;
    proof {
        assert(lines.deep_view().skip(0) =~= lines.deep_view());
    }
    while i < n
        invariant
            n == lines@.len(),
            0 <= i <= n,
            bestmove_scan_spec(lines.deep_view()) == bestmove_scan_spec(
                lines.deep_view().skip(i as int),
            ),
        decreases n - i,
    {
        let ghost rest = lines.deep_view().skip(i as int);
        proof {
            assert(rest[0] == lines.deep_view()[i as int]);
            assert(rest.drop_first() =~= lines.deep_view().skip(i + 1));
        }
        match parse_bestmove_line(&lines[i]) {
            BestMoveLine::NotBestMove => {},
            BestMoveLine::MissingMove => {
                return Err(MatchError::ProtocolViolation);
            },
            BestMoveLine::Move(m) => {
                return Ok(m);
            },
        }
        i = i + 1;
    }
    proof {
        assert(lines.deep_view().skip(i as int) =~= Seq::<Seq<char>>::empty());
    }
    Err(MatchError::EngineDisconnected)
}

/// The move tokens of a position command, each preceded by one space.
pub open spec fn moves_suffix(moves: Seq<Seq<char>>) -> Seq<char>
    decreases moves.len(),
{
    if moves.len() == 0 {
        Seq::empty()
    } else {
        moves_suffix(moves.drop_last()) + seq![' '] + moves.last()
    }
}

/// The position-context command for the starting position followed by
/// `moves`: the bare starting-position form when there are no moves, the
/// starting-position-plus-move-list form otherwise.
pub open spec fn position_command_spec(moves: Seq<Seq<char>>) -> Seq<char> {
    if moves.len() == 0 {
        "position startpos"@
    } else {
        "position startpos moves"@ + moves_suffix(moves)
    }
}

/// Build the position-context command sent before each move request.
pub fn position_command(moves: &Vec<String>) -> (r: String)
    ensures
        r@ == position_command_spec(moves.deep_view()),
{
    let mut cmd = "position startpos".to_owned();
    if moves.len() == 0 {
        return cmd;
    }
    proof {
        reveal_strlit("position startpos");
        reveal_strlit("position startpos moves");
        reveal_strlit(" moves");
        reveal_strlit(" ");
    }
    cmd.append(" moves");
    proof {
        assert(cmd@ =~= "position startpos moves"@);
        assert(moves.deep_view().take(0) =~= Seq::<Seq<char>>::empty());
    }
    let n = moves.len();
    let mut i: usize = 0;
    while i < n
        invariant
            n == moves@.len(),
            0 <= i <= n,
            cmd@ == "position startpos moves"@ + moves_suffix(moves.deep_view().take(i as int)),
            " "@ == seq![' '],
        decreases n - i,
    {
        cmd.append(" ");
        cmd.append(moves[i].as_str());
        proof {
            let pre = moves.deep_view().take(i as int);
            let cur = moves.deep_view().take(i + 1);
            assert(cur.drop_last() =~= pre);
            assert(cur.last() == moves.deep_view()[i as int]);
        }
        i = i + 1;
    }
    proof {
        assert(moves.deep_view().take(n as int) =~= moves.deep_view());
    }
    cmd
}

/// The digit character for a value below ten.
pub open spec fn digit_char(d: int) -> char {
    if d == 0 {
        '0'
    } else if d == 1 {
        '1'
    } else if d == 2 {
        '2'
    } else if d == 3 {
        '3'
    } else if d == 4 {
        '4'
    } else if d == 5 {
        '5'
    } else if d == 6 {
        '6'
    } else if d == 7 {
        '7'
    } else if d == 8 {
        '8'
    } else {
        '9'
    }
}

/// The decimal notation of a non-negative number.
pub open spec fn dec_str(n: int) -> Seq<char>
    decreases n,
{
    if n < 10 {
        seq![digit_char(n)]
    } else {
        dec_str(n / 10) + seq![digit_char(n % 10)]
    }
}

/// The decimal digit `d` as a string.
fn digit_str(d: u64) -> (r: &'static str)
    requires
        d < 10,
    ensures
        r@ == seq![digit_char(d as int)],
{
    proof {
        reveal_strlit("0");
        reveal_strlit("1");
        reveal_strlit("2");
        reveal_strlit("3");
        reveal_strlit("4");
        reveal_strlit("5");
        reveal_strlit("6");
        reveal_strlit("7");
        reveal_strlit("8");
        reveal_strlit("9");
    }
    let r = if d == 0 {
        "0"
    } else if d == 1 {
        "1"
    } else if d == 2 {
        "2"
    } else if d == 3 {
        "3"
    } else if d == 4 {
        "4"
    } else if d == 5 {
        "5"
    } else if d == 6 {
        "6"
    } else if d == 7 {
        "7"
    } else if d == 8 {
        "8"
    } else {
        "9"
    };
    proof {
        assert(r@ =~= seq![digit_char(d as int)]);
    }
    r
}

/// `n` written in decimal.
pub fn dec_string(n: u64) -> (r: String)
    ensures
        r@ == dec_str(n as int),
    decreases n,
{
    if n < 10 {
        digit_str(n).to_owned()
    } else {
        let mut s = dec_string(n / 10);
        s.append(digit_str(n % 10));
        s
    }
}

/// The move-request command carrying the per-move time budget in
/// milliseconds.
pub open spec fn go_command_spec(movetime_ms: int) -> Seq<char> {
    "go movetime "@ + dec_str(movetime_ms)
}

/// Build the move-request command for the given time budget.
pub fn go_command(movetime_ms: u64) -> (r: String)
    ensures
        r@ == go_command_spec(movetime_ms as int),
{
    let mut cmd = "go movetime ".to_owned();
    cmd.append(dec_string(movetime_ms).as_str());
    cmd
}

/// The command that starts protocol negotiation.
pub fn handshake_command() -> (r: &'static str)
    ensures
        r@ == "uci"@,
{
    "uci"
}

/// The token acknowledging that protocol negotiation is complete.
pub fn handshake_ack_token() -> (r: &'static str)
    ensures
        r@ == "uciok"@,
{
    "uciok"
}

/// The command resetting the engine for a new game.
pub fn new_game_command() -> (r: &'static str)
    ensures
        r@ == "ucinewgame"@,
{
    "ucinewgame"
}

/// The readiness probe sent after the new-game command.
pub fn readiness_probe_command() -> (r: &'static str)
    ensures
        r@ == "isready"@,
{
    "isready"
}

/// The token acknowledging readiness.
pub fn readiness_ack_token() -> (r: &'static str)
    ensures
        r@ == "readyok"@,
{
    "readyok"
}

/// The termination command; no response is awaited.
pub fn quit_command() -> (r: &'static str)
    ensures
        r@ == "quit"@,
{
    "quit"
}

} // verus!
