use engine_battle::engine::uci::{
    dec_string, go_command, handshake_ack_token, handshake_command, line_matches_token,
    new_game_command, parse_bestmove_line, position_command, quit_command, readiness_ack_token,
    readiness_probe_command, seek_bestmove, seek_token, str_eq, BestMoveLine,
};
use engine_battle::errors::MatchError;

#[test]
fn test_fixed_commands() {
    assert_eq!(handshake_command(), "uci");
    assert_eq!(handshake_ack_token(), "uciok");
    assert_eq!(new_game_command(), "ucinewgame");
    assert_eq!(readiness_probe_command(), "isready");
    assert_eq!(readiness_ack_token(), "readyok");
    assert_eq!(quit_command(), "quit");
}

#[test]
fn test_str_eq() {
    assert!(str_eq("uciok", "uciok"));
    assert!(!str_eq("uciok", "uciok "));
    assert!(!str_eq("readyok", "uciok"));
    assert!(str_eq("", ""));
}

#[test]
fn test_position_command_empty() {
    let cmd = position_command(&Vec::new());
    assert_eq!(cmd, "position startpos");
}

#[test]
fn test_position_command_with_moves() {
    let moves = vec!["e2e4".to_string(), "e7e5".to_string()];
    let cmd = position_command(&moves);
    assert_eq!(cmd, "position startpos moves e2e4 e7e5");
}

#[test]
fn test_dec_string() {
    assert_eq!(dec_string(0), "0");
    assert_eq!(dec_string(7), "7");
    assert_eq!(dec_string(100), "100");
    assert_eq!(dec_string(1234567890), "1234567890");
    assert_eq!(dec_string(u64::MAX), "18446744073709551615");
}

#[test]
fn test_go_command() {
    assert_eq!(go_command(100), "go movetime 100");
    assert_eq!(go_command(50), "go movetime 50");
}

#[test]
fn test_line_matches_token_trims() {
    assert!(line_matches_token("uciok\n", "uciok"));
    assert!(line_matches_token("  uciok \r\n", "uciok"));
    assert!(!line_matches_token("uciok extra\n", "uciok"));
    assert!(!line_matches_token("info uciok\n", "uciok"));
}

#[test]
fn test_seek_token_finds_first_match() {
    let lines = vec![
        "id name some engine\n".to_string(),
        "option name Hash type spin\n".to_string(),
        "uciok\n".to_string(),
    ];
    assert_eq!(seek_token(&lines, "uciok"), Ok(2));
}

#[test]
fn test_seek_token_closed_stream_disconnects() {
    // A process that closes its output right after spawn produces an empty
    // transcript: initialization reports a disconnect instead of hanging.
    let lines: Vec<String> = Vec::new();
    assert_eq!(seek_token(&lines, "uciok"), Err(MatchError::EngineDisconnected));

    let noise = vec!["id name chatty\n".to_string(), "readyok\n".to_string()];
    assert_eq!(seek_token(&noise, "uciok"), Err(MatchError::EngineDisconnected));
}

#[test]
fn test_parse_bestmove_extracts_first_token() {
    match parse_bestmove_line("bestmove e2e4 ponder d7d5\n") {
        BestMoveLine::Move(m) => assert_eq!(m, "e2e4"),
        _ => panic!("expected a move"),
    }
    match parse_bestmove_line("bestmove g1f3\n") {
        BestMoveLine::Move(m) => assert_eq!(m, "g1f3"),
        _ => panic!("expected a move"),
    }
}

#[test]
fn test_parse_bestmove_discards_other_lines() {
    assert!(matches!(
        parse_bestmove_line("info depth 20 score cp 35\n"),
        BestMoveLine::NotBestMove
    ));
    assert!(matches!(parse_bestmove_line("\n"), BestMoveLine::NotBestMove));
    assert!(matches!(parse_bestmove_line("bestmove\n"), BestMoveLine::NotBestMove));
    // Trimming eats the trailing whitespace first, so an announcement with
    // nothing after the keyword is discarded like any other line.
    assert!(matches!(parse_bestmove_line("bestmove \n"), BestMoveLine::NotBestMove));
    assert!(matches!(parse_bestmove_line("bestmove    \n"), BestMoveLine::NotBestMove));
}

#[test]
fn test_seek_bestmove_skips_diagnostics() {
    let lines = vec![
        "info depth 1 seldepth 1\n".to_string(),
        "info depth 2 score cp 20\n".to_string(),
        "bestmove e2e4 ponder e7e5\n".to_string(),
    ];
    assert_eq!(seek_bestmove(&lines), Ok("e2e4".to_string()));
}

#[test]
fn test_seek_bestmove_errors() {
    let silent: Vec<String> = Vec::new();
    assert_eq!(seek_bestmove(&silent), Err(MatchError::EngineDisconnected));

    let noise = vec!["info string hello\n".to_string()];
    assert_eq!(seek_bestmove(&noise), Err(MatchError::EngineDisconnected));

    let keyword_only = vec!["bestmove \n".to_string()];
    assert_eq!(seek_bestmove(&keyword_only), Err(MatchError::EngineDisconnected));
}
