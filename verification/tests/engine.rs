//! Tests for the interactive round: matching, duplicates, strikes, and
//! the terminal states.

use know_ball::{
    is_reveal_command, match_guess, prepare_guess, GuessOutcome, RoundState, TriviaBoard,
};

fn row(fields: &[&str]) -> Vec<String> {
    fields.iter().map(|f| f.to_string()).collect()
}

fn two_row_board() -> TriviaBoard {
    let rows = vec![row(&["Tom Brady", "14643"]), row(&["Mike Glennon", "4100"])];
    let cols = vec!["name".to_string(), "yards".to_string()];
    TriviaBoard::new(rows, &cols)
}

#[test]
fn test_partial_guess_marks_first_row_only() {
    let mut board = two_row_board();
    let out = board.process_guess("brady");
    assert_eq!(out, GuessOutcome::Correct(0, board.points[0]));
    assert!(board.guessed[0]);
    assert!(!board.guessed[1]);
    assert_eq!(board.correct, 1);
    assert_eq!(board.strikes, 0);
}

#[test]
fn test_repeated_guess_is_duplicate_without_strike() {
    let mut board = two_row_board();
    board.process_guess("brady");
    let strikes_before = board.strikes;
    let out = board.process_guess("Brady");
    assert_eq!(out, GuessOutcome::Duplicate);
    assert_eq!(board.strikes, strikes_before);
    assert_eq!(board.correct, 1);
}

#[test]
fn test_uppercase_guess_matches_lowercased_answer() {
    let mut board = two_row_board();
    let out = board.process_guess("BRADY");
    assert_eq!(out, GuessOutcome::Correct(0, board.points[0]));
}

#[test]
fn test_answer_contained_in_guess_matches() {
    // The stored answer may be a substring of a longer guess.
    let mut board = two_row_board();
    let out = board.process_guess("the great mike glennon himself");
    assert_eq!(out, GuessOutcome::Correct(1, board.points[1]));
}

#[test]
fn test_miss_charges_a_strike() {
    let mut board = two_row_board();
    let out = board.process_guess("montana");
    assert_eq!(out, GuessOutcome::Strike);
    assert_eq!(board.strikes, 1);
    assert_eq!(board.correct, 0);
}

#[test]
fn test_three_misses_lose_the_round() {
    let rows = vec![
        row(&["Alpha One", "300"]),
        row(&["Beta Two", "200"]),
        row(&["Gamma Three", "100"]),
    ];
    let cols = vec!["name".to_string(), "yards".to_string()];
    let mut board = TriviaBoard::new(rows, &cols);
    for expect in 1..=3u32 {
        assert!(matches!(board.state(), RoundState::Playing));
        let out = board.process_guess("nobody");
        assert_eq!(out, GuessOutcome::Strike);
        assert_eq!(board.strikes, expect);
    }
    assert!(matches!(board.state(), RoundState::Lost));
    assert_eq!(board.correct, 0);
    assert_eq!(board.score, 0);
}

#[test]
fn test_guessing_all_rows_wins_with_full_score() {
    let rows = vec![
        row(&["Alpha One", "300"]),
        row(&["Beta Two", "200"]),
        row(&["Gamma Three", "100"]),
    ];
    let cols = vec!["name".to_string(), "yards".to_string()];
    let mut board = TriviaBoard::new(rows, &cols);
    let expected: u32 = board.points.iter().sum();
    board.process_guess("alpha");
    board.process_guess("beta");
    board.process_guess("gamma");
    assert!(matches!(board.state(), RoundState::Won));
    assert_eq!(board.correct, 3);
    assert_eq!(board.score, expected);
}

#[test]
fn test_score_accumulates_per_row_points() {
    let mut board = two_row_board();
    board.process_guess("glennon");
    assert_eq!(board.score, board.points[1]);
    board.process_guess("tom");
    assert_eq!(board.score, board.points[0] + board.points[1]);
}

#[test]
fn test_display_rows_mask_and_reveal() {
    let mut board = two_row_board();
    let hidden = board.display_rows();
    assert_eq!(hidden[0][0], "-------");
    assert_eq!(hidden[0][1], "14643");
    assert_eq!(hidden[1][0], "-------");
    board.process_guess("brady");
    let after = board.display_rows();
    assert_eq!(after[0][0], "Tom Brady");
    assert_eq!(after[1][0], "-------");
}

#[test]
fn test_result_reports_score_and_total() {
    let mut board = two_row_board();
    board.process_guess("brady");
    let result = board.result();
    assert_eq!(result.total, 2);
    assert_eq!(result.score, board.points[0]);
}

#[test]
fn test_match_guess_is_bidirectional() {
    assert!(match_guess("brady", "Tom Brady"));
    assert!(match_guess("tom brady the goat", "Tom Brady"));
    assert!(!match_guess("manning", "Tom Brady"));
}

#[test]
fn test_reveal_command_ignores_ascii_case() {
    assert!(is_reveal_command("reveal"));
    assert!(is_reveal_command("REVEAL"));
    assert!(is_reveal_command("Reveal"));
    assert!(!is_reveal_command("revea"));
    assert!(!is_reveal_command("reveal "));
}

#[test]
fn test_prepare_guess_trims_and_drops_blank_lines() {
    assert_eq!(prepare_guess("  brady \n"), Some("brady".to_string()));
    assert_eq!(prepare_guess("\t \n"), None);
    assert_eq!(prepare_guess(""), None);
}
