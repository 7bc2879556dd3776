use mastermind::feedback::Feedback;
use mastermind::game::{Code, Game, Status};
use mastermind::options::Options;
use mastermind::options::{parse_i32, parse_usize};
use mastermind::rules::{Limit, Rules};
use mastermind::ui::{GuessInput, InputAction, InputKey, UI};

// Secret generation: configured length, every symbol within the alphabet.

#[test]
fn test_secret_length_and_range() {
    let rules = Rules::new(4, Limit::Attempts { count: 1 }, 6).unwrap();
    let mut game = Game::new(rules);
    // 9 is outside the alphabet, so this guess can never win; with a budget
    // of one attempt the game is lost and the secret becomes visible.
    let fb = game.guess(vec![9, 9, 9, 9]);
    assert!(fb.is_some());
    assert_eq!(game.state().status(), Status::Lost);
    let secret = game.secret_code().expect("terminal game exposes the secret");
    assert_eq!(secret.len(), 4);
    for &s in secret.iter() {
        assert!(s < 6);
    }
}

// Multiset correctness under duplicates, in both directions.

#[test]
fn test_duplicate_secret_multiset_bound() {
    let secret: Code = vec![1, 1, 1, 1];
    let guess: Code = vec![1, 2, 3, 4];
    let fb = Feedback::new(&secret, &guess);
    assert_eq!(fb.exact(), 1);
    assert_eq!(fb.misplaced(), 0);
}

#[test]
fn test_duplicate_guess_multiset_bound() {
    let secret: Code = vec![1, 2, 3, 4];
    let guess: Code = vec![1, 1, 1, 1];
    let fb = Feedback::new(&secret, &guess);
    assert_eq!(fb.exact(), 1);
    assert_eq!(fb.misplaced(), 0);
}

#[test]
fn test_mixed_counts_exact_values() {
    let fb = Feedback::new(&vec![1, 2, 3, 4], &vec![1, 3, 5, 4]);
    assert_eq!(fb.exact(), 2);
    assert_eq!(fb.misplaced(), 1);
    assert_eq!(fb.score(), 25);
}

#[test]
fn test_self_comparison_is_all_exact() {
    let code: Code = vec![3, 1, 4, 1, 5];
    let fb = Feedback::new(&code, &code);
    assert_eq!(fb.exact(), 5);
    assert_eq!(fb.misplaced(), 0);
}

// Rejection: a wrong-length guess changes nothing and consumes no attempt.

#[test]
fn test_rejection_leaves_state_unchanged() {
    let rules = Rules::new(4, Limit::Attempts { count: 10 }, 6).unwrap();
    let mut game = Game::new(rules);

    assert!(game.guess(vec![1, 2, 3]).is_none());
    assert!(game.guess(vec![1, 2, 3, 4, 5]).is_none());

    assert_eq!(game.state().attempts_left(), Some(10));
    assert_eq!(game.state().history().len(), 0);
    assert_eq!(game.state().status(), Status::InProgress);
}

// Win transition: the secret itself wins, regardless of remaining attempts.

#[test]
fn test_win_transition() {
    // Alphabet of one symbol: the secret is known to be all zeroes.
    let rules = Rules::new(4, Limit::Attempts { count: 10 }, 1).unwrap();
    let mut game = Game::new(rules);
    let fb = game.guess(vec![0, 0, 0, 0]).expect("accepted guess");
    assert_eq!(fb.exact(), 4);
    assert_eq!(fb.misplaced(), 0);
    assert_eq!(game.state().status(), Status::Won);
    // A winning guess consumes no attempt.
    assert_eq!(game.state().attempts_left(), Some(10));
}

#[test]
fn test_win_on_last_attempt() {
    let rules = Rules::new(3, Limit::Attempts { count: 1 }, 1).unwrap();
    let mut game = Game::new(rules);
    game.guess(vec![0, 0, 0]).expect("accepted guess");
    assert_eq!(game.state().status(), Status::Won);
}

// Loss transition: N non-winning guesses under an N-attempt policy.

#[test]
fn test_loss_after_attempts_exhausted() {
    let rules = Rules::new(4, Limit::Attempts { count: 3 }, 6).unwrap();
    let mut game = Game::new(rules);
    // 9 is outside the alphabet, so these guesses can never win.
    game.guess(vec![9, 9, 9, 9]).expect("accepted guess");
    assert_eq!(game.state().status(), Status::InProgress);
    assert_eq!(game.state().attempts_left(), Some(2));
    game.guess(vec![9, 9, 9, 9]).expect("accepted guess");
    assert_eq!(game.state().status(), Status::InProgress);
    assert_eq!(game.state().attempts_left(), Some(1));
    game.guess(vec![9, 9, 9, 9]).expect("accepted guess");
    assert_eq!(game.state().status(), Status::Lost);
    assert_eq!(game.state().attempts_left(), Some(0));
}

#[test]
fn test_no_loss_without_attempt_limit() {
    let rules = Rules::new(2, Limit::NoLimitation, 3).unwrap();
    let mut game = Game::new(rules);
    for _ in 0..20 {
        // 7 is outside the alphabet: never a win, and never a loss either.
        game.guess(vec![7, 7]).expect("accepted guess");
        assert_eq!(game.state().status(), Status::InProgress);
        assert_eq!(game.state().attempts_left(), None);
    }
}

// History integrity: k accepted guesses leave k turns, each recording the
// feedback a direct computation yields.

#[test]
fn test_history_matches_direct_feedback() {
    // Alphabet of one symbol: the secret is known to be all zeroes.
    let rules = Rules::new(4, Limit::NoLimitation, 1).unwrap();
    let mut game = Game::new(rules);
    let guesses: Vec<Code> = vec![vec![1, 1, 1, 1], vec![0, 1, 0, 1], vec![2, 3, 4, 5]];
    for g in guesses.iter() {
        game.guess(g.clone()).expect("accepted guess");
    }
    assert_eq!(game.state().history().len(), 3);
    let secret: Code = vec![0, 0, 0, 0];
    for (i, turn) in game.state().history().iter().enumerate() {
        assert_eq!(turn.guess(), &guesses[i]);
        assert_eq!(*turn.feedback(), Feedback::new(&secret, turn.guess()));
    }
}

#[test]
fn test_last_feedback_follows_history() {
    let rules = Rules::new(4, Limit::NoLimitation, 1).unwrap();
    let mut game = Game::new(rules);
    assert!(game.state().last_feedback().is_none());
    let fb = game.guess(vec![0, 1, 2, 3]).expect("accepted guess");
    let last = game.state().last_feedback().expect("one turn recorded");
    assert_eq!(*last, fb);
}

// A finished game ignores further guesses and keeps reporting the outcome.

#[test]
fn test_terminal_game_is_inert() {
    let rules = Rules::new(2, Limit::Attempts { count: 1 }, 1).unwrap();
    let mut game = Game::new(rules);
    game.guess(vec![0, 0]).expect("accepted guess");
    assert_eq!(game.state().status(), Status::Won);
    let again = game.guess(vec![0, 0]).expect("terminal outcome repeated");
    assert_eq!(again.exact(), 2);
    assert_eq!(game.state().history().len(), 1);
    assert_eq!(game.state().status(), Status::Won);
}

// Options and argument parsing.

#[test]
fn test_options_default() {
    let o = Options::default();
    assert_eq!(o.length, 4);
    assert_eq!(o.max_attempts, 10);
    assert_eq!(o.number_min, 0);
    assert_eq!(o.number_max, 9);
}

fn args_of(words: &[&str]) -> Vec<String> {
    words.iter().map(|w| w.to_string()).collect()
}

#[test]
fn test_parse_args_flags() {
    let args = args_of(&["game", "--length", "6", "-a", "5", "--min", "-3", "--max", "12"]);
    let (o, help) = Options::parse_args(&args);
    assert!(!help);
    assert_eq!(o.length, 6);
    assert_eq!(o.max_attempts, 5);
    assert_eq!(o.number_min, -3);
    assert_eq!(o.number_max, 12);
}

#[test]
fn test_parse_args_help() {
    let (o, help) = Options::parse_args(&args_of(&["game", "-h", "--length", "9"]));
    assert!(help);
    // The scan stops at the help flag.
    assert_eq!(o.length, 4);
    let (_, help2) = Options::parse_args(&args_of(&["game", "--help"]));
    assert!(help2);
}

#[test]
fn test_parse_args_bad_values_ignored() {
    let args = args_of(&["game", "--length", "abc", "--attempts", "", "--min"]);
    let (o, help) = Options::parse_args(&args);
    assert!(!help);
    assert_eq!(o, Options::default());
}

#[test]
fn test_parse_usize_values() {
    assert_eq!(parse_usize("0"), Some(0));
    assert_eq!(parse_usize("42"), Some(42));
    assert_eq!(parse_usize("+7"), Some(7));
    assert_eq!(parse_usize(""), None);
    assert_eq!(parse_usize("+"), None);
    assert_eq!(parse_usize("12x"), None);
    assert_eq!(parse_usize("-3"), None);
    assert_eq!(parse_usize("99999999999999999999999999"), None);
}

#[test]
fn test_parse_i32_values() {
    assert_eq!(parse_i32("0"), Some(0));
    assert_eq!(parse_i32("-0"), Some(0));
    assert_eq!(parse_i32("123"), Some(123));
    assert_eq!(parse_i32("-123"), Some(-123));
    assert_eq!(parse_i32("+9"), Some(9));
    assert_eq!(parse_i32("2147483647"), Some(2147483647));
    assert_eq!(parse_i32("2147483648"), None);
    assert_eq!(parse_i32("-2147483648"), Some(i32::MIN));
    assert_eq!(parse_i32("-2147483649"), None);
    assert_eq!(parse_i32("-"), None);
    assert_eq!(parse_i32("1-2"), None);
}

// Input geometry and ANSI stripping.

#[test]
fn test_ui_centering() {
    let ui = UI::new(Options::default(), 80, 24);
    assert_eq!(ui.input_row, 12);
    assert_eq!(ui.input_col, 38);
    assert_eq!(ui.underline_char, '_');
    assert_eq!(ui.placeholder_char, '-');
}

#[test]
fn test_strip_ansi_codes() {
    assert_eq!(UI::strip_ansi_codes("\u{1b}[1mBold\u{1b}[0m"), "Bold");
    assert_eq!(UI::strip_ansi_codes("plain text"), "plain text");
    assert_eq!(UI::strip_ansi_codes("a\u{1b}b"), "a\u{1b}b");
    assert_eq!(UI::strip_ansi_codes("\u{1b}[123"), "");
    assert_eq!(
        UI::strip_ansi_codes("\u{1b}[38;5;2mgreen\u{1b}[0m and \u{1b}[3mitalic\u{1b}[0m"),
        "green and italic"
    );
}

// The keystroke state machine for entering a guess.

#[test]
fn test_guess_input_flow() {
    let mut entry = GuessInput::new(3, '-');
    assert_eq!(entry.buffer().iter().collect::<String>(), "---");

    assert_eq!(entry.step(InputKey::Enter), InputAction::Pending);
    assert_eq!(entry.step(InputKey::Char('x')), InputAction::Pending);
    assert_eq!(entry.step(InputKey::Char('1')), InputAction::Pending);
    assert_eq!(entry.step(InputKey::Char('2')), InputAction::Pending);
    assert_eq!(entry.buffer().iter().collect::<String>(), "12-");

    assert_eq!(entry.step(InputKey::Backspace), InputAction::Pending);
    assert_eq!(entry.buffer().iter().collect::<String>(), "1--");

    assert_eq!(entry.step(InputKey::Char('9')), InputAction::Pending);
    assert_eq!(entry.step(InputKey::Char('0')), InputAction::Pending);
    assert_eq!(entry.step(InputKey::Char('5')), InputAction::Pending);
    assert_eq!(entry.buffer().iter().collect::<String>(), "190");

    assert_eq!(entry.step(InputKey::Enter), InputAction::Submit);
    assert_eq!(entry.digits(), vec![1, 9, 0]);
}

#[test]
fn test_guess_input_interrupt() {
    let mut entry = GuessInput::new(2, '-');
    assert_eq!(entry.step(InputKey::Interrupt), InputAction::Quit);
    assert_eq!(entry.step(InputKey::Other), InputAction::Pending);
    assert_eq!(entry.buffer().iter().collect::<String>(), "--");
}
