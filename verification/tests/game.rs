use hangman::game_logic::{
    EmptyWordListError, Game, GuessOutcome, RoundStatus, EMPTY_WORD_LIST, PLACEHOLDER,
    STAGE_COUNT, WRONG_GUESS_LIMIT,
};

fn play(game: &mut Game, letters: &str) -> Vec<GuessOutcome> {
    letters.chars().map(|c| game.guess(&c)).collect()
}

#[test]
fn check_guesses() {
    let mut game1 = Game {
        word: &"test".to_string(),
        win: false,
        guesses: vec![],
        guess_count: 0,
        wrong_count: 0,
        correct_guesses: vec!['_', '_', '_', '_'],
    };

    let good_guess = 't';
    let bad_guess = 'a';

    game1.guess(&good_guess);

    assert_eq!(game1.guesses, vec!['t']);
    assert_eq!(game1.guess_count, 1);
    assert_eq!(game1.wrong_count, 0);
    assert_eq!(game1.correct_guesses, vec!['t', '_', '_', 't']);

    game1.guess(&bad_guess);

    assert_eq!(game1.guesses, vec!['t', 'a']);
    assert_eq!(game1.guess_count, 2);
    assert_eq!(game1.wrong_count, 1);
    assert_eq!(game1.correct_guesses, vec!['t', '_', '_', 't']);
}

#[test]
fn new_game_is_fresh() {
    let word = "hangman".to_string();
    let game = Game::new(&word);
    assert_eq!(game.word, &word);
    assert!(!game.win);
    assert!(game.guesses.is_empty());
    assert_eq!(game.guess_count, 0);
    assert_eq!(game.wrong_count, 0);
    assert_eq!(game.correct_guesses, vec![PLACEHOLDER; 7]);
    assert!(game.is_valid());
}

#[test]
fn new_game_counts_characters_not_bytes() {
    let word = "héé".to_string();
    let mut game = Game::new(&word);
    assert_eq!(game.correct_guesses, vec!['_', '_', '_']);
    assert_eq!(game.guess(&'é'), GuessOutcome::Correct);
    assert_eq!(game.correct_guesses, vec!['_', 'é', 'é']);
}

#[test]
fn create_game_picks_a_word_of_the_list() {
    let words = vec!["alpha".to_string(), "beta".to_string(), "gamma".to_string()];
    let mut seen: Vec<String> = Vec::new();
    for _ in 0..300 {
        let game = Game::create_game(&words).expect("a list with words gives a game");
        assert!(words.contains(game.word));
        assert!(!game.win);
        assert!(game.guesses.is_empty());
        assert_eq!(game.guess_count, 0);
        assert_eq!(game.wrong_count, 0);
        assert_eq!(game.correct_guesses, vec!['_'; game.word.chars().count()]);
        assert!(game.is_valid());
        if !seen.contains(game.word) {
            seen.push(game.word.clone());
        }
    }
    assert!(seen.len() >= 2);
}

#[test]
fn create_game_with_one_word_takes_it() {
    let words = vec!["only".to_string()];
    let game = Game::create_game(&words).unwrap();
    assert_eq!(game.word, "only");
}

#[test]
fn create_game_refuses_an_empty_list() {
    let words: Vec<String> = Vec::new();
    let result = Game::create_game(&words);
    assert!(matches!(result, Err(EmptyWordListError)));
    assert_eq!(EmptyWordListError.message(), EMPTY_WORD_LIST);
    assert_eq!(
        EmptyWordListError.message(),
        "Game was not given any possible words to choose from. Check file given."
    );
}

#[test]
fn repeated_letter_is_already_tried() {
    let word = "test".to_string();
    let mut game = Game::new(&word);
    assert_eq!(game.guess(&'x'), GuessOutcome::Incorrect);
    let (wrong, count, buffer, tried) =
        (game.wrong_count, game.guess_count, game.correct_guesses.clone(), game.guesses.clone());
    assert_eq!(game.guess(&'x'), GuessOutcome::AlreadyTried);
    assert_eq!(game.wrong_count, wrong);
    assert_eq!(game.guess_count, count);
    assert_eq!(game.correct_guesses, buffer);
    assert_eq!(game.guesses, tried);

    assert_eq!(game.guess(&'t'), GuessOutcome::Correct);
    let (wrong, count, buffer) =
        (game.wrong_count, game.guess_count, game.correct_guesses.clone());
    assert_eq!(game.guess(&'t'), GuessOutcome::AlreadyTried);
    assert_eq!(game.wrong_count, wrong);
    assert_eq!(game.guess_count, count);
    assert_eq!(game.correct_guesses, buffer);
}

#[test]
fn guess_reveals_every_position_of_the_letter_and_no_other() {
    let word = "banana".to_string();
    let mut game = Game::new(&word);
    assert_eq!(game.guess(&'n'), GuessOutcome::Correct);
    assert_eq!(game.correct_guesses, vec!['_', '_', 'n', '_', 'n', '_']);
    assert_eq!(game.guess(&'a'), GuessOutcome::Correct);
    assert_eq!(game.correct_guesses, vec!['_', 'a', 'n', 'a', 'n', 'a']);
    assert_eq!(game.guess(&'z'), GuessOutcome::Incorrect);
    assert_eq!(game.correct_guesses, vec!['_', 'a', 'n', 'a', 'n', 'a']);
    assert_eq!(game.guess_count, 3);
    assert_eq!(game.wrong_count, 1);
}

#[test]
fn guess_is_case_sensitive() {
    let word = "Test".to_string();
    let mut game = Game::new(&word);
    assert_eq!(game.guess(&'t'), GuessOutcome::Correct);
    assert_eq!(game.correct_guesses, vec!['_', '_', '_', 't']);
    assert_eq!(game.guess(&'T'), GuessOutcome::Correct);
    assert_eq!(game.correct_guesses, vec!['T', '_', '_', 't']);
    assert_eq!(game.guess(&'E'), GuessOutcome::Incorrect);
}

#[test]
fn counters_never_decrease_and_win_stays() {
    let word = "ab".to_string();
    let mut game = Game::new(&word);
    let mut last = (game.wrong_count, game.guess_count, game.win);
    for c in "xaxybzbqa".chars() {
        game.guess(&c);
        assert!(game.wrong_count >= last.0);
        assert!(game.guess_count >= last.1);
        assert!(!last.2 || game.win);
        assert!(game.wrong_count <= game.guess_count);
        assert!(game.guess_count as usize <= game.guesses.len());
        game.check_status();
        assert!(!last.2 || game.win);
        assert!(game.is_valid());
        last = (game.wrong_count, game.guess_count, game.win);
    }
    assert!(game.win);
    assert_eq!(game.guess_count, 6);
    assert_eq!(game.wrong_count, 4);
}

#[test]
fn every_order_of_the_letters_wins() {
    for order in ["cat", "cta", "act", "atc", "tca", "tac"] {
        let word = "cat".to_string();
        let mut game = Game::new(&word);
        let outcomes = play(&mut game, order);
        assert_eq!(outcomes, vec![GuessOutcome::Correct; 3]);
        assert_eq!(game.check_status(), RoundStatus::Won);
        assert_eq!(game.correct_guesses, vec!['c', 'a', 't']);
        assert!(game.win);
        assert_eq!(game.wrong_count, 0);
    }
}

#[test]
fn six_absent_letters_lose() {
    let word = "dog".to_string();
    let mut game = Game::new(&word);
    for (n, c) in "xqzvbk".chars().enumerate() {
        assert_eq!(game.check_status(), RoundStatus::InProgress);
        assert_eq!(game.guess(&c), GuessOutcome::Incorrect);
        assert_eq!(game.wrong_count as usize, n + 1);
    }
    assert_eq!(game.check_status(), RoundStatus::Lost);
    assert_eq!(game.wrong_count, 6);
    assert!(!game.win);
}

#[test]
fn scenario_test_is_won() {
    let words = vec!["test".to_string()];
    let mut game = Game::create_game(&words).unwrap();
    assert_eq!(game.guess(&'t'), GuessOutcome::Correct);
    assert_eq!(game.correct_guesses.iter().collect::<String>(), "t__t");
    assert_eq!(game.guess(&'e'), GuessOutcome::Correct);
    assert_eq!(game.correct_guesses.iter().collect::<String>(), "te_t");
    assert_eq!(game.guess(&'s'), GuessOutcome::Correct);
    assert_eq!(game.correct_guesses.iter().collect::<String>(), "test");
    assert_eq!(game.check_status(), RoundStatus::Won);
    assert!(game.win);
}

#[test]
fn scenario_ab_is_lost() {
    let words = vec!["ab".to_string()];
    let mut game = Game::create_game(&words).unwrap();
    for c in ['x', 'y', 'z', 'w', 'v', 'u'] {
        assert_eq!(game.guess(&c), GuessOutcome::Incorrect);
    }
    assert_eq!(game.check_status(), RoundStatus::Lost);
    assert_eq!(game.wrong_count, 6);
    assert_eq!(game.correct_guesses, vec!['_', '_']);
    assert!(!game.win);
}

#[test]
fn loss_needs_the_sixth_wrong_guess() {
    let word = "ab".to_string();
    let mut game = Game::new(&word);
    play(&mut game, "vwxyz");
    assert_eq!(game.wrong_count, WRONG_GUESS_LIMIT - 1);
    assert_eq!(game.check_status(), RoundStatus::InProgress);
    assert!(!game.check_win());
    play(&mut game, "u");
    assert_eq!(game.check_status(), RoundStatus::Lost);
    assert!(game.check_win());
    assert!(!game.win);
}

#[test]
fn win_is_told_before_loss() {
    let word = "ab".to_string();
    let mut game = Game::new(&word);
    play(&mut game, "uvwxyzab");
    assert_eq!(game.wrong_count, 6);
    assert_eq!(game.check_status(), RoundStatus::Won);
    assert!(game.win);
}

#[test]
fn guesses_after_the_end_still_count() {
    let word = "ab".to_string();
    let mut game = Game::new(&word);
    play(&mut game, "uvwxyz");
    assert_eq!(game.check_status(), RoundStatus::Lost);
    assert_eq!(game.guess(&'q'), GuessOutcome::Incorrect);
    assert_eq!(game.wrong_count, 7);
    assert_eq!(game.guess_count, 7);
    assert_eq!(game.check_status(), RoundStatus::Lost);
}

#[test]
fn check_win_reports_the_end_and_records_the_win() {
    let word = "hi".to_string();
    let mut game = Game::new(&word);
    assert!(!game.check_win());
    assert!(!game.win);
    play(&mut game, "h");
    assert!(!game.check_win());
    play(&mut game, "i");
    assert!(!game.win);
    assert!(game.check_win());
    assert!(game.win);
    assert!(game.check_win());
    assert!(game.win);
}

#[test]
fn empty_word_is_won_at_once() {
    let word = String::new();
    let mut game = Game::new(&word);
    assert!(game.correct_guesses.is_empty());
    assert_eq!(game.check_status(), RoundStatus::Won);
    assert!(game.win);
}

#[test]
fn word_with_the_placeholder_is_never_won() {
    let word = "a_b".to_string();
    let mut game = Game::new(&word);
    assert_eq!(play(&mut game, "a_b"), vec![GuessOutcome::Correct; 3]);
    assert_eq!(game.correct_guesses, vec!['a', '_', 'b']);
    assert_eq!(game.check_status(), RoundStatus::InProgress);
    assert!(!game.win);
    assert!(game.is_valid());
}

#[test]
fn snapshot_copies_the_round() {
    let word = "test".to_string();
    let mut game = Game::new(&word);
    play(&mut game, "txe");
    let shot = game.snapshot();
    assert_eq!(shot.reveal_buffer, vec!['t', 'e', '_', 't']);
    assert_eq!(shot.attempted_letters, vec!['t', 'x', 'e']);
    assert_eq!(shot.wrong_count, 1);
    assert_eq!(shot.stage_index, 1);
}

#[test]
fn stage_index_stops_at_the_last_stage() {
    let word = "ab".to_string();
    let mut game = Game::new(&word);
    assert_eq!(game.snapshot().stage_index, 0);
    for (n, c) in "qrstuvwxyz".chars().enumerate() {
        game.guess(&c);
        let shot = game.snapshot();
        assert_eq!(shot.wrong_count as usize, n + 1);
        assert_eq!(shot.stage_index, (n + 1).min(STAGE_COUNT - 1));
        assert!(shot.stage_index < STAGE_COUNT);
    }
    assert_eq!(game.snapshot().stage_index, 6);
    assert_eq!(STAGE_COUNT, 7);
    assert_eq!(WRONG_GUESS_LIMIT, 6);
}

#[test]
fn is_valid_tells_games_filled_in_by_hand() {
    let word = "test".to_string();
    let good = Game {
        word: &word,
        win: false,
        guesses: vec!['t', 'x'],
        guess_count: 2,
        wrong_count: 1,
        correct_guesses: vec!['t', '_', '_', 't'],
    };
    assert!(good.is_valid());
    let repeated = Game { guesses: vec!['t', 't'], ..Game::new(&word) };
    assert!(!repeated.is_valid());
    let miscounted = Game { guess_count: 3, ..Game::new(&word) };
    assert!(!miscounted.is_valid());
    let negative = Game { guess_count: -1, ..Game::new(&word) };
    assert!(!negative.is_valid());
    let wrong_off = Game { wrong_count: 1, ..Game::new(&word) };
    assert!(!wrong_off.is_valid());
    let short = Game { correct_guesses: vec!['_', '_', '_'], ..Game::new(&word) };
    assert!(!short.is_valid());
    let long = Game { correct_guesses: vec!['_'; 5], ..Game::new(&word) };
    assert!(!long.is_valid());
    let shown = Game { correct_guesses: vec!['t', '_', '_', 't'], ..Game::new(&word) };
    assert!(!shown.is_valid());
    let early_win = Game { win: true, ..Game::new(&word) };
    assert!(!early_win.is_valid());
    let done = Game {
        word: &word,
        win: true,
        guesses: vec!['s', 'e', 't'],
        guess_count: 3,
        wrong_count: 0,
        correct_guesses: vec!['t', 'e', 's', 't'],
    };
    assert!(done.is_valid());
}
