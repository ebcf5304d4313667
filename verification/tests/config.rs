use hangman::config::{Config, TOO_MANY_ARGUMENTS};

fn args(list: &[&str]) -> Vec<String> {
    list.iter().map(|s| s.to_string()).collect()
}

#[test]
fn no_argument_means_no_file() {
    let config = Config::new(&args(&["hangman"])).unwrap();
    assert_eq!(config.filename, None);
    let config = Config::new(&args(&[])).unwrap();
    assert_eq!(config.filename, None);
}

#[test]
fn one_argument_names_the_file() {
    let config = Config::new(&args(&["hangman", "words.csv"])).unwrap();
    assert_eq!(config.filename, Some("words.csv".to_string()));
}

#[test]
fn more_arguments_are_refused() {
    let result = Config::new(&args(&["hangman", "a", "b"]));
    assert_eq!(result.err(), Some("Too many arguments. Only 1 optional argument is used."));
    let result = Config::new(&args(&["hangman", "a", "b", "c"]));
    assert_eq!(result.err(), Some(TOO_MANY_ARGUMENTS));
}
