//! The session: what the player's lines mean, what a turn does to the round,
//! and the figures over the rounds played.

use crate::game_logic::{lemma_valid_round_bounds, Game, GuessOutcome, Round};
use crate::text::{letters_of, lowercase, lowercased, texts_equal, trim, trimmed};
use vstd::prelude::*;

verus! {

/// The word that ends the session.
pub const QUIT: &'static str = "quit";

/// The word that asks for another round.
pub const YES: &'static str = "yes";

/// The word that declines another round.
pub const NO: &'static str = "no";

/// What a line typed during a round asks for.
#[derive(Debug, Clone, Copy, PartialEq, Eq, Structural)]
pub enum Command {
    /// Leave the session.
    Quit,
    /// Nothing that the game understands.
    Invalid,
    /// Submit this letter.
    Guess(char),
}

/// The answer to the question whether to play another round.
#[derive(Debug, Clone, Copy, PartialEq, Eq, Structural)]
pub enum ReplayAnswer {
    Yes,
    No,
    Unclear,
}

/// What a turn came to.
#[derive(Debug, Clone, Copy, PartialEq, Eq, Structural)]
pub enum Turn {
    /// The player leaves; the round is as it was.
    Quit,
    /// The line was not understood; the round is as it was.
    Rejected,
    /// A letter was submitted, with this outcome.
    Guessed(GuessOutcome),
}

/// The normal form of a line: in lower case, without the white space at
/// either end.
pub open spec fn normal_form(line: Seq<char>) -> Seq<char> {
    trimmed(lowercased(line))
}

/// What a line asks for, given the line as typed and its normal form. The
/// normal form `quit` leaves. A normal form of a single character of one
/// byte submits a letter: the first character of the line as it was typed.
/// Anything else is invalid.
pub open spec fn command_of(line: Seq<char>, normalized: Seq<char>) -> Command {
    if normalized == QUIT@ {
        Command::Quit
    } else if normalized.len() == 1 && (normalized[0] as u32) < 0x80 && line.len() > 0 {
        Command::Guess(line[0])
    } else {
        Command::Invalid
    }
}

/// What an answer in normal form says about another round.
pub open spec fn replay_answer_of(normalized: Seq<char>) -> ReplayAnswer {
    if normalized == YES@ {
        ReplayAnswer::Yes
    } else if normalized == NO@ {
        ReplayAnswer::No
    } else {
        ReplayAnswer::Unclear
    }
}

/// What carrying out a command reports.
pub open spec fn turn_of(round: Round, command: Command) -> Turn {
    match command {
        Command::Quit => Turn::Quit,
        Command::Invalid => Turn::Rejected,
        Command::Guess(letter) => Turn::Guessed(round.outcome(letter)),
    }
}

/// The round after a command has been carried out.
pub open spec fn round_after(round: Round, command: Command) -> Round {
    match command {
        Command::Guess(letter) => round.after_guess(letter),
        _ => round,
    }
}

/// Brings a line into its normal form.
pub fn normalize(line: &str) -> (normalized: String)
    ensures
        normalized@ == normal_form(line@),
{
    let lower = lowercase(line);
    trim(lower.as_str()).to_owned()
}

/// Reads a command off a line and its normal form.
pub fn interpret_command(line: &str, normalized: &str) -> (command: Command)
    ensures
        command == command_of(line@, normalized@),
{
    if texts_equal(normalized, QUIT) {
        return Command::Quit;
    }
    let letters = letters_of(normalized);
    if letters.len() == 1 && (letters[0] as u32) < 0x80 {
        let typed = letters_of(line);
        if typed.len() > 0 {
            return Command::Guess(typed[0]);
        }
    }
    Command::Invalid
}

/// Reads a command off a line as the player typed it.
pub fn parse_command(line: &str) -> (command: Command)
    ensures
        command == command_of(line@, normal_form(line@)),
{
    let normalized = normalize(line);
    interpret_command(line, normalized.as_str())
}

/// Reads the answer to the replay question off its normal form.
pub fn interpret_replay_answer(normalized: &str) -> (answer: ReplayAnswer)
    ensures
        answer == replay_answer_of(normalized@),
{
    if texts_equal(normalized, YES) {
        ReplayAnswer::Yes
    } else if texts_equal(normalized, NO) {
        ReplayAnswer::No
    } else {
        ReplayAnswer::Unclear
    }
}

/// Reads the answer to the replay question off a line as the player typed it.
pub fn parse_replay_answer(line: &str) -> (answer: ReplayAnswer)
    ensures
        answer == replay_answer_of(normal_form(line@)),
{
    let normalized = normalize(line);
    interpret_replay_answer(normalized.as_str())
}

/// Carries out a command on the round: a guess is submitted, anything else
/// leaves the round as it was.
pub fn play_command(game: &mut Game, command: Command) -> (turn: Turn)
    requires
        old(game).wf(),
    ensures
        turn == turn_of(old(game)@, command),
        final(game)@ == round_after(old(game)@, command),
        final(game).word == old(game).word,
        final(game).wf(),
{
    match command {
        Command::Quit => Turn::Quit,
        Command::Invalid => Turn::Rejected,
        Command::Guess(letter) => Turn::Guessed(game.guess(&letter)),
    }
}

/// Takes the player's line for one turn of the round.
pub fn take_turn(game: &mut Game, line: &str) -> (turn: Turn)
    requires
        old(game).wf(),
    ensures
        turn == turn_of(old(game)@, command_of(line@, normal_form(line@))),
        final(game)@ == round_after(old(game)@, command_of(line@, normal_form(line@))),
        final(game).word == old(game).word,
        final(game).wf(),
{
    let command = parse_command(line);
    play_command(game, command)
}

/// The number of games with a recorded win.
pub open spec fn wins_in<'a>(games: Seq<Game<'a>>) -> int
    decreases games.len(),
{
    if games.len() == 0 {
        0
    } else {
        wins_in(games.drop_last()) + if games.last().win {
            1int
        } else {
            0int
        }
    }
}

/// The sum of the guess counts of the games.
pub open spec fn guesses_in<'a>(games: Seq<Game<'a>>) -> int
    decreases games.len(),
{
    if games.len() == 0 {
        0
    } else {
        guesses_in(games.drop_last()) + games.last().guess_count
    }
}

/// The sum of the wrong counts of the games.
pub open spec fn wrong_in<'a>(games: Seq<Game<'a>>) -> int
    decreases games.len(),
{
    if games.len() == 0 {
        0
    } else {
        wrong_in(games.drop_last()) + games.last().wrong_count
    }
}

/// A fraction, kept as its two terms.
#[derive(Debug, Clone, Copy, PartialEq, Eq, Structural)]
pub struct Ratio {
    pub numerator: i128,
    pub denominator: i128,
}

/// The figures over the rounds of a session.
#[derive(Debug, Clone, Copy, PartialEq, Eq, Structural)]
pub struct EndGameStats {
    /// The number of rounds played.
    pub rounds: usize,
    /// The number of rounds won.
    pub wins: usize,
    /// The guesses of all rounds together.
    pub total_guesses: i128,
    /// The wrong guesses of all rounds together.
    pub total_wrong: i128,
}

impl EndGameStats {
    /// The validity of the figures: no more wins than rounds, and the wrong
    /// guesses among the guesses.
    pub open spec fn wf(&self) -> bool {
        &&& self.wins <= self.rounds
        &&& 0 <= self.total_wrong <= self.total_guesses
    }

    /// The share of rounds won: wins over rounds, and nothing where no
    /// round was played.
    pub fn win_rate(&self) -> (rate: Option<Ratio>)
        ensures
            rate == if self.rounds == 0 {
                None
            } else {
                Some((Ratio { numerator: self.wins as i128, denominator: self.rounds as i128 }))
            },
    {
        if self.rounds == 0 {
            None
        } else {
            Some(Ratio { numerator: self.wins as i128, denominator: self.rounds as i128 })
        }
    }

    /// The share of guesses that were right: the guesses less the wrong
    /// ones, over the guesses, and nothing where no guess was made.
    pub fn correct_rate(&self) -> (rate: Option<Ratio>)
        requires
            self.wf(),
        ensures
            rate == if self.total_guesses == 0 {
                None
            } else {
                Some(
                    (Ratio {
                        numerator: (self.total_guesses - self.total_wrong) as i128,
                        denominator: self.total_guesses,
                    }),
                )
            },
    {
        if self.total_guesses == 0 {
            None
        } else {
            Some(
                Ratio {
                    numerator: self.total_guesses - self.total_wrong,
                    denominator: self.total_guesses,
                },
            )
        }
    }
}

/// Adds up the rounds of a session.
pub fn summarize(games: &Vec<Game>) -> (stats: EndGameStats)
    ensures
        stats.rounds == games@.len(),
        stats.wins == wins_in(games@),
        stats.total_guesses == guesses_in(games@),
        stats.total_wrong == wrong_in(games@),
        (forall|i: int| 0 <= i < games@.len() ==> (#[trigger] games@[i]).wf()) ==> stats.wf(),
{
    let mut wins: usize = 0;
    let mut total_guesses: i128 = 0;
    let mut total_wrong: i128 = 0;
    let mut i: usize = 0;
    while i < games.len()
        invariant
            i <= games.len(),
            wins == wins_in(games@.take(i as int)),
            wins <= i,
            total_guesses == guesses_in(games@.take(i as int)),
            total_wrong == wrong_in(games@.take(i as int)),
            -0x8000_0000 * i <= total_guesses <= 0x8000_0000 * i,
            -0x8000_0000 * i <= total_wrong <= 0x8000_0000 * i,
            (forall|j: int| 0 <= j < i ==> (#[trigger] games@[j]).wf()) ==> 0 <= total_wrong
                <= total_guesses,
        decreases games.len() - i,
    {
        proof {
            assert(games@.take(i + 1).drop_last() =~= games@.take(i as int));
            if games@[i as int].wf() {
                lemma_valid_round_bounds(games@[i as int]@);
            }
        }
        if games[i].win {
            wins += 1;
        }
        total_guesses = total_guesses + games[i].guess_count as i128;
        total_wrong = total_wrong + games[i].wrong_count as i128;
        i += 1;
    }
    assert(games@.take(i as int) =~= games@);
    EndGameStats { rounds: games.len(), wins, total_guesses, total_wrong }
}

} // verus!
