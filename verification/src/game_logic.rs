//! The round: one playthrough of the game, from the choice of the secret
//! word to the win or the loss.

use rand::seq::SliceRandom;
use vstd::prelude::*;
use vstd::relations::injective;
use vstd::set_lib::{lemma_int_range, lemma_len_subset, set_int_range};
use vstd::utf8::{char_is_scalar, char_u32_cast};

verus! {

/// What a slot of the reveal buffer shows while its letter is not yet guessed.
pub const PLACEHOLDER: char = '_';

/// The number of failure stages that a round can show, the first being the
/// one without any wrong guess.
pub const STAGE_COUNT: usize = 7;

/// The number of wrong guesses at which an unfinished round is lost: the
/// index of the last failure stage.
pub const WRONG_GUESS_LIMIT: i32 = 6;

/// The largest number of letters that a sequence without repeats can hold:
/// the number of code points up to the last one.
pub const LETTER_LIMIT: i32 = 0x11_0000;

/// The complaint about an empty word list.
pub const EMPTY_WORD_LIST: &'static str =
    "Game was not given any possible words to choose from. Check file given.";

/// The failure of starting a round on an empty word list.
#[derive(Debug, Clone, Copy, PartialEq, Eq, Structural)]
pub struct EmptyWordListError;

impl EmptyWordListError {
    /// The complaint in words.
    pub fn message(&self) -> (text: &'static str)
        ensures
            text == EMPTY_WORD_LIST,
    {
        EMPTY_WORD_LIST
    }
}

/// What became of a submitted letter.
#[derive(Debug, Clone, Copy, PartialEq, Eq, Structural)]
pub enum GuessOutcome {
    /// The letter had been submitted before; nothing changed.
    AlreadyTried,
    /// The letter occurs in the secret word.
    Correct,
    /// The letter does not occur in the secret word.
    Incorrect,
}

/// Where a round stands.
#[derive(Debug, Clone, Copy, PartialEq, Eq, Structural)]
pub enum RoundStatus {
    InProgress,
    Won,
    Lost,
}

/// The reveal buffer of a round in which nothing was guessed yet.
pub open spec fn concealed(len: nat) -> Seq<char> {
    Seq::new(len, |i: int| PLACEHOLDER)
}

/// The reveal buffer that belongs to a word and the letters tried so far:
/// each position shows its letter if that letter was tried, and the
/// placeholder otherwise.
pub open spec fn revealed(word: Seq<char>, tried: Seq<char>) -> Seq<char> {
    Seq::new(
        word.len(),
        |i: int|
            if tried.contains(word[i]) {
                word[i]
            } else {
                PLACEHOLDER
            },
    )
}

/// The buffer after `letter` has been shown at every position of `word`
/// that holds it; the other slots stay as they are.
pub open spec fn reveal_letter(word: Seq<char>, buffer: Seq<char>, letter: char) -> Seq<char> {
    Seq::new(
        buffer.len(),
        |i: int|
            if 0 <= i < word.len() && word[i] == letter {
                letter
            } else {
                buffer[i]
            },
    )
}

/// The test for a letter that occurs nowhere in `word`.
pub open spec fn absent_from(word: Seq<char>) -> spec_fn(char) -> bool {
    |c: char| !word.contains(c)
}

/// The number of tried letters that occur nowhere in `word`.
pub open spec fn misses(word: Seq<char>, tried: Seq<char>) -> nat {
    tried.filter(absent_from(word)).len()
}

/// A buffer without any placeholder left.
pub open spec fn fully_revealed(buffer: Seq<char>) -> bool {
    !buffer.contains(PLACEHOLDER)
}

/// The mathematical model of a round.
#[verifier::ext_equal]
pub struct Round {
    /// The word to find.
    pub secret_word: Seq<char>,
    /// Every letter submitted, in the order of submission.
    pub attempted_letters: Seq<char>,
    /// One slot for each position of the secret word.
    pub reveal_buffer: Seq<char>,
    /// The number of submitted letters that are not in the word.
    pub wrong_count: int,
    /// The number of submitted letters, repeats left out.
    pub guess_count: int,
    /// Whether the win has been recorded.
    pub won: bool,
}

impl Round {
    /// The round right after the choice of `word`.
    pub open spec fn fresh(word: Seq<char>) -> Round {
        Round {
            secret_word: word,
            attempted_letters: Seq::empty(),
            reveal_buffer: concealed(word.len()),
            wrong_count: 0,
            guess_count: 0,
            won: false,
        }
    }

    /// The invariant of a round: no letter is recorded twice, both counters
    /// and the reveal buffer are those of the letters tried, and a win is
    /// recorded only when no placeholder is left.
    pub open spec fn wf(self) -> bool {
        &&& self.attempted_letters.no_duplicates()
        &&& self.guess_count == self.attempted_letters.len()
        &&& self.wrong_count == misses(self.secret_word, self.attempted_letters)
        &&& self.reveal_buffer == revealed(self.secret_word, self.attempted_letters)
        &&& self.won ==> fully_revealed(self.reveal_buffer)
    }

    /// What submitting `letter` reports.
    pub open spec fn outcome(self, letter: char) -> GuessOutcome {
        if self.attempted_letters.contains(letter) {
            GuessOutcome::AlreadyTried
        } else if self.secret_word.contains(letter) {
            GuessOutcome::Correct
        } else {
            GuessOutcome::Incorrect
        }
    }

    /// The round after `letter` has been submitted. A letter tried before
    /// changes nothing. A new letter is recorded and counted, shown at every
    /// position of the word that holds it, and counted as wrong if there is
    /// no such position.
    pub open spec fn after_guess(self, letter: char) -> Round {
        if self.attempted_letters.contains(letter) {
            self
        } else {
            Round {
                attempted_letters: self.attempted_letters.push(letter),
                reveal_buffer: reveal_letter(self.secret_word, self.reveal_buffer, letter),
                wrong_count: if self.secret_word.contains(letter) {
                    self.wrong_count
                } else {
                    self.wrong_count + 1
                },
                guess_count: self.guess_count + 1,
                ..self
            }
        }
    }

    /// The round after the letters of `letters` have been submitted one
    /// after the other.
    pub open spec fn after_guesses(self, letters: Seq<char>) -> Round
        decreases letters.len(),
    {
        if letters.len() == 0 {
            self
        } else {
            self.after_guesses(letters.drop_last()).after_guess(letters.last())
        }
    }

    /// Where the round stands: won when no placeholder is left, else lost
    /// when the wrong guesses have reached the limit, else in progress.
    pub open spec fn status(self) -> RoundStatus {
        if fully_revealed(self.reveal_buffer) {
            RoundStatus::Won
        } else if self.wrong_count >= WRONG_GUESS_LIMIT {
            RoundStatus::Lost
        } else {
            RoundStatus::InProgress
        }
    }

    /// The round after its status has been checked: a win is recorded, and
    /// nothing else changes.
    pub open spec fn after_check(self) -> Round {
        Round { won: self.won || fully_revealed(self.reveal_buffer), ..self }
    }

    /// The failure stage to show.
    pub open spec fn stage_index(self) -> int {
        if self.wrong_count < STAGE_COUNT - 1 {
            self.wrong_count
        } else {
            STAGE_COUNT - 1
        }
    }
}

/// What a round shows: copies of the reveal buffer and of the letters tried,
/// the number of wrong guesses, and the failure stage that belongs to it.
#[derive(Debug, PartialEq, Eq)]
pub struct Snapshot {
    pub reveal_buffer: Vec<char>,
    pub attempted_letters: Vec<char>,
    pub wrong_count: i32,
    pub stage_index: usize,
}

/// One playthrough of the game.
#[derive(Debug)]
pub struct Game<'a> {
    /// The secret word.
    pub word: &'a String,
    /// Whether the win has been recorded.
    pub win: bool,
    /// Every letter submitted, in the order of submission.
    pub guesses: Vec<char>,
    /// The number of submitted letters, repeats left out.
    pub guess_count: i32,
    /// The number of submitted letters that are not in the word.
    pub wrong_count: i32,
    /// The reveal buffer: one slot for each position of the secret word.
    pub correct_guesses: Vec<char>,
}

impl<'a> View for Game<'a> {
    type V = Round;

    open spec fn view(&self) -> Round {
        Round {
            secret_word: self.word@,
            attempted_letters: self.guesses@,
            reveal_buffer: self.correct_guesses@,
            wrong_count: self.wrong_count as int,
            guess_count: self.guess_count as int,
            won: self.win,
        }
    }
}

impl<'a> Game<'a> {
    /// The validity of a game: that of the round it stands for.
    pub open spec fn wf(&self) -> bool {
        self@.wf()
    }

    /// Starts a round on the given secret word.
    pub fn new(word: &'a String) -> (game: Game<'a>)
        ensures
            game@ == Round::fresh(word@),
            game.word == word,
            game.wf(),
    {
        let mut correct_guesses: Vec<char> = Vec::new();
        for c in it: word.chars()
            invariant
                it.seq() == word@,
                correct_guesses@ == concealed(it.index() as nat),
        {
            correct_guesses.push(PLACEHOLDER);
        }
        let game = Game {
            word,
            win: false,
            guesses: Vec::new(),
            guess_count: 0,
            wrong_count: 0,
            correct_guesses,
        };
        proof {
            lemma_fresh_wf(word@);
        }
        game
    }

    /// Tests the validity of the game, for a caller who has filled in the
    /// fields by hand.
    pub fn is_valid(&self) -> (ok: bool)
        ensures
            ok == self.wf(),
    {
        if !has_no_repeats(&self.guesses) {
            return false;
        }
        if self.guess_count < 0 || self.guess_count as usize != self.guesses.len() {
            return false;
        }
        let missed = count_misses(self.word, &self.guesses);
        if self.wrong_count < 0 || self.wrong_count as usize != missed {
            return false;
        }
        if !shows_revealed(self.word, &self.guesses, &self.correct_guesses) {
            return false;
        }
        !(self.win && contains_letter(&self.correct_guesses, PLACEHOLDER))
    }

    /// Starts a round on a word picked at random from `possible_words`.
    /// An empty list is refused; otherwise the round is fresh and its word
    /// is one of the list.
    pub fn create_game(possible_words: &'a Vec<String>) -> (result: Result<
        Game<'a>,
        EmptyWordListError,
    >)
        ensures
            result is Err <==> possible_words@.len() == 0,
            result matches Ok(game) ==> {
                &&& possible_words@.contains(*game.word)
                &&& game@ == Round::fresh(game.word@)
                &&& game.wf()
            },
    {
        if possible_words.len() < 1 {
            return Err(EmptyWordListError);
        }
        match choose_word(possible_words) {
            Some(word) => Ok(Game::new(word)),
            None => Err(EmptyWordListError),
        }
    }

    /// Submits a letter. A letter tried before changes nothing; a new one
    /// is recorded, counted and shown wherever the word holds it. A round
    /// that is over does not refuse letters: it is for the caller to stop
    /// submitting once `check_status` has told the end.
    pub fn guess(&mut self, guess: &char) -> (outcome: GuessOutcome)
        requires
            old(self).wf(),
        ensures
            outcome == old(self)@.outcome(*guess),
            final(self)@ == old(self)@.after_guess(*guess),
            final(self).word == old(self).word,
            final(self).wf(),
            final(self).correct_guesses@ == reveal_letter(
                old(self).word@,
                old(self).correct_guesses@,
                *guess,
            ),
            final(self).guess_count >= old(self).guess_count,
            final(self).wrong_count >= old(self).wrong_count,
            final(self).win == old(self).win,
    {
        let letter = *guess;
        proof {
            lemma_guess_preserves_wf(self@, letter);
            lemma_valid_round_bounds(self@);
        }
        if contains_letter(&self.guesses, letter) {
            proof {
                lemma_reveal_known_letter(self@, letter);
            }
            return GuessOutcome::AlreadyTried;
        }
        let ghost before = self@;
        let word: &String = self.word;
        self.guess_count = self.guess_count + 1;
        self.guesses.push(letter);

        let slots = self.correct_guesses.len();
        let mut find = false;
        let mut idx: usize = 0;
        for c in it: word.chars()
            invariant
                it.seq() == word@,
                slots == word@.len(),
                idx == it.index(),
                self.word == word,
                self.win == before.won,
                self.guesses@ == before.attempted_letters.push(letter),
                self.guess_count == before.guess_count + 1,
                self.wrong_count == before.wrong_count,
                self.correct_guesses@.len() == word@.len(),
                before.reveal_buffer.len() == word@.len(),
                forall|j: int|
                    0 <= j < idx ==> self.correct_guesses@[j] == (if word@[j] == letter {
                        letter
                    } else {
                        before.reveal_buffer[j]
                    }),
                forall|j: int|
                    idx <= j < word@.len() ==> self.correct_guesses@[j] == before.reveal_buffer[j],
                find <==> exists|j: int| 0 <= j < idx && word@[j] == letter,
        {
            if c == letter {
                self.correct_guesses[idx] = letter;
                find = true;
            }
            idx += 1;
        }
        assert(find <==> word@.contains(letter));
        assert(self.correct_guesses@ =~= reveal_letter(word@, before.reveal_buffer, letter));
        if find {
            GuessOutcome::Correct
        } else {
            self.wrong_count = self.wrong_count + 1;
            GuessOutcome::Incorrect
        }
    }

    /// Says where the round stands, and records the win if there is one.
    pub fn check_status(&mut self) -> (status: RoundStatus)
        ensures
            status == old(self)@.status(),
            final(self)@ == old(self)@.after_check(),
            final(self).word == old(self).word,
            old(self).wf() ==> final(self).wf(),
            old(self).win ==> final(self).win,
    {
        if !contains_letter(&self.correct_guesses, PLACEHOLDER) {
            self.win = true;
            RoundStatus::Won
        } else if self.wrong_count >= WRONG_GUESS_LIMIT {
            RoundStatus::Lost
        } else {
            RoundStatus::InProgress
        }
    }

    /// Says whether the round is over, won or lost, and records the win if
    /// there is one.
    pub fn check_win(&mut self) -> (over: bool)
        ensures
            over == (old(self)@.status() != RoundStatus::InProgress),
            final(self)@ == old(self)@.after_check(),
            final(self).word == old(self).word,
            old(self).wf() ==> final(self).wf(),
            old(self).win ==> final(self).win,
    {
        match self.check_status() {
            RoundStatus::InProgress => false,
            RoundStatus::Won => true,
            RoundStatus::Lost => true,
        }
    }

    /// Copies out what is to be shown of the round.
    pub fn snapshot(&self) -> (shot: Snapshot)
        requires
            self.wf(),
        ensures
            shot.reveal_buffer@ == self.correct_guesses@,
            shot.attempted_letters@ == self.guesses@,
            shot.wrong_count == self.wrong_count,
            shot.stage_index == self@.stage_index(),
            shot.stage_index < STAGE_COUNT,
    {
        let stage_index: usize = if self.wrong_count < WRONG_GUESS_LIMIT {
            self.wrong_count as usize
        } else {
            STAGE_COUNT - 1
        };
        Snapshot {
            reveal_buffer: copy_letters(&self.correct_guesses),
            attempted_letters: copy_letters(&self.guesses),
            wrong_count: self.wrong_count,
            stage_index,
        }
    }
}

/// Picks one word of the list at random, by `rand::seq::SliceRandom::choose`
/// on the thread's generator. Assumed of it: it returns nothing exactly when
/// the list is empty, and what it returns is an element of the list. Which
/// element is left open.
#[verifier::external_body]
fn choose_word<'a>(words: &'a Vec<String>) -> (choice: Option<&'a String>)
    ensures
        choice is None <==> words@.len() == 0,
        choice matches Some(word) ==> words@.contains(*word),
{
    words.choose(&mut rand::thread_rng())
}

/// Whether `letter` occurs in `letters`.
fn contains_letter(letters: &Vec<char>, letter: char) -> (found: bool)
    ensures
        found == letters@.contains(letter),
{
    let mut i: usize = 0;
    while i < letters.len()
        invariant
            i <= letters.len(),
            forall|j: int| 0 <= j < i ==> letters@[j] != letter,
        decreases letters.len() - i,
    {
        if letters[i] == letter {
            return true;
        }
        i += 1;
    }
    false
}

/// Whether `letter` occurs in `word`.
fn word_contains(word: &String, letter: char) -> (found: bool)
    ensures
        found == word@.contains(letter),
{
    for c in it: word.chars()
        invariant
            it.seq() == word@,
            forall|j: int| 0 <= j < it.index() ==> word@[j] != letter,
    {
        if c == letter {
            return true;
        }
    }
    false
}

/// Whether no letter occurs twice in `letters`.
fn has_no_repeats(letters: &Vec<char>) -> (ok: bool)
    ensures
        ok == letters@.no_duplicates(),
{
    let mut i: usize = 0;
    while i < letters.len()
        invariant
            i <= letters.len(),
            forall|a: int, b: int| 0 <= a < b < i ==> letters@[a] != letters@[b],
        decreases letters.len() - i,
    {
        let mut j: usize = 0;
        while j < i
            invariant
                j <= i < letters.len(),
                forall|a: int| 0 <= a < j ==> letters@[a] != letters@[i as int],
            decreases i - j,
        {
            if letters[j] == letters[i] {
                return false;
            }
            j += 1;
        }
        i += 1;
    }
    true
}

/// The number of letters of `tried` that occur nowhere in `word`.
fn count_misses(word: &String, tried: &Vec<char>) -> (count: usize)
    ensures
        count == misses(word@, tried@),
{
    let mut count: usize = 0;
    let mut i: usize = 0;
    while i < tried.len()
        invariant
            i <= tried.len(),
            count == misses(word@, tried@.take(i as int)),
            count <= i,
        decreases tried.len() - i,
    {
        proof {
            tried@.take(i as int).lemma_filter_push(tried@[i as int], absent_from(word@));
            assert(tried@.take(i as int).push(tried@[i as int]) =~= tried@.take(i + 1));
        }
        if !word_contains(word, tried[i]) {
            count += 1;
        }
        i += 1;
    }
    assert(tried@.take(i as int) =~= tried@);
    count
}

/// Whether `buffer` is the reveal buffer of `word` and the letters `tried`.
fn shows_revealed(word: &String, tried: &Vec<char>, buffer: &Vec<char>) -> (ok: bool)
    ensures
        ok == (buffer@ == revealed(word@, tried@)),
{
    let mut idx: usize = 0;
    for c in it: word.chars()
        invariant
            it.seq() == word@,
            idx == it.index(),
            idx <= buffer.len(),
            forall|j: int| 0 <= j < idx ==> buffer@[j] == revealed(word@, tried@)[j],
    {
        if idx >= buffer.len() {
            return false;
        }
        let shown = if contains_letter(tried, c) {
            c
        } else {
            PLACEHOLDER
        };
        if buffer[idx] != shown {
            return false;
        }
        idx += 1;
    }
    if idx != buffer.len() {
        return false;
    }
    assert(buffer@ =~= revealed(word@, tried@));
    true
}

/// A copy of `letters`.
fn copy_letters(letters: &Vec<char>) -> (copy: Vec<char>)
    ensures
        copy@ == letters@,
{
    let mut copy: Vec<char> = Vec::new();
    let mut i: usize = 0;
    while i < letters.len()
        invariant
            i <= letters.len(),
            copy@ == letters@.take(i as int),
        decreases letters.len() - i,
    {
        copy.push(letters[i]);
        i += 1;
    }
    copy
}

/// A round that has just begun is valid.
pub proof fn lemma_fresh_wf(word: Seq<char>)
    ensures
        Round::fresh(word).wf(),
{
    let r = Round::fresh(word);
    reveal(Seq::filter);
    assert(r.attempted_letters.filter(absent_from(word)) =~= Seq::<char>::empty());
    assert(r.reveal_buffer =~= revealed(word, r.attempted_letters));
}

/// A sequence of letters without repeats is no longer than there are letters.
pub proof fn lemma_distinct_letters_bound(letters: Seq<char>)
    requires
        letters.no_duplicates(),
    ensures
        letters.len() <= LETTER_LIMIT,
{
    let code = |c: char| c as u32 as int;
    assert(injective(code)) by {
        assert forall|a: char, b: char| #[trigger] code(a) == #[trigger] code(b) implies a == b by {
            char_u32_cast(a, a as u32);
            char_u32_cast(b, b as u32);
        }
    }
    letters.lemma_no_duplicates_injective(code);
    let codes = letters.map_values(code);
    codes.unique_seq_to_set();
    lemma_int_range(0, LETTER_LIMIT as int);
    assert(codes.to_set().subset_of(set_int_range(0, LETTER_LIMIT as int))) by {
        assert forall|x: int| codes.to_set().contains(x) implies set_int_range(
            0,
            LETTER_LIMIT as int,
        ).contains(x) by {
            assert(codes.contains(x));
            let i = choose|i: int| 0 <= i < codes.len() && codes[i] == x;
            char_is_scalar(letters[i]);
        }
    }
    lemma_len_subset(codes.to_set(), set_int_range(0, LETTER_LIMIT as int));
}

/// In a valid round both counters lie between zero and the number of
/// letters there are, and the wrong guesses are among the guesses.
pub proof fn lemma_valid_round_bounds(round: Round)
    requires
        round.wf(),
    ensures
        0 <= round.wrong_count <= round.guess_count <= LETTER_LIMIT,
        round.reveal_buffer.len() == round.secret_word.len(),
{
    lemma_distinct_letters_bound(round.attempted_letters);
    round.attempted_letters.lemma_filter_len(absent_from(round.secret_word));
}

/// In a valid round, showing a letter that was tried before changes nothing.
pub proof fn lemma_reveal_known_letter(round: Round, letter: char)
    requires
        round.wf(),
        round.attempted_letters.contains(letter),
    ensures
        reveal_letter(round.secret_word, round.reveal_buffer, letter) == round.reveal_buffer,
{
    assert(reveal_letter(round.secret_word, round.reveal_buffer, letter)
        =~= round.reveal_buffer);
}

/// Submitting a letter to a valid round leaves a valid round.
pub proof fn lemma_guess_preserves_wf(round: Round, letter: char)
    requires
        round.wf(),
    ensures
        round.after_guess(letter).wf(),
{
    let word = round.secret_word;
    let tried = round.attempted_letters;
    let next = round.after_guess(letter);
    if !tried.contains(letter) {
        let more = tried.push(letter);
        assert(more.no_duplicates());
        tried.lemma_filter_push(letter, absent_from(word));
        assert forall|c: char| more.contains(c) <==> (tried.contains(c) || c == letter) by {
            if tried.contains(c) {
                let i = choose|i: int| 0 <= i < tried.len() && tried[i] == c;
                assert(more[i] == c);
            }
            if c == letter {
                assert(more[tried.len() as int] == c);
            }
        }
        assert(next.reveal_buffer =~= revealed(word, more));
        if round.won {
            assert forall|i: int| 0 <= i < word.len() implies word[i] != letter by {
                assert(round.reveal_buffer[i] != PLACEHOLDER);
            }
            assert(next.reveal_buffer =~= round.reveal_buffer);
        }
    }
}

/// Checking the status of a valid round leaves a valid round, in which the
/// win is recorded exactly when no placeholder is left.
pub proof fn law_check_records_the_win(round: Round)
    requires
        round.wf(),
    ensures
        round.after_check().wf(),
        round.after_check().won <==> fully_revealed(round.reveal_buffer),
        round.after_check().won <==> round.status() == RoundStatus::Won,
{
}

/// Submitting letters one after the other to a valid round leaves a valid
/// round.
pub proof fn law_guesses_keep_round_valid(round: Round, letters: Seq<char>)
    requires
        round.wf(),
    ensures
        round.after_guesses(letters).wf(),
    decreases letters.len(),
{
    if letters.len() > 0 {
        law_guesses_keep_round_valid(round, letters.drop_last());
        lemma_guess_preserves_wf(round.after_guesses(letters.drop_last()), letters.last());
    }
}

/// Submitting a letter a second time is reported as a repeat and changes
/// nothing: the counters, the reveal buffer and all the rest are as the
/// first submission left them.
pub proof fn law_repeated_guess_changes_nothing(round: Round, letter: char)
    ensures
        round.after_guess(letter).outcome(letter) == GuessOutcome::AlreadyTried,
        round.after_guess(letter).after_guess(letter) == round.after_guess(letter),
{
    let tried = round.attempted_letters;
    if !tried.contains(letter) {
        assert(tried.push(letter)[tried.len() as int] == letter);
    }
}

/// After a letter has been submitted to a valid round, every position of
/// the word that holds the letter shows it, and every other slot of the
/// reveal buffer is as it was.
pub proof fn law_guess_reveals_its_letter(round: Round, letter: char)
    requires
        round.wf(),
    ensures
        round.after_guess(letter).reveal_buffer.len() == round.secret_word.len(),
        forall|i: int|
            0 <= i < round.secret_word.len() ==> #[trigger] round.after_guess(
                letter,
            ).reveal_buffer[i] == (if round.secret_word[i] == letter {
                letter
            } else {
                round.reveal_buffer[i]
            }),
{
    if round.attempted_letters.contains(letter) {
        lemma_reveal_known_letter(round, letter);
    }
}

/// Neither counter ever decreases and a recorded win is never taken back,
/// whether a letter is submitted or the status is checked.
pub proof fn law_progress_never_reverts(round: Round, letter: char)
    ensures
        round.after_guess(letter).wrong_count >= round.wrong_count,
        round.after_guess(letter).guess_count >= round.guess_count,
        round.won ==> round.after_guess(letter).won,
        round.after_check().wrong_count == round.wrong_count,
        round.after_check().guess_count == round.guess_count,
        round.won ==> round.after_check().won,
{
}

/// In a valid round whose reveal buffer holds no placeholder, the buffer
/// spells the secret word, the status is a win, and checking records it.
pub proof fn law_full_reveal_wins(round: Round)
    requires
        round.wf(),
        fully_revealed(round.reveal_buffer),
    ensures
        round.reveal_buffer == round.secret_word,
        round.status() == RoundStatus::Won,
        round.after_check().won,
{
    assert forall|i: int| 0 <= i < round.secret_word.len() implies round.reveal_buffer[i]
        == round.secret_word[i] by {
        assert(round.reveal_buffer[i] != PLACEHOLDER);
    }
    assert(round.reveal_buffer =~= round.secret_word);
}

/// In a valid round on a word without the placeholder character, once
/// every letter of the word has been tried no placeholder is left: the
/// round is won and the buffer spells the word.
pub proof fn law_all_letters_found_wins(round: Round)
    requires
        round.wf(),
        !round.secret_word.contains(PLACEHOLDER),
        forall|i: int|
            0 <= i < round.secret_word.len() ==> round.attempted_letters.contains(
                #[trigger] round.secret_word[i],
            ),
    ensures
        fully_revealed(round.reveal_buffer),
        round.reveal_buffer == round.secret_word,
        round.status() == RoundStatus::Won,
{
    assert(round.reveal_buffer =~= round.secret_word);
}

/// Starting on a word of at least one letter and submitting distinct letters
/// none of which is in the word: every one of them counts as wrong, the
/// reveal buffer stays concealed, and the round is lost exactly from the
/// submission on at which the wrong guesses reach the limit.
pub proof fn law_misses_lead_to_loss(word: Seq<char>, letters: Seq<char>)
    requires
        word.len() > 0,
        letters.no_duplicates(),
        forall|i: int| 0 <= i < letters.len() ==> !word.contains(#[trigger] letters[i]),
    ensures
        Round::fresh(word).after_guesses(letters).secret_word == word,
        Round::fresh(word).after_guesses(letters).attempted_letters == letters,
        Round::fresh(word).after_guesses(letters).wrong_count == letters.len(),
        Round::fresh(word).after_guesses(letters).guess_count == letters.len(),
        Round::fresh(word).after_guesses(letters).reveal_buffer == concealed(word.len()),
        Round::fresh(word).after_guesses(letters).status() == if letters.len()
            >= WRONG_GUESS_LIMIT {
            RoundStatus::Lost
        } else {
            RoundStatus::InProgress
        },
    decreases letters.len(),
{
    let end = Round::fresh(word).after_guesses(letters);
    if letters.len() > 0 {
        let before = letters.drop_last();
        let last = letters.last();
        law_misses_lead_to_loss(word, before);
        let mid = Round::fresh(word).after_guesses(before);
        assert(!before.contains(last)) by {
            if before.contains(last) {
                let i = choose|i: int| 0 <= i < before.len() && before[i] == last;
                assert(letters[i] == letters[letters.len() - 1]);
            }
        }
        assert(before.push(last) =~= letters);
        assert(!word.contains(letters[letters.len() - 1]));
        assert(end == mid.after_guess(last));
        assert forall|i: int| 0 <= i < word.len() implies word[i] != last by {
            if word[i] == last {
                assert(word.contains(last));
            }
        }
        assert(end.reveal_buffer =~= concealed(word.len()));
    } else {
        assert(end.attempted_letters =~= letters);
    }
    assert(end.reveal_buffer[0] == PLACEHOLDER);
}

} // verus!
