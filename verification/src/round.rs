//! One round of the game: up to six accepted guesses at a hidden answer.
//!
//! The round is a state machine. Each line the player types is handed to
//! [`Round::submit`], which refuses it (the game prints `INVALID`) or scores
//! it and says what to print. The round is over when a guess wins or after
//! the sixth accepted guess.
use vstd::prelude::*;
use vstd::utf8::encode_utf8;
use crate::counts::{WordCounts, count_of};
use crate::difficult::{difficult_check, difficult_ok};
use crate::keyboard::{Keyboard, keyboard_after};
use crate::score::{Color, color_char, color_letter, score_guess, score_spec};
use crate::text::{chars_of, contains_word, spec_uppercase, uppercase};

verus! {

/// Number of accepted guesses a round allows.
pub const MAX_GUESSES: u32 = 6;

/// The line printed for a scored guess: the colours of its letters, a space,
/// then the colours of the 26 letters of the alphabet.
pub open spec fn result_line(colors: Seq<Color>, keys: Seq<Color>) -> Seq<char> {
    colors.map_values(|c: Color| color_char(c)) + seq![' '] + keys.map_values(
        |c: Color| color_char(c),
    )
}

/// The number of bytes of the UTF-8 encoding of `s`, as `str::len` gives it.
pub open spec fn byte_len(s: Seq<char>) -> usize {
    encode_utf8(s).len() as usize
}

/// A result line wins when its first five characters are all `G`.
pub open spec fn is_win_line(line: Seq<char>) -> bool {
    line.len() >= 5 && forall|i: int| 0 <= i < 5 ==> line[i] == 'G'
}

/// What a round has seen so far.
pub struct RoundView {
    pub answer: Seq<char>,
    pub difficult: bool,
    pub attempts: nat,
    pub won: bool,
    /// Accepted guesses, in upper case.
    pub guesses: Seq<Seq<char>>,
    /// The previous accepted guess (empty before the first).
    pub last: Seq<char>,
    /// The first five characters of the previous result line.
    pub last_result: Seq<char>,
    pub keyboard: Seq<Color>,
    /// How often each word was guessed, this round and before.
    pub counts: Map<Seq<char>, int>,
}

/// The round refuses `input` unless it has as many bytes as the answer, obeys
/// difficult mode when that is on, and is one of the acceptable words.
pub open spec fn accepts(v: RoundView, input: Seq<char>, acceptable: Seq<Seq<char>>) -> bool {
    &&& byte_len(input) == byte_len(v.answer)
    &&& (v.difficult ==> difficult_ok(v.last, input, v.last_result))
    &&& acceptable.contains(input)
}

/// The colours of an accepted guess.
pub open spec fn guess_colors(v: RoundView, input: Seq<char>) -> Seq<Color> {
    score_spec(v.answer, input)
}

/// The keyboard after an accepted guess.
pub open spec fn guess_keyboard(v: RoundView, input: Seq<char>) -> Seq<Color> {
    keyboard_after(97, v.keyboard, input, guess_colors(v, input))
}

/// The line printed for an accepted guess.
pub open spec fn guess_line(v: RoundView, input: Seq<char>) -> Seq<char> {
    result_line(guess_colors(v, input), guess_keyboard(v, input))
}

/// The round after the accepted guess `input`.
pub open spec fn after_guess(v: RoundView, input: Seq<char>) -> RoundView {
    RoundView {
        answer: v.answer,
        difficult: v.difficult,
        attempts: v.attempts + 1,
        won: is_win_line(guess_line(v, input)),
        guesses: v.guesses.push(spec_uppercase(input)),
        last: input,
        last_result: guess_line(v, input).take(5),
        keyboard: guess_keyboard(v, input),
        counts: v.counts.insert(input, count_of(v.counts, input) + 1),
    }
}

/// The round is over.
pub open spec fn over(v: RoundView) -> bool {
    v.won || v.attempts >= 6
}

/// What the game prints for one input line.
pub enum Feedback {
    /// The input was refused and the round is unchanged.
    Invalid,
    /// The input was accepted: the colours of its letters and the result line.
    Scored { colors: Vec<Color>, line: Vec<char> },
}

/// One round in progress.
pub struct Round {
    answer: Vec<char>,
    answer_bytes: usize,
    difficult: bool,
    attempts: u32,
    won: bool,
    guesses: Vec<String>,
    last: Vec<char>,
    last_result: Vec<char>,
    keyboard: Keyboard,
    counts: WordCounts,
}

impl View for Round {
    type V = RoundView;

    closed spec fn view(&self) -> RoundView {
        RoundView {
            answer: self.answer@,
            difficult: self.difficult,
            attempts: self.attempts as nat,
            won: self.won,
            guesses: self.guesses@.map_values(|g: String| g@),
            last: self.last@,
            last_result: self.last_result@,
            keyboard: self.keyboard@,
            counts: self.counts@,
        }
    }
}

impl Round {
    /// The round's fields agree with one another.
    pub closed spec fn wf(&self) -> bool {
        &&& self.answer_bytes == encode_utf8(self.answer@).len() as usize
        &&& self.keyboard.wf()
        &&& self.keyboard.base() == 97
        &&& self.counts.wf()
        &&& self.attempts <= 6
        &&& self.guesses.len() == self.attempts
    }

    /// A new round for `answer`; `counts` are the uses of words so far.
    pub fn new(answer: &String, difficult: bool, counts: WordCounts) -> (r: Round)
        requires
            counts.wf(),
        ensures
            r.wf(),
            r@ == (RoundView {
                answer: answer@,
                difficult,
                attempts: 0,
                won: false,
                guesses: Seq::empty(),
                last: Seq::empty(),
                last_result: Seq::empty(),
                keyboard: Seq::new(26, |k: int| Color::Unknown),
                counts: counts@,
            }),
    {
        let r = Round {
            answer: chars_of(answer.as_str()),
            answer_bytes: answer.as_str().len(),
            difficult,
            attempts: 0,
            won: false,
            guesses: Vec::new(),
            last: Vec::new(),
            last_result: Vec::new(),
            keyboard: Keyboard::lowercase(),
            counts,
        };
        assert(r@.guesses =~= Seq::<Seq<char>>::empty());
        r
    }

    /// Whether the round is over.
    pub fn is_over(&self) -> (r: bool)
        requires
            self.wf(),
        ensures
            r == over(self@),
    {
        self.won || self.attempts >= MAX_GUESSES
    }

    /// How often `w` has been guessed.
    pub fn count_of(&self, w: &String) -> (r: i32)
        requires
            self.wf(),
        ensures
            r == count_of(self@.counts, w@),
    {
        self.counts.get(w)
    }

    /// Whether the round would accept `input` (see [`accepts`]).
    pub fn accepts_input(&self, input: &String, acceptable: &Vec<String>) -> (r: bool)
        requires
            self.wf(),
        ensures
            r == accepts(self@, input@, acceptable@.map_values(|x: String| x@)),
    {
        let in_chars = chars_of(input.as_str());
        input.as_str().len() == self.answer_bytes && (!self.difficult || difficult_check(
            &self.last,
            &in_chars,
            &self.last_result,
        )) && contains_word(acceptable, input)
    }

    /// Handles one input line (without its line break).
    pub fn submit(&mut self, input: &String, acceptable: &Vec<String>) -> (r: Feedback)
        requires
            old(self).wf(),
            !over(old(self)@),
            accepts(old(self)@, input@, acceptable@.map_values(|x: String| x@)) ==> count_of(
                old(self)@.counts,
                input@,
            ) < i32::MAX,
        ensures
            final(self).wf(),
            accepts(old(self)@, input@, acceptable@.map_values(|x: String| x@)) ==> {
                &&& final(self)@ == after_guess(old(self)@, input@)
                &&& r matches Feedback::Scored { colors, line } && colors@ == guess_colors(
                    old(self)@,
                    input@,
                ) && line@ == guess_line(old(self)@, input@)
            },
            !accepts(old(self)@, input@, acceptable@.map_values(|x: String| x@)) ==> {
                &&& final(self)@ == old(self)@
                &&& r is Invalid
            },
    {
        let in_chars = chars_of(input.as_str());
        if input.as_str().len() != self.answer_bytes {
            return Feedback::Invalid;
        }
        if self.difficult && !difficult_check(&self.last, &in_chars, &self.last_result) {
            return Feedback::Invalid;
        }
        if !contains_word(acceptable, input) {
            return Feedback::Invalid;
        }
        let ghost before = self@;
        self.counts.increment(input);
        self.guesses.push(uppercase(input.as_str()));
        let colors = score_guess(&self.answer, &in_chars);
        self.keyboard.record(&in_chars, &colors);
        let line = result_line_of(&colors, &self.keyboard);
        let mut first: Vec<char> = Vec::new();
        let mut i: usize = 0;
        while i < 5
            invariant
                i <= 5,
                line.len() >= 27,
                first@ == line@.take(i as int),
            decreases 5 - i,
        {
            first.push(line[i]);
            i = i + 1;
            assert(first@ =~= line@.take(i as int));
        }
        self.won = line_wins(&line);
        self.last = in_chars;
        self.last_result = first;
        self.attempts = self.attempts + 1;
        assert(self@.guesses =~= before.guesses.push(spec_uppercase(input@)));
        assert(self@ == after_guess(before, input@));
        Feedback::Scored { colors, line }
    }

    /// How the round ended: the number of guesses it took when won, else 0;
    /// the accepted guesses in upper case; the word counts.
    pub fn finish(self) -> (r: (i32, Vec<String>, WordCounts))
        requires
            self.wf(),
        ensures
            r.0 == (if self@.won {
                self@.attempts as int
            } else {
                0
            }),
            r.1@.map_values(|g: String| g@) == self@.guesses,
            r.2.wf(),
            r.2@ == self@.counts,
    {
        let n: i32 = if self.won {
            self.attempts as i32
        } else {
            0
        };
        (n, self.guesses, self.counts)
    }

    /// The keyboard after the guesses so far.
    pub fn keyboard(&self) -> (r: &Keyboard)
        requires
            self.wf(),
        ensures
            r.wf(),
            r@ == self@.keyboard,
            r.base() == 97,
    {
        &self.keyboard
    }
}

/// The result line for `colors` and the keyboard `keys`.
pub fn result_line_of(colors: &Vec<Color>, keys: &Keyboard) -> (r: Vec<char>)
    requires
        keys.wf(),
    ensures
        r@ == result_line(colors@, keys@),
        r.len() == colors.len() + 27,
{
    let mut r: Vec<char> = Vec::new();
    let mut i: usize = 0;
    while i < colors.len()
        invariant
            i <= colors.len(),
            r@ == colors@.take(i as int).map_values(|c: Color| color_char(c)),
        decreases colors.len() - i,
    {
        r.push(color_letter(colors[i]));
        i = i + 1;
        assert(r@ =~= colors@.take(i as int).map_values(|c: Color| color_char(c)));
    }
    assert(colors@.take(colors.len() as int) =~= colors@);
    proof {
        keys.lemma_len();
    }
    r.push(' ');
    let mut letters = keys.letters();
    r.append(&mut letters);
    assert(r@ =~= result_line(colors@, keys@));
    r
}

/// Whether a result line wins.
pub fn line_wins(line: &Vec<char>) -> (r: bool)
    ensures
        r == is_win_line(line@),
{
    if line.len() < 5 {
        return false;
    }
    let mut i: usize = 0;
    while i < 5
        invariant
            i <= 5,
            line.len() >= 5,
            forall|j: int| 0 <= j < i ==> line@[j] == 'G',
        decreases 5 - i,
    {
        if line[i] != 'G' {
            return false;
        }
        i = i + 1;
    }
    true
}

} // verus!
