//! Properties of scoring, of the keyboard and of a round.
use vstd::prelude::*;
use crate::difficult::difficult_ok;
use crate::keyboard::{best_for, key_of, keyboard_after, on_keyboard};
use crate::stats::{SavedGame, guess_total, saved_won, won_guess_total, won_total, sum_of, tally_over, wins_in};
use crate::text::spec_uppercase;
use crate::app::{Effect, Model, Msg, ROWS, day_or_default, seed_or_default, updated};
use crate::settings::{Reply, SettingsDialog, Step, answered};
use crate::parse::{spelled_number, trimmed};
use crate::round::{RoundView, after_guess, guess_line, is_win_line, result_line, guess_colors};
use crate::score::{
    Color, best, color_at, color_char, count_in, green_count, is_green, miss_count, occurrences,
    rank, score_spec,
};

verus! {

/// Number of positions `j < n` of `guess` that hold `c` and are marked
/// (green or yellow).
pub open spec fn marked_count(answer: Seq<char>, guess: Seq<char>, c: char, n: int) -> nat
    decreases n,
{
    if n <= 0 {
        0
    } else {
        marked_count(answer, guess, c, n - 1) + (if guess[n - 1] == c && color_at(
            answer,
            guess,
            n - 1,
        ) != Color::Red {
            1nat
        } else {
            0nat
        })
    }
}

/// Number of yellow positions `j < n` that hold `c`.
spec fn yellow_count(answer: Seq<char>, guess: Seq<char>, c: char, n: int) -> nat
    decreases n,
{
    if n <= 0 {
        0
    } else {
        yellow_count(answer, guess, c, n - 1) + (if guess[n - 1] == c && color_at(
            answer,
            guess,
            n - 1,
        ) == Color::Yellow {
            1nat
        } else {
            0nat
        })
    }
}

/// The smaller of two integers.
pub open spec fn min(a: int, b: int) -> int {
    if a <= b {
        a
    } else {
        b
    }
}

proof fn lemma_greens_bounded(answer: Seq<char>, guess: Seq<char>, c: char, n: int)
    requires
        0 <= n <= guess.len(),
    ensures
        green_count(answer, guess, c, n) <= occurrences(answer, c, min(n, answer.len() as int)),
    decreases n,
{
    if n > 0 {
        lemma_greens_bounded(answer, guess, c, n - 1);
        if n <= answer.len() {
            assert(min(n - 1, answer.len() as int) == n - 1);
        } else {
            assert(!is_green(answer, guess, n - 1));
            lemma_occurrences_monotone(answer, c, min(n - 1, answer.len() as int), answer.len() as int);
        }
    }
}

proof fn lemma_occurrences_monotone(s: Seq<char>, c: char, m: int, n: int)
    requires
        0 <= m <= n,
    ensures
        occurrences(s, c, m) <= occurrences(s, c, n),
    decreases n - m,
{
    if m < n {
        lemma_occurrences_monotone(s, c, m, n - 1);
    }
}

proof fn lemma_split(answer: Seq<char>, guess: Seq<char>, c: char, n: int)
    requires
        0 <= n <= guess.len(),
    ensures
        occurrences(guess, c, n) == green_count(answer, guess, c, n) + miss_count(answer, guess, c, n),
        marked_count(answer, guess, c, n) == green_count(answer, guess, c, n) + yellow_count(answer, guess, c, n),
    decreases n,
{
    if n > 0 {
        lemma_split(answer, guess, c, n - 1);
    }
}

proof fn lemma_yellows(answer: Seq<char>, guess: Seq<char>, c: char, n: int)
    requires
        0 <= n <= guess.len(),
        green_count(answer, guess, c, guess.len() as int) <= count_in(answer, c),
    ensures
        yellow_count(answer, guess, c, n) == min(
            miss_count(answer, guess, c, n) as int,
            count_in(answer, c) - green_count(answer, guess, c, guess.len() as int),
        ),
    decreases n,
{
    if n > 0 {
        lemma_yellows(answer, guess, c, n - 1);
    }
}

/// A guess marks a letter (green or yellow) exactly as many times as the
/// fewer of its copies in the guess and its copies in the answer.
pub proof fn law_marks_match_copies(answer: Seq<char>, guess: Seq<char>, c: char)
    ensures
        marked_count(answer, guess, c, guess.len() as int) == min(
            count_in(guess, c) as int,
            count_in(answer, c) as int,
        ),
{
    let n = guess.len() as int;
    lemma_greens_bounded(answer, guess, c, n);
    lemma_occurrences_monotone(answer, c, min(n, answer.len() as int), answer.len() as int);
    lemma_split(answer, guess, c, n);
    lemma_yellows(answer, guess, c, n);
}

/// Guessing the answer itself makes every letter green.
pub proof fn law_answer_all_green(answer: Seq<char>)
    ensures
        forall|i: int| 0 <= i < answer.len() ==> #[trigger] score_spec(answer, answer)[i] == Color::Green,
{
}

/// Every position of a scored guess is green, yellow or red.
pub proof fn law_scored_positions_known(answer: Seq<char>, guess: Seq<char>, i: int)
    requires
        0 <= i < guess.len(),
    ensures
        score_spec(answer, guess)[i] != Color::Unknown,
{
}

/// Green exactly where guess and answer have the same letter.
pub proof fn law_green_iff_same_letter(answer: Seq<char>, guess: Seq<char>, i: int)
    requires
        0 <= i < guess.len(),
    ensures
        (score_spec(answer, guess)[i] == Color::Green) <==> (i < answer.len() && guess[i] == answer[i]),
{
}

/// A result line wins exactly when the guess has at least five letters and
/// the first five are green.
pub proof fn law_win_line(colors: Seq<Color>, keys: Seq<Color>)
    ensures
        is_win_line(result_line(colors, keys)) <==> (colors.len() >= 5 && forall|i: int|
            0 <= i < 5 ==> #[trigger] colors[i] == Color::Green),
{
    let line = result_line(colors, keys);
    if is_win_line(line) {
        assert forall|i: int| 0 <= i < 5 implies #[trigger] colors[i] == Color::Green by {
            if colors.len() <= i {
                assert(line[colors.len() as int] == ' ');
            }
            assert(line[i] == color_char(colors[i]));
        }
        if colors.len() < 5 {
            assert(line[colors.len() as int] == ' ');
        }
    }
    if colors.len() >= 5 && forall|i: int| 0 <= i < 5 ==> #[trigger] colors[i] == Color::Green {
        assert forall|i: int| 0 <= i < 5 implies line[i] == 'G' by {
            assert(line[i] == color_char(colors[i]));
        }
    }
}

/// An accepted guess wins the round exactly when the guess and the answer
/// both have at least five letters and agree on the first five.
pub proof fn law_win_iff_first_five_match(v: RoundView, input: Seq<char>)
    ensures
        after_guess(v, input).won <==> (input.len() >= 5 && v.answer.len() >= 5 && input.take(5)
            == v.answer.take(5)),
{
    let colors = guess_colors(v, input);
    law_win_line(colors, crate::round::guess_keyboard(v, input));
    if input.len() >= 5 && v.answer.len() >= 5 && input.take(5) == v.answer.take(5) {
        assert forall|i: int| 0 <= i < 5 implies #[trigger] colors[i] == Color::Green by {
            assert(input.take(5)[i] == v.answer.take(5)[i]);
        }
    }
    if after_guess(v, input).won {
        assert(colors.len() >= 5);
        assert(forall|i: int| 0 <= i < 5 ==> #[trigger] colors[i] == Color::Green);
        assert(v.answer.len() >= 5) by {
            assert(colors[4] == Color::Green);
        }
        assert(input.take(5) =~= v.answer.take(5)) by {
            assert forall|i: int| 0 <= i < 5 implies input.take(5)[i] == v.answer.take(5)[i] by {
                assert(colors[i] == Color::Green);
            }
        }
    }
}

/// A letter's colour on the keyboard never gets worse.
pub proof fn law_keyboard_never_worse(base: u32, old: Seq<Color>, guess: Seq<char>, colors: Seq<Color>, k: int)
    requires
        0 <= k < old.len(),
    ensures
        rank(keyboard_after(base, old, guess, colors)[k]) >= rank(old[k]),
{
}

/// A letter's keyboard colour is the best of its old colour and the colours
/// of its positions in the guess.
pub proof fn law_keyboard_best(base: u32, old: Seq<Color>, guess: Seq<char>, colors: Seq<Color>, k: int)
    requires
        0 <= k < old.len(),
    ensures
        keyboard_after(base, old, guess, colors)[k] == best(old[k], best_for(base, guess, colors, k, guess.len() as int)),
{
}

/// Each accepted guess takes one attempt and is recorded in upper case; the
/// guess itself becomes the previous guess for difficult mode.
pub proof fn law_guess_recorded(v: RoundView, input: Seq<char>)
    ensures
        after_guess(v, input).attempts == v.attempts + 1,
        after_guess(v, input).guesses.len() == v.guesses.len() + 1,
        after_guess(v, input).last == input,
        after_guess(v, input).last_result == guess_line(v, input).take(5),
        after_guess(v, input).answer == v.answer,
{
}

/// Before the first guess, difficult mode lets every input through.
pub proof fn law_difficult_first_guess_free(input: Seq<char>)
    ensures
        difficult_ok(Seq::empty(), input, Seq::empty()),
{
}

/// Repeating the previous guess always obeys difficult mode, whatever its
/// result was.
pub proof fn law_difficult_repeat_allowed(last: Seq<char>, result: Seq<char>)
    ensures
        difficult_ok(last, last, result),
{
    assert forall|i: int|
        0 <= i < result.len() && i < last.len() && result[i] == 'Y' implies last.contains(
            #[trigger] last[i],
        ) by {
        assert(last[i] == last[i]);
    }
}

/// A recorded round adds one round and its guesses to the saved rounds; it
/// counts as won exactly when its last guess is its answer (in upper case),
/// and then adds one win and its guesses to those of the won rounds.
pub proof fn law_recorded_round_counts(games: Seq<SavedGame>, answer: String, guesses: Vec<String>)
    ensures
        ({
            let g = SavedGame { answer: Some(answer), guesses: Some(guesses) };
            let won = guesses@.len() > 0 && spec_uppercase(guesses@.last()@) == spec_uppercase(answer@);
            &&& saved_won(g) == won
            &&& games.push(g).len() == games.len() + 1
            &&& guess_total(games.push(g)) == guess_total(games) + guesses.len()
            &&& won_total(games.push(g)) == won_total(games) + (if won { 1int } else { 0int })
            &&& won_guess_total(games.push(g)) == won_guess_total(games) + (if won {
                guesses.len() as int
            } else {
                0int
            })
        }),
{
    let g = SavedGame { answer: Some(answer), guesses: Some(guesses) };
    assert(games.push(g).drop_last() =~= games);
}

/// After rounds that took `s[0]`, ..., `s[k-1]` guesses (0: lost), counted
/// from zero with `Tally::record`, the counters are: `k` rounds played, as
/// many won as there are non-zero entries, and the sum of the entries as the
/// guesses of the won rounds.
pub proof fn law_tally_over_rounds(s: Seq<i32>)
    ensures
        tally_over(s) == (s.len() as int, wins_in(s), sum_of(s)),
    decreases s.len(),
{
    if s.len() > 0 {
        let t = s.drop_last();
        law_tally_over_rounds(t);
        reveal_with_fuel(Seq::filter, 2);
        assert(s =~= t.push(s.last()));
        t.lemma_filter_len_push(|x: i32| x != 0, s.last());
    }
}

/// On a well-formed page the current row is one of the six whenever rows may
/// still be submitted, so the page can read it; `update` keeps the page
/// well-formed for every message.
pub proof fn law_page_current_row_usable(m: Model)
    requires
        m.wf(),
    ensures
        !m.board.all_submitted ==> m.board.current_row < ROWS,
        m.totals.total_success <= m.totals.total_round,
{
}

proof fn lemma_best_for_is_best(base: u32, guess: Seq<char>, colors: Seq<Color>, k: int, n: int)
    requires
        0 <= n <= guess.len(),
        colors.len() == guess.len(),
    ensures
        forall|i: int|
            0 <= i < n && on_keyboard(base, guess[i]) && key_of(base, guess[i]) == k ==> rank(
                best_for(base, guess, colors, k, n),
            ) >= rank(#[trigger] colors[i]),
        best_for(base, guess, colors, k, n) == Color::Unknown || exists|i: int|
            0 <= i < n && on_keyboard(base, guess[i]) && key_of(base, guess[i]) == k
                && best_for(base, guess, colors, k, n) == #[trigger] colors[i],
    decreases n,
{
    if n > 0 {
        lemma_best_for_is_best(base, guess, colors, k, n - 1);
        let prev = best_for(base, guess, colors, k, n - 1);
        let cur = best_for(base, guess, colors, k, n);
        if on_keyboard(base, guess[n - 1]) && key_of(base, guess[n - 1]) == k {
            if cur == colors[n - 1] {
                assert(0 <= n - 1 < n && on_keyboard(base, guess[n - 1]) && key_of(base, guess[n - 1]) == k
                    && cur == colors[n - 1]);
            }
        }
    }
}

/// After a guess, each letter's keyboard colour ranks at least as high as
/// its old colour and as the colour of every position of the guess that
/// holds the letter, and it is one of those colours: the best of them.
pub proof fn law_keyboard_letter_best_of_positions(
    base: u32,
    old: Seq<Color>,
    guess: Seq<char>,
    colors: Seq<Color>,
    k: int,
)
    requires
        0 <= k < old.len(),
        colors.len() == guess.len(),
    ensures
        ({
            let after = keyboard_after(base, old, guess, colors)[k];
            &&& rank(after) >= rank(old[k])
            &&& forall|i: int|
                0 <= i < guess.len() && on_keyboard(base, guess[i]) && key_of(base, guess[i]) == k
                    ==> rank(after) >= rank(#[trigger] colors[i])
            &&& after == old[k] || exists|i: int|
                0 <= i < guess.len() && on_keyboard(base, guess[i]) && key_of(base, guess[i]) == k
                    && after == #[trigger] colors[i]
        }),
{
    lemma_best_for_is_best(base, guess, colors, k, guess.len() as int);
}

/// In difficult mode an accepted input keeps each green letter of the
/// previous guess at its position, and holds each yellow letter somewhere.
pub proof fn law_difficult_keeps_hints(last: Seq<char>, input: Seq<char>, result: Seq<char>, i: int)
    requires
        difficult_ok(last, input, result),
        0 <= i < result.len(),
        i < last.len(),
    ensures
        result[i] == 'G' ==> i < input.len() && input[i] == last[i],
        result[i] == 'Y' ==> exists|j: int| 0 <= j < input.len() && input[j] == last[i],
{
    if result[i] == 'Y' {
        assert(input.contains(last[i]));
    }
}

/// An input that keeps every green letter in place and holds every yellow
/// letter obeys difficult mode.
pub proof fn law_difficult_hints_suffice(last: Seq<char>, input: Seq<char>, result: Seq<char>)
    requires
        forall|i: int|
            0 <= i < result.len() && i < last.len() && result[i] == 'G' ==> i < input.len()
                && input[i] == last[i],
        forall|i: int|
            0 <= i < result.len() && i < last.len() && result[i] == 'Y' ==> exists|j: int|
                0 <= j < input.len() && input[j] == #[trigger] last[i],
    ensures
        difficult_ok(last, input, result),
{
}

/// A taken answer at a yes/no prompt sets exactly that prompt's setting:
/// `y` or `Y` turns it on, an empty line keeps it off; the other settings
/// stay as they were.
pub proof fn law_yes_no_prompt_sets_its_flag(
    a: SettingsDialog,
    line: Seq<char>,
    path_exists: bool,
    b: SettingsDialog,
    r: Reply,
)
    requires
        answered(a, line, path_exists, b, r),
        a.step == Step::Random || a.step == Step::Difficult || a.step == Step::Stats,
        trimmed(line) == "y"@ || trimmed(line) == "Y"@ || trimmed(line).len() == 0,
    ensures
        ({
            let on = trimmed(line) == "y"@ || trimmed(line) == "Y"@;
            &&& r == Reply::Next
            &&& a.step == Step::Random ==> b.config.random == Some(on) && b.config.difficult
                == a.config.difficult && b.config.stats == a.config.stats && b.step == Step::Difficult
            &&& a.step == Step::Difficult ==> b.config.difficult == Some(on) && b.config.random
                == a.config.random && b.config.stats == a.config.stats && b.step == Step::Stats
            &&& a.step == Step::Stats ==> b.config.stats == Some(on) && b.config.random
                == a.config.random && b.config.difficult == a.config.difficult && b.step == Step::Day
            &&& b.config.day == a.config.day && b.config.seed == a.config.seed
            &&& b.config.word == a.config.word && b.config.state == a.config.state
        }),
{
    reveal_strlit("");
    if trimmed(line).len() == 0 {
        assert(trimmed(line) =~= ""@);
    }
}

/// A row that ends the round (all green, or the sixth row) forgets the
/// previous row and its marks, so in difficult mode the next row, also after
/// a reset, is taken exactly when it is a valid word.
pub proof fn law_round_end_clears_hints(
    a: Model,
    b: Model,
    r: bool,
    e: Seq<Effect>,
    c: Model,
    r2: bool,
    e2: Seq<Effect>,
)
    requires
        a.wf(),
        a.can_update(Msg::EnableNextRow),
        updated(a, Msg::EnableNextRow, b, r, e),
        a.row_accepted(),
        a.row_wins() || a.board.current_row == 5,
        updated(b, Msg::Reset, c, r2, e2),
    ensures
        b.play.input@.len() == 0,
        b.play.result@.len() == 0,
        b.row_accepted() == b.row_is_valid(),
        c.row_accepted() == c.row_is_valid(),
{
    assert(difficult_ok(b.play.input@, b.current_text(), b.play.result@));
    assert(difficult_ok(c.play.input@, c.current_text(), c.play.result@));
}

/// A row that ends the round first asks for the answer of the day after the
/// day box, drawn with the number in the seed box: the same seed that typing
/// that text into the seed box requests.
pub proof fn law_round_end_uses_seed_and_next_day(
    a: Model,
    b: Model,
    r: bool,
    e: Seq<Effect>,
    a2: Model,
    b2: Model,
    r2: bool,
    e2: Seq<Effect>,
)
    requires
        a.wf(),
        a.can_update(Msg::EnableNextRow),
        updated(a, Msg::EnableNextRow, b, r, e),
        a.row_accepted(),
        a.row_wins() || a.board.current_row == 5,
        updated(a2, Msg::UpdateSeed(a.settings.seed), b2, r2, e2),
    ensures
        e.len() >= 1,
        e[0] matches Effect::ChooseAnswer { day, seed } && seed == seed_or_default(a.settings.seed@)
            && day == day_or_default(a.settings.day@) + 1,
        e[0] matches Effect::ChooseAnswer { seed, .. } && e2[0] matches Effect::ChooseAnswer {
            seed: s2,
            ..
        } && seed == s2,
{
    crate::parse::lemma_spelled_nonneg(a.settings.seed@);
    crate::parse::lemma_spelled_nonneg(a.settings.day@);
    assert(a.can_enter());
}

/// A taken answer at the day, seed, path or word prompt sets that setting
/// and no other: Enter gives day 1 and seed 42, a number gives itself, and a
/// path or word is the line without surrounding white space.
pub proof fn law_prompt_sets_only_its_setting(
    a: SettingsDialog,
    line: Seq<char>,
    path_exists: bool,
    b: SettingsDialog,
    r: Reply,
)
    requires
        answered(a, line, path_exists, b, r),
        r == Reply::Next,
        a.step != Step::Random && a.step != Step::Difficult && a.step != Step::Stats && a.step != Step::Done,
    ensures
        ({
            let t = trimmed(line);
            let (x, y) = (a.config, b.config);
            &&& y.random == x.random && y.difficult == x.difficult && y.stats == x.stats
            &&& a.step == Step::Day ==> {
                &&& t.len() == 0 ==> y.day == Some(1usize)
                &&& t.len() > 0 ==> (y.day matches Some(d) && spelled_number(t, false) == Some(d as int))
                &&& y.seed == x.seed && y.final_set == x.final_set && y.acceptable_set == x.acceptable_set
                &&& y.state == x.state && y.word == x.word && b.step == Step::Seed
            }
            &&& a.step == Step::Seed ==> {
                &&& t.len() == 0 ==> y.seed == Some(42i32)
                &&& t.len() > 0 ==> (y.seed matches Some(n) && spelled_number(t, true) == Some(n as int))
                &&& y.day == x.day && y.final_set == x.final_set && y.acceptable_set == x.acceptable_set
                &&& y.state == x.state && y.word == x.word && b.step == Step::FinalSet
            }
            &&& a.step == Step::FinalSet ==> {
                &&& y.final_set matches Some(p) && p@ == t
                &&& y.day == x.day && y.seed == x.seed && y.acceptable_set == x.acceptable_set
                &&& y.state == x.state && y.word == x.word && b.step == Step::AcceptableSet
            }
            &&& a.step == Step::AcceptableSet ==> {
                &&& y.acceptable_set matches Some(p) && p@ == t
                &&& y.day == x.day && y.seed == x.seed && y.final_set == x.final_set
                &&& y.state == x.state && y.word == x.word && b.step == Step::State
            }
            &&& a.step == Step::State ==> {
                &&& y.state matches Some(p) && p@ == t
                &&& y.day == x.day && y.seed == x.seed && y.final_set == x.final_set
                &&& y.acceptable_set == x.acceptable_set && y.word == x.word && b.step == Step::Word
            }
            &&& a.step == Step::Word ==> {
                &&& y.word matches Some(w) && w@ == t
                &&& y.day == x.day && y.seed == x.seed && y.final_set == x.final_set
                &&& y.acceptable_set == x.acceptable_set && y.state == x.state && b.step == Step::Done
            }
        }),
{
    crate::parse::lemma_spelled_nonneg(trimmed(line));
}

} // verus!
