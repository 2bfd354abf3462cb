//! Scoring one guess against the answer.
//!
//! Each position of a guess gets a colour: green when the letter stands at
//! the same position in the answer, yellow when the answer still holds an
//! unclaimed copy of the letter elsewhere, red otherwise. Greens claim their
//! copies first; the remaining positions claim copies from left to right.
use vstd::prelude::*;

verus! {

/// The colour of a letter, as the game shows it.
#[derive(Clone, Copy, Debug, PartialEq, Eq, Structural)]
pub enum Color {
    Green,
    Yellow,
    Red,
    /// Not guessed yet (only on the keyboard).
    Unknown,
}

/// The letter the game prints for a colour.
pub open spec fn color_char(c: Color) -> char {
    match c {
        Color::Green => 'G',
        Color::Yellow => 'Y',
        Color::Red => 'R',
        Color::Unknown => 'X',
    }
}

/// How good a colour is: unknown < red < yellow < green.
pub open spec fn rank(c: Color) -> int {
    match c {
        Color::Unknown => 0,
        Color::Red => 1,
        Color::Yellow => 2,
        Color::Green => 3,
    }
}

/// The better of two colours.
pub open spec fn best(a: Color, b: Color) -> Color {
    if rank(a) >= rank(b) {
        a
    } else {
        b
    }
}

/// Number of positions `j < n` of `s` that hold `c`.
pub open spec fn occurrences(s: Seq<char>, c: char, n: int) -> nat
    decreases n,
{
    if n <= 0 {
        0
    } else {
        occurrences(s, c, n - 1) + (if s[n - 1] == c {
            1nat
        } else {
            0nat
        })
    }
}

/// Number of copies of `c` in `s`.
pub open spec fn count_in(s: Seq<char>, c: char) -> nat {
    occurrences(s, c, s.len() as int)
}

/// Position `i` of `guess` holds the answer's letter at that position.
pub open spec fn is_green(answer: Seq<char>, guess: Seq<char>, i: int) -> bool {
    i < answer.len() && guess[i] == answer[i]
}

/// Number of green positions `j < n` that hold `c`.
pub open spec fn green_count(answer: Seq<char>, guess: Seq<char>, c: char, n: int) -> nat
    decreases n,
{
    if n <= 0 {
        0
    } else {
        green_count(answer, guess, c, n - 1) + (if is_green(answer, guess, n - 1) && guess[n
            - 1] == c {
            1nat
        } else {
            0nat
        })
    }
}

/// Number of positions `j < n` that hold `c` and are not green.
pub open spec fn miss_count(answer: Seq<char>, guess: Seq<char>, c: char, n: int) -> nat
    decreases n,
{
    if n <= 0 {
        0
    } else {
        miss_count(answer, guess, c, n - 1) + (if !is_green(answer, guess, n - 1) && guess[n
            - 1] == c {
            1nat
        } else {
            0nat
        })
    }
}

/// The colour of position `i` of `guess`: green on a match; yellow while the
/// answer holds more copies of the letter than the greens and the earlier
/// non-green positions have claimed; red otherwise.
pub open spec fn color_at(answer: Seq<char>, guess: Seq<char>, i: int) -> Color {
    if is_green(answer, guess, i) {
        Color::Green
    } else if count_in(answer, guess[i]) > green_count(answer, guess, guess[i], guess.len() as int)
        + miss_count(answer, guess, guess[i], i) {
        Color::Yellow
    } else {
        Color::Red
    }
}

/// The colours of all positions of `guess`.
pub open spec fn score_spec(answer: Seq<char>, guess: Seq<char>) -> Seq<Color> {
    Seq::new(guess.len(), |i: int| color_at(answer, guess, i))
}

/// The letter printed for `c`.
pub fn color_letter(c: Color) -> (r: char)
    ensures
        r == color_char(c),
{
    match c {
        Color::Green => 'G',
        Color::Yellow => 'Y',
        Color::Red => 'R',
        Color::Unknown => 'X',
    }
}

/// The better of two colours.
pub fn best_color(a: Color, b: Color) -> (r: Color)
    ensures
        r == best(a, b),
{
    let ra: u8 = match a {
        Color::Unknown => 0,
        Color::Red => 1,
        Color::Yellow => 2,
        Color::Green => 3,
    };
    let rb: u8 = match b {
        Color::Unknown => 0,
        Color::Red => 1,
        Color::Yellow => 2,
        Color::Green => 3,
    };
    if ra >= rb {
        a
    } else {
        b
    }
}

/// Number of copies of `c` in `s`.
pub fn count_char(s: &Vec<char>, c: char) -> (r: usize)
    ensures
        r == count_in(s@, c),
        r <= s.len(),
{
    let mut r: usize = 0;
    let mut i: usize = 0;
    while i < s.len()
        invariant
            i <= s.len(),
            r == occurrences(s@, c, i as int),
            r <= i,
        decreases s.len() - i,
    {
        if s[i] == c {
            r = r + 1;
        }
        i = i + 1;
    }
    r
}

fn green_at(answer: &Vec<char>, guess: &Vec<char>, i: usize) -> (r: bool)
    requires
        i < guess.len(),
    ensures
        r == is_green(answer@, guess@, i as int),
{
    i < answer.len() && guess[i] == answer[i]
}

/// Number of green positions below `n` holding `c`, and of non-green ones.
fn claimed_counts(answer: &Vec<char>, guess: &Vec<char>, c: char, n: usize) -> (r: (usize, usize))
    requires
        n <= guess.len(),
    ensures
        r.0 == green_count(answer@, guess@, c, n as int),
        r.1 == miss_count(answer@, guess@, c, n as int),
        r.0 + r.1 <= n,
{
    let mut g: usize = 0;
    let mut m: usize = 0;
    let mut j: usize = 0;
    while j < n
        invariant
            j <= n,
            n <= guess.len(),
            g == green_count(answer@, guess@, c, j as int),
            m == miss_count(answer@, guess@, c, j as int),
            g + m <= j,
        decreases n - j,
    {
        if guess[j] == c {
            if green_at(answer, guess, j) {
                g = g + 1;
            } else {
                m = m + 1;
            }
        }
        j = j + 1;
    }
    (g, m)
}

/// Colours each position of `guess` against `answer`.
pub fn score_guess(answer: &Vec<char>, guess: &Vec<char>) -> (r: Vec<Color>)
    ensures
        r@ == score_spec(answer@, guess@),
{
    let mut r: Vec<Color> = Vec::new();
    let mut i: usize = 0;
    while i < guess.len()
        invariant
            i <= guess.len(),
            r.len() == i,
            forall|k: int| 0 <= k < i ==> r@[k] == color_at(answer@, guess@, k),
        decreases guess.len() - i,
    {
        let c = guess[i];
        if green_at(answer, guess, i) {
            r.push(Color::Green);
        } else {
            let total = count_char(answer, c);
            let (greens, _) = claimed_counts(answer, guess, c, guess.len());
            let (_, misses) = claimed_counts(answer, guess, c, i);
            if total > greens && total - greens > misses {
                r.push(Color::Yellow);
            } else {
                r.push(Color::Red);
            }
        }
        i = i + 1;
    }
    assert(r@ =~= score_spec(answer@, guess@));
    r
}

} // verus!
