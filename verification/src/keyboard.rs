//! The alphabet shown under the guesses: for each of the 26 letters, the best
//! colour it has had in any guess of the round.
use vstd::prelude::*;
use crate::score::{Color, best, best_color, color_char, color_letter};

verus! {

/// Number of letters on the keyboard.
pub const LETTERS: usize = 26;

/// Index of `c` on a keyboard whose first letter has code `base`, when the
/// letter is one of its 26.
pub open spec fn key_of(base: u32, c: char) -> int {
    (c as u32) - base
}

/// Whether `c` is one of the 26 letters from `base` on.
pub open spec fn on_keyboard(base: u32, c: char) -> bool {
    0 <= key_of(base, c) < 26
}

/// The best colour that the positions `j < n` of a guess holding the letter
/// with key `k` received.
pub open spec fn best_for(base: u32, guess: Seq<char>, colors: Seq<Color>, k: int, n: int) -> Color
    decreases n,
{
    if n <= 0 {
        Color::Unknown
    } else if on_keyboard(base, guess[n - 1]) && key_of(base, guess[n - 1]) == k {
        best(best_for(base, guess, colors, k, n - 1), colors[n - 1])
    } else {
        best_for(base, guess, colors, k, n - 1)
    }
}

/// The keyboard after a guess coloured `colors`: each letter keeps its best
/// colour so far.
pub open spec fn keyboard_after(base: u32, old: Seq<Color>, guess: Seq<char>, colors: Seq<Color>) -> Seq<Color> {
    Seq::new(old.len(), |k: int| best(old[k], best_for(base, guess, colors, k, guess.len() as int)))
}

/// The 26 letters from `a` (or from `A`) with the best colour each has had.
#[derive(Debug)]
pub struct Keyboard {
    base: u32,
    colors: Vec<Color>,
}

impl View for Keyboard {
    type V = Seq<Color>;

    closed spec fn view(&self) -> Seq<Color> {
        self.colors@
    }
}

impl Keyboard {
    /// Code of the first letter.
    pub closed spec fn base(&self) -> u32 {
        self.base
    }

    /// 26 colours, and a first letter that leaves room for 26 letters.
    pub closed spec fn wf(&self) -> bool {
        &&& self.colors@.len() == 26
        &&& (self.base == 97 || self.base == 65)
    }

    /// A well-formed keyboard has 26 letters.
    pub proof fn lemma_len(&self)
        requires
            self.wf(),
        ensures
            self@.len() == 26,
    {
    }

    /// A keyboard of lower-case letters with nothing guessed yet.
    pub fn lowercase() -> (r: Keyboard)
        ensures
            r.wf(),
            r.base() == 97,
            r@ == Seq::new(26, |k: int| Color::Unknown),
    {
        Keyboard { base: 97, colors: Self::blank() }
    }

    /// A keyboard of upper-case letters with nothing guessed yet.
    pub fn uppercase() -> (r: Keyboard)
        ensures
            r.wf(),
            r.base() == 65,
            r@ == Seq::new(26, |k: int| Color::Unknown),
    {
        Keyboard { base: 65, colors: Self::blank() }
    }

    fn blank() -> (v: Vec<Color>)
        ensures
            v@ == Seq::new(26, |k: int| Color::Unknown),
    {
        let mut v: Vec<Color> = Vec::new();
        let mut i: usize = 0;
        while i < LETTERS
            invariant
                i <= 26,
                v@ == Seq::new(i as nat, |k: int| Color::Unknown),
            decreases 26 - i,
        {
            v.push(Color::Unknown);
            i = i + 1;
        }
        v
    }

    /// A copy of this keyboard.
    pub fn duplicate(&self) -> (r: Keyboard)
        ensures
            r@ == self@,
            r.base() == self.base(),
            r.wf() == self.wf(),
    {
        let mut colors: Vec<Color> = Vec::new();
        let mut i: usize = 0;
        while i < self.colors.len()
            invariant
                i <= self.colors.len(),
                colors@ == self.colors@.take(i as int),
            decreases self.colors.len() - i,
        {
            colors.push(self.colors[i]);
            i = i + 1;
            assert(colors@ =~= self.colors@.take(i as int));
        }
        assert(self.colors@.take(self.colors.len() as int) =~= self.colors@);
        Keyboard { base: self.base, colors }
    }

    /// The colour of the `k`-th letter.
    pub fn color_of_key(&self, k: usize) -> (r: Color)
        requires
            self.wf(),
            k < 26,
        ensures
            r == self@[k as int],
    {
        self.colors[k]
    }

    /// The colour of letter `c`, or `None` when `c` is not on this keyboard.
    pub fn color_of(&self, c: char) -> (r: Option<Color>)
        requires
            self.wf(),
        ensures
            on_keyboard(self.base(), c) ==> r == Some(self@[key_of(self.base(), c)]),
            !on_keyboard(self.base(), c) ==> r is None,
    {
        let code = c as u32;
        if code >= self.base && code - self.base < 26 {
            Some(self.colors[(code - self.base) as usize])
        } else {
            None
        }
    }

    /// Records a guess and its colours: each letter takes the better of its
    /// old colour and the best colour it received in this guess.
    pub fn record(&mut self, guess: &Vec<char>, colors: &Vec<Color>)
        requires
            old(self).wf(),
            colors.len() == guess.len(),
        ensures
            final(self).wf(),
            final(self).base() == old(self).base(),
            final(self)@ == keyboard_after(old(self).base(), old(self)@, guess@, colors@),
    {
        let ghost start = self.colors@;
        let mut i: usize = 0;
        while i < guess.len()
            invariant
                i <= guess.len(),
                colors.len() == guess.len(),
                self.wf(),
                self.base == old(self).base,
                start == old(self)@,
                forall|k: int|
                    0 <= k < 26 ==> #[trigger] self.colors@[k] == best(
                        start[k],
                        best_for(self.base, guess@, colors@, k, i as int),
                    ),
            decreases guess.len() - i,
        {
            let code = guess[i] as u32;
            if code >= self.base && code - self.base < 26 {
                let k = (code - self.base) as usize;
                let b = best_color(self.colors[k], colors[i]);
                self.colors.set(k, b);
            }
            i = i + 1;
        }
        assert(self.colors@ =~= keyboard_after(self.base, start, guess@, colors@));
    }

    /// The 26 letters printed for the colours, in alphabet order.
    pub fn letters(&self) -> (r: Vec<char>)
        requires
            self.wf(),
        ensures
            r@ == self@.map_values(|c: Color| color_char(c)),
            r.len() == 26,
    {
        let mut r: Vec<char> = Vec::new();
        let mut i: usize = 0;
        while i < LETTERS
            invariant
                self.wf(),
                i <= 26,
                r@ == self@.take(i as int).map_values(|c: Color| color_char(c)),
            decreases 26 - i,
        {
            r.push(color_letter(self.colors[i]));
            i = i + 1;
            assert(r@ =~= self@.take(i as int).map_values(|c: Color| color_char(c)));
        }
        assert(self@.take(26) =~= self@);
        r
    }
}

} // verus!
