//! The game in the browser: six rows of five letter boxes, a keyboard that
//! shows the best colour of each letter, and a menu for difficult mode, seed
//! and day.
//!
//! [`Model::update`] takes a message (a click, a typed letter, ...) and
//! changes the model; what it asks the page to do (focus a box, show an
//! alert, send a message later, pick a new answer) comes back as effects.
use vstd::prelude::*;
use crate::counts::{WordCounts, count_of};
use crate::difficult::{difficult_check, difficult_ok};
use crate::keyboard::{Keyboard, keyboard_after};
use crate::parse::{decimal_digits, parse_unsigned, render_usize, spelled_number};
use crate::score::{Color, color_char, color_letter, score_guess, score_spec};
use crate::text::{chars_of, contains_word, lowercase, spec_lowercase, spec_uppercase, string_from_chars, uppercase};

verus! {

/// Rows on the board.
pub const ROWS: usize = 6;

/// Letter boxes in a row.
pub const COLS: usize = 5;

/// Seed used when the seed box holds no number.
pub const DEFAULT_SEED: u64 = 114514;

/// Day used when the day box holds no number.
pub const DEFAULT_DAY: usize = 810;

/// What happened on the page.
pub enum Msg {
    ToggleMenu,
    SelectValue(String),
    ClickOutside,
    _Clickwithnothing,
    DifficultCheck,
    UpdateSeed(String),
    UpdateDay(String),
    UpdateInput(usize, usize, String),
    EnableNextRow,
    FocusNext((usize, usize)),
    ClearRow(usize),
    FocusPrevious((usize, usize)),
    Reset,
    TriggerFlip(usize),
    ResetFlip(usize),
}

/// What the page is asked to do after an update.
pub enum Effect {
    /// Log that a menu entry was chosen.
    LogSelected(String),
    /// Handle this message next.
    Send(Msg),
    /// Put the cursor into the box at (row, column).
    Focus(usize, usize),
    /// Replace the answer with the word for this day and seed.
    ChooseAnswer { day: usize, seed: u64 },
    /// After a short delay, congratulate, then send `Reset`.
    CelebrateThenReset,
    /// After a short delay, show the answer that was missed, then send `Reset`.
    RevealThenReset(String),
    /// After the flip animation, send `ResetFlip` for the row.
    ResetFlipLater(usize),
}

/// The menu's settings.
pub struct Settings {
    pub show_menu: bool,
    pub is_difficult: bool,
    pub seed: String,
    pub day: String,
}

/// The letter boxes.
pub struct Board {
    pub inputs: Vec<Vec<String>>,
    /// The colour of each box (`Unknown` before its row is scored).
    pub colors: Vec<Vec<Color>>,
    pub current_row: usize,
    pub all_submitted: bool,
    pub flip_flags: Vec<bool>,
}

/// The word being played.
pub struct Play {
    pub answer: String,
    /// The marks of the previous accepted row.
    pub result: Vec<char>,
    /// The previous accepted row.
    pub input: Vec<char>,
    pub all_completed: bool,
    /// The marks shown on the keyboard, `A` to `Z`.
    pub alphabet_color: Vec<char>,
    /// The best colour of each letter so far.
    pub char_color: Keyboard,
}

/// The counters shown beside the board.
pub struct Totals {
    pub total_round: i32,
    pub total_success: i32,
    /// Rows used in the round in progress.
    pub rounds: i32,
    pub words: WordCounts,
    pub total_success_rounds: i32,
}

/// The state of the page.
pub struct Model {
    pub settings: Settings,
    pub board: Board,
    pub play: Play,
    pub totals: Totals,
    /// The words a row may spell (in lower case).
    pub acceptable: Vec<String>,
}

/// The characters of the cells of a row, one after the other.
pub open spec fn row_text(cells: Seq<String>) -> Seq<char>
    decreases cells.len(),
{
    if cells.len() == 0 {
        Seq::empty()
    } else {
        row_text(cells.drop_last()) + cells.last()@
    }
}

/// An ASCII letter.
pub open spec fn is_ascii_letter(c: char) -> bool {
    ('A' <= c <= 'Z') || ('a' <= c <= 'z')
}

/// Every box of the row is empty.
pub open spec fn all_blank(row: Seq<String>) -> bool {
    forall|j: int| 0 <= j < row.len() ==> (#[trigger] row[j])@ == Seq::<char>::empty()
}

/// `n` copies of `c`.
pub open spec fn repeated(c: char, n: nat) -> Seq<char> {
    Seq::new(n, |i: int| c)
}

/// The day number the settings hold, or the default.
pub open spec fn day_or_default(day: Seq<char>) -> int {
    match spelled_number(day, false) {
        Some(n) => if n <= usize::MAX { n } else { DEFAULT_DAY as int },
        None => DEFAULT_DAY as int,
    }
}

/// The seed the settings hold, or the default.
pub open spec fn seed_or_default(seed: Seq<char>) -> int {
    match spelled_number(seed, false) {
        Some(n) => if n <= u64::MAX { n } else { DEFAULT_SEED as int },
        None => DEFAULT_SEED as int,
    }
}

impl Model {
    /// Six rows of five boxes, six flip flags, an upper-case keyboard, word
    /// counts without duplicates, no negative counter, no more wins than
    /// rounds, and a current row that is one of the six unless every row has
    /// been submitted. `update` keeps this for every message.
    pub open spec fn wf(&self) -> bool {
        &&& self.board.inputs.len() == ROWS
        &&& forall|i: int| 0 <= i < ROWS ==> (#[trigger] self.board.inputs@[i]).len() == COLS
        &&& self.board.colors.len() == ROWS
        &&& forall|i: int| 0 <= i < ROWS ==> (#[trigger] self.board.colors@[i]).len() == COLS
        &&& self.board.flip_flags.len() == ROWS
        &&& self.play.char_color.wf()
        &&& self.play.char_color.base() == 65
        &&& self.play.alphabet_color.len() >= 26
        &&& self.totals.words.wf()
        &&& self.totals.rounds >= 0
        &&& self.totals.total_round >= 0
        &&& self.totals.total_success >= 0
        &&& self.totals.total_success_rounds >= 0
        &&& self.board.current_row <= ROWS
        &&& self.board.current_row == ROWS ==> self.board.all_submitted
        &&& self.totals.total_success <= self.totals.total_round
    }

    /// The text of the current row.
    pub open spec fn current_text(&self) -> Seq<char> {
        row_text(self.board.inputs@[self.board.current_row as int]@)
    }

    /// The current row spells an acceptable word (compared in lower case)
    /// and holds only ASCII letters.
    pub open spec fn row_is_valid(&self) -> bool {
        &&& self.acceptable@.map_values(|x: String| x@).contains(spec_lowercase(self.current_text()))
        &&& forall|j: int, k: int|
            0 <= j < COLS && 0 <= k < self.board.inputs@[self.board.current_row as int]@[j]@.len()
                ==> is_ascii_letter(#[trigger] self.board.inputs@[self.board.current_row as int]@[j]@[k])
    }

    /// The colours of the current row against the answer.
    pub open spec fn row_colors(&self) -> Seq<Color> {
        score_spec(self.play.answer@, self.current_text())
    }

    /// The current row is taken: valid, and in difficult mode it follows the
    /// previous row's hints.
    pub open spec fn row_accepted(&self) -> bool {
        &&& self.row_is_valid()
        &&& (self.settings.is_difficult ==> difficult_ok(
            self.play.input@,
            self.current_text(),
            self.play.result@,
        ))
    }

    /// Every letter of the current row is green.
    pub open spec fn row_wins(&self) -> bool {
        forall|i: int| 0 <= i < self.row_colors().len() ==> #[trigger] self.row_colors()[i] == Color::Green
    }

    /// What entering the current row needs to go through without a panic
    /// or an overflow: a row to enter; and when the row is taken, at most
    /// five letters, counters below their limits, and when the round ends a
    /// day and a seed that are numbers.
    pub open spec fn can_enter(&self) -> bool {
        &&& self.board.current_row < ROWS
        &&& self.row_accepted() ==> {
            &&& self.current_text().len() <= COLS
            &&& count_of(self.totals.words@, self.current_text()) < i32::MAX
            &&& self.totals.rounds < i32::MAX
            &&& (self.row_wins() || self.board.current_row == 5) ==> {
                &&& self.totals.total_round < i32::MAX
                &&& spelled_number(self.settings.day@, false) matches Some(d) && d < usize::MAX
                &&& spelled_number(self.settings.seed@, false) matches Some(s) && s <= u64::MAX
            }
            &&& self.row_wins() ==> {
                &&& self.totals.total_success < i32::MAX
                &&& self.totals.total_success_rounds + self.totals.rounds + 1 <= i32::MAX
            }
        }
    }

    /// What `update` needs for `msg`.
    pub open spec fn can_update(&self, msg: Msg) -> bool {
        match msg {
            Msg::EnableNextRow => self.can_enter(),
            Msg::TriggerFlip(row) => row < ROWS,
            Msg::ResetFlip(row) => row < ROWS,
            _ => true,
        }
    }
}

/// `n` empty strings.
fn blank_cells(n: usize) -> (r: Vec<String>)
    ensures
        r.len() == n,
        all_blank(r@),
{
    let mut r: Vec<String> = Vec::new();
    let mut i: usize = 0;
    while i < n
        invariant
            i <= n,
            r.len() == i,
            all_blank(r@),
        decreases n - i,
    {
        r.push(String::new());
        i = i + 1;
    }
    r
}

/// Six rows of five empty boxes.
fn blank_inputs() -> (r: Vec<Vec<String>>)
    ensures
        r.len() == ROWS,
        forall|i: int| 0 <= i < ROWS ==> (#[trigger] r@[i]).len() == COLS && all_blank(r@[i]@),
{
    let mut r: Vec<Vec<String>> = Vec::new();
    let mut i: usize = 0;
    while i < ROWS
        invariant
            i <= ROWS,
            r.len() == i,
            forall|k: int| 0 <= k < i ==> (#[trigger] r@[k]).len() == COLS && all_blank(r@[k]@),
        decreases ROWS - i,
    {
        r.push(blank_cells(COLS));
        i = i + 1;
    }
    r
}

/// Six rows of five uncoloured boxes.
fn blank_colors() -> (r: Vec<Vec<Color>>)
    ensures
        r.len() == ROWS,
        forall|i: int|
            0 <= i < ROWS ==> (#[trigger] r@[i]).len() == COLS && forall|j: int|
                0 <= j < COLS ==> #[trigger] r@[i]@[j] == Color::Unknown,
{
    let mut r: Vec<Vec<Color>> = Vec::new();
    let mut i: usize = 0;
    while i < ROWS
        invariant
            i <= ROWS,
            r.len() == i,
            forall|k: int|
                0 <= k < i ==> (#[trigger] r@[k]).len() == COLS && forall|j: int|
                    0 <= j < COLS ==> #[trigger] r@[k]@[j] == Color::Unknown,
        decreases ROWS - i,
    {
        let mut row: Vec<Color> = Vec::new();
        let mut j: usize = 0;
        while j < COLS
            invariant
                j <= COLS,
                row.len() == j,
                forall|x: int| 0 <= x < j ==> #[trigger] row@[x] == Color::Unknown,
            decreases COLS - j,
        {
            row.push(Color::Unknown);
            j = j + 1;
        }
        r.push(row);
        i = i + 1;
    }
    r
}

/// `n` copies of `c`.
fn repeat_char(c: char, n: usize) -> (r: Vec<char>)
    ensures
        r@ == repeated(c, n as nat),
{
    let mut r: Vec<char> = Vec::new();
    let mut i: usize = 0;
    while i < n
        invariant
            i <= n,
            r@ == repeated(c, i as nat),
        decreases n - i,
    {
        r.push(c);
        i = i + 1;
        assert(r@ =~= repeated(c, i as nat));
    }
    r
}

/// `n` copies of `false`.
fn all_false(n: usize) -> (r: Vec<bool>)
    ensures
        r.len() == n,
        forall|i: int| 0 <= i < n ==> !(#[trigger] r@[i]),
{
    let mut r: Vec<bool> = Vec::new();
    let mut i: usize = 0;
    while i < n
        invariant
            i <= n,
            r.len() == i,
            forall|k: int| 0 <= k < i ==> !(#[trigger] r@[k]),
        decreases n - i,
    {
        r.push(false);
        i = i + 1;
    }
    r
}

/// The characters of the cells of a row, one after the other.
fn concat_cells(cells: &Vec<String>) -> (r: Vec<char>)
    ensures
        r@ == row_text(cells@),
{
    let mut r: Vec<char> = Vec::new();
    let mut i: usize = 0;
    while i < cells.len()
        invariant
            i <= cells.len(),
            r@ == row_text(cells@.take(i as int)),
        decreases cells.len() - i,
    {
        let mut c = chars_of(cells[i].as_str());
        proof {
            assert(cells@.take(i + 1).drop_last() =~= cells@.take(i as int));
        }
        r.append(&mut c);
        i = i + 1;
    }
    assert(cells@.take(cells.len() as int) =~= cells@);
    r
}

/// Whether every character of every cell is an ASCII letter.
fn cells_are_letters(cells: &Vec<String>) -> (r: bool)
    ensures
        r == forall|j: int, k: int|
            0 <= j < cells.len() && 0 <= k < cells@[j]@.len() ==> is_ascii_letter(
                #[trigger] cells@[j]@[k],
            ),
{
    let mut j: usize = 0;
    while j < cells.len()
        invariant
            j <= cells.len(),
            forall|a: int, k: int|
                0 <= a < j && 0 <= k < cells@[a]@.len() ==> is_ascii_letter(#[trigger] cells@[a]@[k]),
        decreases cells.len() - j,
    {
        let cs = chars_of(cells[j].as_str());
        let mut k: usize = 0;
        while k < cs.len()
            invariant
                k <= cs.len(),
                j < cells.len(),
                cs@ == cells@[j as int]@,
                forall|x: int| 0 <= x < k ==> is_ascii_letter(#[trigger] cs@[x]),
            decreases cs.len() - k,
        {
            let c = cs[k];
            if !(('A' <= c && c <= 'Z') || ('a' <= c && c <= 'z')) {
                assert(!is_ascii_letter(cells@[j as int]@[k as int]));
                return false;
            }
            k = k + 1;
        }
        j = j + 1;
    }
    true
}

/// The number the text spells, or `default` when it spells none that fits.
fn number_or(text: &String, limit: u64, default: u64) -> (r: u64)
    requires
        limit >= 9,
    ensures
        r == (match spelled_number(text@, false) {
            Some(n) => if n <= limit { n } else { default as int },
            None => default as int,
        }),
{
    let cs = chars_of(text.as_str());
    proof {
        crate::parse::lemma_spelled_nonneg(cs@);
    }
    match parse_unsigned(&cs, limit) {
        Some(v) => v,
        None => default,
    }
}

impl Model {
    /// The page when it opens: menu closed, easy mode, seed 114514, day
    /// 810, empty boxes, answer `TITAN`, nothing counted yet.
    pub fn create(acceptable: Vec<String>) -> (r: Model)
        ensures
            r.wf(),
            !r.settings.show_menu,
            !r.settings.is_difficult,
            r.settings.seed@ == "114514"@,
            r.settings.day@ == "810"@,
            forall|i: int| 0 <= i < ROWS ==> all_blank(#[trigger] r.board.inputs@[i]@),
            forall|i: int, j: int| 0 <= i < ROWS && 0 <= j < COLS ==> #[trigger] r.board.colors@[i]@[j] == Color::Unknown,
            r.board.current_row == 0,
            !r.board.all_submitted,
            forall|i: int| 0 <= i < ROWS ==> !(#[trigger] r.board.flip_flags@[i]),
            r.play.answer@ == "TITAN"@,
            r.play.result@ == Seq::<char>::empty(),
            r.play.input@ == Seq::<char>::empty(),
            !r.play.all_completed,
            r.play.alphabet_color@ == repeated('X', 32),
            r.play.char_color@ == Seq::new(26, |k: int| Color::Unknown),
            r.totals.total_round == 0,
            r.totals.total_success == 0,
            r.totals.rounds == 0,
            r.totals.total_success_rounds == 0,
            r.totals.words@ == Map::<Seq<char>, int>::empty(),
            r.acceptable == acceptable,
    {
        Model {
            settings: Settings {
                show_menu: false,
                is_difficult: false,
                seed: "114514".to_owned(),
                day: "810".to_owned(),
            },
            board: Board {
                inputs: blank_inputs(),
                colors: blank_colors(),
                current_row: 0,
                all_submitted: false,
                flip_flags: all_false(ROWS),
            },
            play: Play {
                answer: "TITAN".to_owned(),
                result: Vec::new(),
                input: Vec::new(),
                all_completed: false,
                alphabet_color: repeat_char('X', 32),
                char_color: Keyboard::uppercase(),
            },
            totals: Totals {
                total_round: 0,
                total_success: 0,
                rounds: 0,
                words: WordCounts::new(),
                total_success_rounds: 0,
            },
            acceptable,
        }
    }

    /// Replaces the answer (the page's reply to [`Effect::ChooseAnswer`]).
    pub fn set_answer(&mut self, answer: String)
        ensures
            final(self).play.answer == answer,
            final(self).settings == old(self).settings,
            final(self).board == old(self).board,
            final(self).totals == old(self).totals,
            final(self).acceptable == old(self).acceptable,
            final(self).play.result == old(self).play.result,
            final(self).play.input == old(self).play.input,
            final(self).play.all_completed == old(self).play.all_completed,
            final(self).play.alphabet_color == old(self).play.alphabet_color,
            final(self).play.char_color == old(self).play.char_color,
    {
        self.play.answer = answer;
    }
}

/// The marks of the current row.
pub open spec fn row_marks(m: Model) -> Seq<char> {
    m.row_colors().map_values(|c: Color| color_char(c))
}

/// The keyboard after the current row.
pub open spec fn row_keyboard(m: Model) -> Seq<Color> {
    keyboard_after(65, m.play.char_color@, m.current_text(), m.row_colors())
}

/// Entering the current row ends the round: it wins, or it was the last row.
pub open spec fn round_ends(m: Model) -> bool {
    m.row_wins() || m.board.current_row == 5
}

/// The row the cursor is on after scoring (the first one again after a lost
/// round).
pub open spec fn row_after_scoring(m: Model) -> usize {
    if !m.row_wins() && m.board.current_row == 5 {
        0
    } else {
        m.board.current_row
    }
}

/// Every box of row `r` holds something.
pub open spec fn row_filled(m: Model, r: int) -> bool {
    forall|j: int| 0 <= j < m.board.inputs@[r].len() ==> (#[trigger] m.board.inputs@[r]@[j])@.len() > 0
}

/// After scoring, the board moves on to the next row when the row the cursor
/// is on is filled.
pub open spec fn moves_on(m: Model) -> bool {
    !m.board.all_submitted && row_after_scoring(m) < ROWS && row_filled(m, row_after_scoring(m) as int)
}

/// The effects of entering an accepted row.
pub open spec fn enter_effects(m: Model) -> Seq<Effect> {
    let ending: Seq<Effect> = if round_ends(m) {
        seq![
            Effect::ChooseAnswer {
                day: (spelled_number(m.settings.day@, false)->0 + 1) as usize,
                seed: spelled_number(m.settings.seed@, false)->0 as u64,
            },
            if m.row_wins() {
                Effect::CelebrateThenReset
            } else {
                Effect::RevealThenReset(m.play.answer)
            },
        ]
    } else {
        Seq::empty()
    };
    if moves_on(m) {
        ending.push(Effect::Send(Msg::TriggerFlip(row_after_scoring(m))))
    } else {
        ending
    }
}

/// The model after an accepted row.
pub open spec fn entered(a: Model, b: Model) -> bool {
    let r0 = a.board.current_row as int;
    let text = a.current_text();
    let wins = a.row_wins();
    let ends = round_ends(a);
    let c1 = row_after_scoring(a);
    &&& b.acceptable == a.acceptable
    &&& b.settings.show_menu == a.settings.show_menu
    &&& b.settings.is_difficult == a.settings.is_difficult
    &&& b.settings.seed == a.settings.seed
    &&& b.settings.day@ == if ends {
        decimal_digits((spelled_number(a.settings.day@, false)->0 + 1) as nat)
    } else {
        a.settings.day@
    }
    &&& b.play.answer == a.play.answer
    &&& b.play.result@ == if ends { Seq::empty() } else { row_marks(a) }
    &&& b.play.input@ == if ends { Seq::empty() } else { text }
    &&& b.play.all_completed == if wins { true } else if ends { false } else { a.play.all_completed }
    &&& b.play.alphabet_color@ == row_keyboard(a).map_values(|c: Color| color_char(c))
    &&& b.play.char_color@ == row_keyboard(a)
    &&& b.totals.rounds == if ends { 0 } else { a.totals.rounds + 1 }
    &&& b.totals.total_round == a.totals.total_round + if ends { 1int } else { 0int }
    &&& b.totals.total_success == a.totals.total_success + if wins { 1int } else { 0int }
    &&& b.totals.total_success_rounds == a.totals.total_success_rounds + if wins { a.totals.rounds + 1 } else { 0int }
    &&& b.totals.words@ == a.totals.words@.insert(text, count_of(a.totals.words@, text) + 1)
    &&& b.board.inputs == a.board.inputs
    &&& b.board.flip_flags == a.board.flip_flags
    &&& forall|i: int, j: int| 0 <= i < ROWS && 0 <= j < COLS ==> #[trigger] b.board.colors@[i]@[j] == if i == r0 && j < text.len() {
        a.row_colors()[j]
    } else {
        a.board.colors@[i]@[j]
    }
    &&& b.board.current_row == if moves_on(a) { c1 + 1 } else { c1 as int }
    &&& b.board.all_submitted == (a.board.all_submitted || (moves_on(a) && c1 + 1 == ROWS))
}

impl Model {
    /// Enters the current row: refuses it (nothing changes) unless it is
    /// valid and, in difficult mode, follows the previous row's hints; else
    /// colours it, counts the word, updates the keyboard, ends the round on
    /// a win or on the last row, and moves on to the next row.
    fn enter_row(&mut self) -> (r: (bool, Vec<Effect>))
        requires
            old(self).wf(),
            old(self).can_enter(),
        ensures
            final(self).wf(),
            old(self).row_accepted() ==> r.0 && r.1@ == enter_effects(*old(self)) && entered(*old(self), *final(self)),
            !old(self).row_accepted() ==> !r.0 && r.1@ == Seq::<Effect>::empty() && *final(self) == *old(self),
    {
        let row = self.board.current_row;
        let text = concat_cells(&self.board.inputs[row]);
        let text_s = string_from_chars(&text);
        let lower = lowercase(text_s.as_str());
        if !contains_word(&self.acceptable, &lower) || !cells_are_letters(&self.board.inputs[row]) {
            return (false, Vec::new());
        }
        let answer = chars_of(self.play.answer.as_str());
        let colors = score_guess(&answer, &text);
        let mut kb = self.play.char_color.duplicate();
        kb.record(&text, &colors);
        if self.settings.is_difficult && !difficult_check(&self.play.input, &text, &self.play.result) {
            return (false, Vec::new());
        }
        let ghost a = *self;
        let alphabet = kb.letters();
        let mut marks: Vec<char> = Vec::new();
        let mut i: usize = 0;
        while i < colors.len()
            invariant
                i <= colors.len(),
                marks@ == colors@.take(i as int).map_values(|c: Color| color_char(c)),
            decreases colors.len() - i,
        {
            marks.push(color_letter(colors[i]));
            i = i + 1;
            assert(marks@ =~= colors@.take(i as int).map_values(|c: Color| color_char(c)));
        }
        assert(colors@.take(colors.len() as int) =~= colors@);
        self.totals.words.increment(&text_s);
        let mut new_row: Vec<Color> = Vec::new();
        let mut j: usize = 0;
        while j < COLS
            invariant
                j <= COLS,
                new_row.len() == j,
                colors.len() <= COLS,
                self.board.colors.len() == ROWS,
                row < ROWS,
                self.board.colors@[row as int].len() == COLS,
                forall|x: int| 0 <= x < j ==> #[trigger] new_row@[x] == if x < colors.len() {
                    colors@[x]
                } else {
                    self.board.colors@[row as int]@[x]
                },
            decreases COLS - j,
        {
            if j < colors.len() {
                new_row.push(colors[j]);
            } else {
                let c = self.board.colors[row][j];
                new_row.push(c);
            }
            j = j + 1;
        }
        self.board.colors.set(row, new_row);
        let mut all_green = true;
        let mut k: usize = 0;
        while k < colors.len()
            invariant
                k <= colors.len(),
                all_green == forall|x: int| 0 <= x < k ==> #[trigger] colors@[x] == Color::Green,
            decreases colors.len() - k,
        {
            if colors[k] != Color::Green {
                all_green = false;
            }
            k = k + 1;
        }
        self.play.result = marks;
        self.play.input = text;
        self.play.char_color = kb;
        self.totals.rounds = self.totals.rounds + 1;
        let mut effects: Vec<Effect> = Vec::new();
        if all_green || row == 5 {
            let day_chars = chars_of(self.settings.day.as_str());
            let seed_chars = chars_of(self.settings.seed.as_str());
            proof {
                crate::parse::lemma_spelled_nonneg(day_chars@);
                crate::parse::lemma_spelled_nonneg(seed_chars@);
            }
            let day = match parse_unsigned(&day_chars, usize::MAX as u64) {
                Some(d) => d as usize,
                None => 0,
            };
            let seed = match parse_unsigned(&seed_chars, u64::MAX) {
                Some(v) => v,
                None => 0,
            };
            let next_day = day + 1;
            self.settings.day = string_from_chars(&render_usize(next_day));
            effects.push(Effect::ChooseAnswer { day: next_day, seed });
            self.totals.total_round = self.totals.total_round + 1;
            if all_green {
                self.totals.total_success = self.totals.total_success + 1;
                self.totals.total_success_rounds = self.totals.total_success_rounds + self.totals.rounds;
                self.play.all_completed = true;
                effects.push(Effect::CelebrateThenReset);
            } else {
                effects.push(Effect::RevealThenReset(self.play.answer.clone()));
                self.board.current_row = 0;
                self.play.all_completed = false;
            }
            self.totals.rounds = 0;
            self.play.result = Vec::new();
            self.play.input = Vec::new();
        }
        self.play.alphabet_color = alphabet;
        let c1 = self.board.current_row;
        if !self.board.all_submitted && c1 < ROWS && row_is_filled(&self.board.inputs[c1]) {
            effects.push(Effect::Send(Msg::TriggerFlip(c1)));
            self.board.current_row = c1 + 1;
            if self.board.current_row == ROWS {
                self.board.all_submitted = true;
            }
        }
        (true, effects)
    }
}

/// Only the settings may differ.
pub open spec fn same_but_settings(a: Model, b: Model) -> bool {
    &&& b.board == a.board
    &&& b.play == a.play
    &&& b.totals == a.totals
    &&& b.acceptable == a.acceptable
}

/// Only the board may differ.
pub open spec fn same_but_board(a: Model, b: Model) -> bool {
    &&& b.settings == a.settings
    &&& b.play == a.play
    &&& b.totals == a.totals
    &&& b.acceptable == a.acceptable
}

/// The effects of typing into box (`row`, `col`), which now holds `up`: the
/// cursor moves back when the box was emptied, on when it holds one byte.
pub open spec fn typing_effects(row: usize, col: usize, up: Seq<char>) -> Seq<Effect> {
    if up.len() == 0 && col > 0 {
        seq![Effect::Send(Msg::FocusPrevious((row, (col - 1) as usize)))]
    } else if up.len() > 0 && crate::round::byte_len(up) == 1 && col < 4 {
        seq![Effect::Send(Msg::FocusNext((row, (col + 1) as usize)))]
    } else {
        Seq::empty()
    }
}

/// The model `b` and what `update` returned, after message `msg` on `a`.
pub open spec fn updated(a: Model, msg: Msg, b: Model, rerender: bool, effects: Seq<Effect>) -> bool {
    match msg {
        Msg::ToggleMenu => {
            &&& rerender && effects.len() == 0 && same_but_settings(a, b)
            &&& b.settings.show_menu == !a.settings.show_menu
            &&& b.settings.is_difficult == a.settings.is_difficult
            &&& b.settings.seed == a.settings.seed && b.settings.day == a.settings.day
        },
        Msg::SelectValue(v) => {
            &&& rerender && effects == seq![Effect::LogSelected(v)] && same_but_settings(a, b)
            &&& !b.settings.show_menu
            &&& b.settings.is_difficult == a.settings.is_difficult
            &&& b.settings.seed == a.settings.seed && b.settings.day == a.settings.day
        },
        Msg::ClickOutside => {
            &&& rerender && effects.len() == 0 && same_but_settings(a, b)
            &&& !b.settings.show_menu
            &&& b.settings.is_difficult == a.settings.is_difficult
            &&& b.settings.seed == a.settings.seed && b.settings.day == a.settings.day
        },
        Msg::_Clickwithnothing => rerender && effects.len() == 0 && b == a,
        Msg::DifficultCheck => {
            &&& rerender && effects.len() == 0 && same_but_settings(a, b)
            &&& b.settings.show_menu == a.settings.show_menu
            &&& b.settings.is_difficult == !a.settings.is_difficult
            &&& b.settings.seed == a.settings.seed && b.settings.day == a.settings.day
        },
        Msg::UpdateSeed(v) => {
            &&& rerender && same_but_settings(a, b)
            &&& effects == seq![Effect::ChooseAnswer {
                day: day_or_default(a.settings.day@) as usize,
                seed: seed_or_default(v@) as u64,
            }]
            &&& b.settings.show_menu == a.settings.show_menu
            &&& b.settings.is_difficult == a.settings.is_difficult
            &&& b.settings.seed == v && b.settings.day == a.settings.day
        },
        Msg::UpdateDay(v) => {
            &&& rerender && same_but_settings(a, b)
            &&& effects == seq![Effect::ChooseAnswer {
                day: day_or_default(v@) as usize,
                seed: seed_or_default(a.settings.seed@) as u64,
            }]
            &&& b.settings.show_menu == a.settings.show_menu
            &&& b.settings.is_difficult == a.settings.is_difficult
            &&& b.settings.seed == a.settings.seed && b.settings.day == v
        },
        Msg::UpdateInput(row, col, value) => {
            let up = spec_uppercase(value@);
            &&& rerender && same_but_board(a, b)
            &&& b.board.colors == a.board.colors
            &&& b.board.current_row == a.board.current_row
            &&& b.board.all_submitted == a.board.all_submitted
            &&& b.board.flip_flags == a.board.flip_flags
            &&& if row == a.board.current_row && !a.board.all_submitted && row < ROWS && col < COLS {
                &&& effects == typing_effects(row, col, up)
                &&& b.board.inputs.len() == ROWS
                &&& forall|i: int| 0 <= i < ROWS ==> (#[trigger] b.board.inputs@[i]).len() == COLS
                &&& forall|i: int, j: int| 0 <= i < ROWS && 0 <= j < COLS ==> (#[trigger] b.board.inputs@[i]@[j])@ == if i == row && j == col {
                    up
                } else {
                    a.board.inputs@[i]@[j]@
                }
            } else {
                effects.len() == 0 && b.board.inputs == a.board.inputs
            }
        },
        Msg::EnableNextRow => {
            &&& a.row_accepted() ==> rerender && effects == enter_effects(a) && entered(a, b)
            &&& !a.row_accepted() ==> !rerender && effects.len() == 0 && b == a
        },
        Msg::FocusNext((r, c)) => rerender && effects == seq![Effect::Focus(r, c)] && b == a,
        Msg::FocusPrevious((r, c)) => rerender && effects == seq![Effect::Focus(r, c)] && b == a,
        Msg::ClearRow(row) => {
            &&& rerender && effects.len() == 0 && same_but_board(a, b)
            &&& b.board.colors == a.board.colors
            &&& b.board.current_row == a.board.current_row
            &&& b.board.all_submitted == a.board.all_submitted
            &&& b.board.flip_flags == a.board.flip_flags
            &&& b.board.inputs.len() == ROWS
            &&& forall|i: int| 0 <= i < ROWS ==> (#[trigger] b.board.inputs@[i]).len() == COLS
            &&& forall|i: int, j: int| 0 <= i < ROWS && 0 <= j < COLS ==> (#[trigger] b.board.inputs@[i]@[j])@ == if i == row {
                Seq::<char>::empty()
            } else {
                a.board.inputs@[i]@[j]@
            }
        },
        Msg::Reset => {
            &&& rerender && effects.len() == 0
            &&& b.settings == a.settings && b.totals == a.totals && b.acceptable == a.acceptable
            &&& b.play.answer == a.play.answer && b.play.result == a.play.result && b.play.input == a.play.input
            &&& !b.play.all_completed
            &&& b.play.alphabet_color@ == repeated('X', 32)
            &&& b.play.char_color@ == Seq::new(26, |k: int| Color::Unknown)
            &&& forall|i: int| 0 <= i < ROWS ==> all_blank(#[trigger] b.board.inputs@[i]@)
            &&& forall|i: int, j: int| 0 <= i < ROWS && 0 <= j < COLS ==> #[trigger] b.board.colors@[i]@[j] == Color::Unknown
            &&& b.board.current_row == 0
            &&& !b.board.all_submitted
            &&& forall|i: int| 0 <= i < ROWS ==> !(#[trigger] b.board.flip_flags@[i])
        },
        Msg::TriggerFlip(row) => {
            &&& rerender && effects == seq![Effect::ResetFlipLater(row)] && same_but_board(a, b)
            &&& b.board.inputs == a.board.inputs && b.board.colors == a.board.colors
            &&& b.board.current_row == a.board.current_row && b.board.all_submitted == a.board.all_submitted
            &&& b.board.flip_flags@ == a.board.flip_flags@.update(row as int, true)
        },
        Msg::ResetFlip(row) => {
            &&& rerender && effects.len() == 0 && same_but_board(a, b)
            &&& b.board.inputs == a.board.inputs && b.board.colors == a.board.colors
            &&& b.board.current_row == a.board.current_row && b.board.all_submitted == a.board.all_submitted
            &&& b.board.flip_flags@ == a.board.flip_flags@.update(row as int, false)
        },
    }
}

impl Model {
    /// Handles one message: changes the model and says whether the page is to
    /// be drawn again and what else the page is to do.
    pub fn update(&mut self, msg: Msg) -> (r: (bool, Vec<Effect>))
        requires
            old(self).wf(),
            old(self).can_update(msg),
        ensures
            final(self).wf(),
            updated(*old(self), msg, *final(self), r.0, r.1@),
    {
        match msg {
            Msg::ToggleMenu => {
                self.settings.show_menu = !self.settings.show_menu;
                (true, Vec::new())
            },
            Msg::_Clickwithnothing => (true, Vec::new()),
            Msg::SelectValue(value) => {
                self.settings.show_menu = false;
                let mut effects = Vec::new();
                effects.push(Effect::LogSelected(value));
                (true, effects)
            },
            Msg::ClickOutside => {
                if self.settings.show_menu {
                    self.settings.show_menu = false;
                }
                (true, Vec::new())
            },
            Msg::DifficultCheck => {
                self.settings.is_difficult = !self.settings.is_difficult;
                (true, Vec::new())
            },
            Msg::UpdateSeed(value) => {
                self.settings.seed = value;
                let seed = number_or(&self.settings.seed, u64::MAX, DEFAULT_SEED);
                let day = number_or(&self.settings.day, usize::MAX as u64, DEFAULT_DAY as u64) as usize;
                let mut effects = Vec::new();
                effects.push(Effect::ChooseAnswer { day, seed });
                (true, effects)
            },
            Msg::UpdateDay(value) => {
                self.settings.day = value;
                let seed = number_or(&self.settings.seed, u64::MAX, DEFAULT_SEED);
                let day = number_or(&self.settings.day, usize::MAX as u64, DEFAULT_DAY as u64) as usize;
                let mut effects = Vec::new();
                effects.push(Effect::ChooseAnswer { day, seed });
                (true, effects)
            },
            Msg::UpdateInput(row, col, value) => {
                let up = uppercase(value.as_str());
                let mut effects = Vec::new();
                if row == self.board.current_row && !self.board.all_submitted && row < ROWS && col < COLS {
                    let is_empty = up.as_str().is_empty();
                    let one_byte = up.as_str().len() == 1;
                    let cells = replace_cell(&self.board.inputs[row], col, up);
                    self.board.inputs.set(row, cells);
                    if is_empty && col > 0 {
                        effects.push(Effect::Send(Msg::FocusPrevious((row, col - 1))));
                    } else if !is_empty && one_byte && col < 4 {
                        effects.push(Effect::Send(Msg::FocusNext((row, col + 1))));
                    }
                }
                (true, effects)
            },
            Msg::EnableNextRow => self.enter_row(),
            Msg::FocusNext((row, col)) => {
                let mut effects = Vec::new();
                effects.push(Effect::Focus(row, col));
                (true, effects)
            },
            Msg::FocusPrevious((row, col)) => {
                let mut effects = Vec::new();
                effects.push(Effect::Focus(row, col));
                (true, effects)
            },
            Msg::ClearRow(row) => {
                if row < ROWS {
                    self.board.inputs.set(row, blank_cells(COLS));
                }
                (true, Vec::new())
            },
            Msg::Reset => {
                self.play.alphabet_color = repeat_char('X', 32);
                self.play.all_completed = false;
                self.board.inputs = blank_inputs();
                self.board.colors = blank_colors();
                self.board.current_row = 0;
                self.board.all_submitted = false;
                self.play.char_color = Keyboard::uppercase();
                self.board.flip_flags = all_false(ROWS);
                (true, Vec::new())
            },
            Msg::TriggerFlip(row) => {
                self.board.flip_flags.set(row, true);
                let mut effects = Vec::new();
                effects.push(Effect::ResetFlipLater(row));
                (true, effects)
            },
            Msg::ResetFlip(row) => {
                self.board.flip_flags.set(row, false);
                (true, Vec::new())
            },
        }
    }
}

impl Model {
    /// Handles `msg` when `update` can take it (see [`Model::can_update`]),
    /// with the same result; otherwise leaves the page as it is and returns
    /// `None`.
    pub fn try_update(&mut self, msg: Msg) -> (r: Option<(bool, Vec<Effect>)>)
        requires
            old(self).wf(),
        ensures
            final(self).wf(),
            !old(self).can_update(msg) ==> r is None && *final(self) == *old(self),
            old(self).can_update(msg) ==> (r matches Some(p) && updated(*old(self), msg, *final(self), p.0, p.1@)),
    {
        if self.can_update_check(&msg) {
            Some(self.update(msg))
        } else {
            None
        }
    }
}

impl Model {
    /// Whether `update` may be called with `msg` (see [`Model::can_update`]).
    pub fn can_update_check(&self, msg: &Msg) -> (r: bool)
        requires
            self.wf(),
        ensures
            r == self.can_update(*msg),
    {
        match msg {
            Msg::EnableNextRow => self.can_enter_check(),
            Msg::TriggerFlip(row) => *row < ROWS,
            Msg::ResetFlip(row) => *row < ROWS,
            _ => true,
        }
    }

    /// Whether entering the current row can go through
    /// (see [`Model::can_enter`]).
    pub fn can_enter_check(&self) -> (r: bool)
        requires
            self.wf(),
        ensures
            r == self.can_enter(),
    {
        let row = self.board.current_row;
        if row >= ROWS {
            return false;
        }
        let text = concat_cells(&self.board.inputs[row]);
        let text_s = string_from_chars(&text);
        let lower = lowercase(text_s.as_str());
        let valid = contains_word(&self.acceptable, &lower) && cells_are_letters(&self.board.inputs[row]);
        let accepted = valid && (!self.settings.is_difficult || difficult_check(&self.play.input, &text, &self.play.result));
        if !accepted {
            return true;
        }
        let answer = chars_of(self.play.answer.as_str());
        let colors = score_guess(&answer, &text);
        let mut wins = true;
        let mut k: usize = 0;
        while k < colors.len()
            invariant
                k <= colors.len(),
                wins == forall|x: int| 0 <= x < k ==> #[trigger] colors@[x] == Color::Green,
            decreases colors.len() - k,
        {
            if colors[k] != Color::Green {
                wins = false;
            }
            k = k + 1;
        }
        if text.len() > COLS || self.totals.words.get(&text_s) >= i32::MAX || self.totals.rounds >= i32::MAX {
            return false;
        }
        if wins || row == 5 {
            if self.totals.total_round >= i32::MAX {
                return false;
            }
            let day_chars = chars_of(self.settings.day.as_str());
            let seed_chars = chars_of(self.settings.seed.as_str());
            proof {
                crate::parse::lemma_spelled_nonneg(day_chars@);
                crate::parse::lemma_spelled_nonneg(seed_chars@);
            }
            match parse_unsigned(&day_chars, usize::MAX as u64) {
                Some(d) => {
                    if d >= usize::MAX as u64 {
                        return false;
                    }
                },
                None => {
                    return false;
                },
            }
            match parse_unsigned(&seed_chars, u64::MAX) {
                Some(_) => {},
                None => {
                    return false;
                },
            }
        }
        if wins {
            if self.totals.total_success >= i32::MAX {
                return false;
            }
            if self.totals.total_success_rounds as i64 + self.totals.rounds as i64 + 1 > i32::MAX as i64 {
                return false;
            }
        }
        true
    }
}

/// The colour a keyboard mark stands for: `G`, `Y`, `R`, anything else
/// unknown.
pub open spec fn mark_color(c: char) -> Color {
    if c == 'G' {
        Color::Green
    } else if c == 'Y' {
        Color::Yellow
    } else if c == 'R' {
        Color::Red
    } else {
        Color::Unknown
    }
}

impl Model {
    /// The colour shown on the key of letter `key` (`A` to `Z`).
    pub fn key_color(&self, key: char) -> (r: Color)
        requires
            self.wf(),
            'A' <= key <= 'Z',
        ensures
            r == mark_color(self.play.alphabet_color@[(key as u32) - 65]),
    {
        let c = self.play.alphabet_color[(key as u32 - 65) as usize];
        if c == 'G' {
            Color::Green
        } else if c == 'Y' {
            Color::Yellow
        } else if c == 'R' {
            Color::Red
        } else {
            Color::Unknown
        }
    }
}

/// The row with box `col` replaced by `value`.
fn replace_cell(cells: &Vec<String>, col: usize, value: String) -> (r: Vec<String>)
    requires
        col < cells.len(),
    ensures
        r.len() == cells.len(),
        forall|j: int| 0 <= j < cells.len() ==> (#[trigger] r@[j])@ == if j == col {
            value@
        } else {
            cells@[j]@
        },
{
    let mut r: Vec<String> = Vec::new();
    let mut j: usize = 0;
    while j < cells.len()
        invariant
            j <= cells.len(),
            r.len() == j,
            col < cells.len(),
            forall|x: int| 0 <= x < j ==> (#[trigger] r@[x])@ == if x == col {
                value@
            } else {
                cells@[x]@
            },
        decreases cells.len() - j,
    {
        if j == col {
            r.push(value.clone());
        } else {
            r.push(cells[j].clone());
        }
        j = j + 1;
    }
    r
}

/// Whether every box of a row holds something.
fn row_is_filled(cells: &Vec<String>) -> (r: bool)
    ensures
        r == forall|j: int| 0 <= j < cells.len() ==> (#[trigger] cells@[j])@.len() > 0,
{
    let mut j: usize = 0;
    while j < cells.len()
        invariant
            j <= cells.len(),
            forall|x: int| 0 <= x < j ==> (#[trigger] cells@[x])@.len() > 0,
        decreases cells.len() - j,
    {
        if cells[j].as_str().is_empty() {
            return false;
        }
        j = j + 1;
    }
    true
}

} // verus!
