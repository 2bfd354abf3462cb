//! The settings dialogue of the terminal game: one prompt after another,
//! each answered by one line. Enter keeps the default of a setting.
//!
//! [`SettingsDialog::answer`] takes the line typed at the current prompt and
//! says what to print next; the terminal asks again at the same prompt when
//! the answer was not understood.
use vstd::prelude::*;
use crate::config::Config;
use crate::parse::{spelled_number, trimmed};
use crate::prompts::{parse_day, parse_seed, parse_yes_no, trimmed_text};
use crate::config::{TTY_DEFAULT_DAY, TTY_DEFAULT_SEED};

verus! {

/// The prompt the dialogue is at.
#[derive(Clone, Copy, Debug, PartialEq, Eq, Structural)]
pub enum Step {
    Random,
    Difficult,
    Stats,
    Day,
    Seed,
    FinalSet,
    AcceptableSet,
    State,
    Word,
    /// Every setting has been answered.
    Done,
}

/// What the terminal prints after an answer.
#[derive(Clone, Copy, Debug, PartialEq, Eq, Structural)]
pub enum Reply {
    /// The answer was taken: go on to the next prompt (or finish).
    Next,
    /// A yes/no answer that is neither `y`, `Y` nor empty.
    NotUnderstood,
    /// A day or seed that is not a number.
    BadNumber,
    /// A path that names nothing.
    BadPath,
}

/// The prompt after `s`.
pub open spec fn next_step(s: Step) -> Step {
    match s {
        Step::Random => Step::Difficult,
        Step::Difficult => Step::Stats,
        Step::Stats => Step::Day,
        Step::Day => Step::Seed,
        Step::Seed => Step::FinalSet,
        Step::FinalSet => Step::AcceptableSet,
        Step::AcceptableSet => Step::State,
        Step::State => Step::Word,
        Step::Word => Step::Done,
        Step::Done => Step::Done,
    }
}

/// `b` has the settings of `a` but the one that `s` asks for.
pub open spec fn keeps_others(a: Config, b: Config, s: Step) -> bool {
    &&& s != Step::Random ==> b.random == a.random
    &&& s != Step::Difficult ==> b.difficult == a.difficult
    &&& s != Step::Stats ==> b.stats == a.stats
    &&& s != Step::Day ==> b.day == a.day
    &&& s != Step::Seed ==> b.seed == a.seed
    &&& s != Step::FinalSet ==> b.final_set == a.final_set
    &&& s != Step::AcceptableSet ==> b.acceptable_set == a.acceptable_set
    &&& s != Step::State ==> b.state == a.state
    &&& s != Step::Word ==> b.word == a.word
}

/// The answer to a yes/no prompt: `y`/`Y` on, empty off.
pub open spec fn yes_no_of(line: Seq<char>) -> Option<bool> {
    if trimmed(line) == "y"@ || trimmed(line) == "Y"@ {
        Some(true)
    } else if trimmed(line) == ""@ {
        Some(false)
    } else {
        None
    }
}

/// The answer to the day prompt.
pub open spec fn day_of(line: Seq<char>) -> Option<usize> {
    if trimmed(line).len() == 0 {
        Some(TTY_DEFAULT_DAY)
    } else {
        match spelled_number(trimmed(line), false) {
            Some(n) => if n <= usize::MAX { Some(n as usize) } else { None },
            None => None,
        }
    }
}

/// The answer to the seed prompt.
pub open spec fn seed_of(line: Seq<char>) -> Option<i32> {
    if trimmed(line).len() == 0 {
        Some(TTY_DEFAULT_SEED)
    } else {
        match spelled_number(trimmed(line), true) {
            Some(n) => if i32::MIN <= n <= i32::MAX { Some(n as i32) } else { None },
            None => None,
        }
    }
}

/// A yes/no setting.
pub open spec fn flag_of(c: Config, s: Step) -> Option<bool> {
    match s {
        Step::Random => c.random,
        Step::Difficult => c.difficult,
        _ => c.stats,
    }
}

/// A path or word setting.
pub open spec fn text_of(c: Config, s: Step) -> Option<String> {
    match s {
        Step::FinalSet => c.final_set,
        Step::AcceptableSet => c.acceptable_set,
        Step::State => c.state,
        _ => c.word,
    }
}

/// What answering `line` (with `path_exists` for a path prompt) does to the
/// dialogue `a`: `b` is the dialogue after it and `r` the reply.
pub open spec fn answered(a: SettingsDialog, line: Seq<char>, path_exists: bool, b: SettingsDialog, r: Reply) -> bool {
    let s = a.step;
    let t = trimmed(line);
    &&& keeps_others(a.config, b.config, s)
    &&& r == Reply::Next ==> b.step == next_step(s)
    &&& r != Reply::Next ==> b.step == s && b.config == a.config
    &&& (s == Step::Random || s == Step::Difficult || s == Step::Stats) ==> match yes_no_of(line) {
        Some(x) => r == Reply::Next && flag_of(b.config, s) == Some(x),
        None => r == Reply::NotUnderstood,
    }
    &&& s == Step::Day ==> match day_of(line) {
        Some(d) => r == Reply::Next && b.config.day == Some(d),
        None => r == Reply::BadNumber,
    }
    &&& s == Step::Seed ==> match seed_of(line) {
        Some(n) => r == Reply::Next && b.config.seed == Some(n),
        None => r == Reply::BadNumber,
    }
    &&& (s == Step::FinalSet || s == Step::AcceptableSet || s == Step::State) ==> if t.len() == 0
        || path_exists {
        r == Reply::Next && (text_of(b.config, s) matches Some(p) && p@ == t)
    } else {
        r == Reply::BadPath
    }
    &&& s == Step::Word ==> r == Reply::Next && (b.config.word matches Some(w) && w@ == t)
}

/// The settings dialogue.
pub struct SettingsDialog {
    pub step: Step,
    pub config: Config,
}

impl SettingsDialog {
    /// A dialogue at the first prompt, starting from the default settings.
    pub fn new() -> (r: SettingsDialog)
        ensures
            r.step == Step::Random,
            r.config.random == Some(false),
            r.config.difficult == Some(false),
            r.config.stats == Some(false),
            r.config.day == Some(TTY_DEFAULT_DAY),
            r.config.seed == Some(TTY_DEFAULT_SEED),
            r.config.final_set matches Some(s) && s@ == Seq::<char>::empty(),
            r.config.acceptable_set matches Some(s) && s@ == Seq::<char>::empty(),
            r.config.state matches Some(s) && s@ == Seq::<char>::empty(),
            r.config.word matches Some(s) && s@ == Seq::<char>::empty(),
    {
        SettingsDialog { step: Step::Random, config: Config::tty_default() }
    }

    /// Whether the current prompt asks for a path.
    pub fn asks_path(&self) -> (r: bool)
        ensures
            r == (self.step == Step::FinalSet || self.step == Step::AcceptableSet || self.step
                == Step::State),
    {
        match self.step {
            Step::FinalSet | Step::AcceptableSet | Step::State => true,
            _ => false,
        }
    }

    /// Takes `line`, typed at the current prompt. For a path prompt,
    /// `path_exists` says whether the line, without surrounding white space,
    /// names something that exists. A taken answer sets its setting (Enter
    /// keeps the default) and moves on; any other leaves the dialogue as it is.
    pub fn answer(&mut self, line: &str, path_exists: bool) -> (r: Reply)
        requires
            old(self).step != Step::Done,
        ensures
            answered(*old(self), line@, path_exists, *final(self), r),
    {
        match self.step {
            Step::Random => match parse_yes_no(line) {
                Some(b) => {
                    self.config.random = Some(b);
                    self.step = Step::Difficult;
                    Reply::Next
                },
                None => Reply::NotUnderstood,
            },
            Step::Difficult => match parse_yes_no(line) {
                Some(b) => {
                    self.config.difficult = Some(b);
                    self.step = Step::Stats;
                    Reply::Next
                },
                None => Reply::NotUnderstood,
            },
            Step::Stats => match parse_yes_no(line) {
                Some(b) => {
                    self.config.stats = Some(b);
                    self.step = Step::Day;
                    Reply::Next
                },
                None => Reply::NotUnderstood,
            },
            Step::Day => match parse_day(line) {
                Some(d) => {
                    self.config.day = Some(d);
                    self.step = Step::Seed;
                    Reply::Next
                },
                None => Reply::BadNumber,
            },
            Step::Seed => match parse_seed(line) {
                Some(n) => {
                    self.config.seed = Some(n);
                    self.step = Step::FinalSet;
                    Reply::Next
                },
                None => Reply::BadNumber,
            },
            Step::FinalSet => {
                let t = trimmed_text(line);
                if t.as_str().is_empty() || path_exists {
                    self.config.final_set = Some(t);
                    self.step = Step::AcceptableSet;
                    Reply::Next
                } else {
                    Reply::BadPath
                }
            },
            Step::AcceptableSet => {
                let t = trimmed_text(line);
                if t.as_str().is_empty() || path_exists {
                    self.config.acceptable_set = Some(t);
                    self.step = Step::State;
                    Reply::Next
                } else {
                    Reply::BadPath
                }
            },
            Step::State => {
                let t = trimmed_text(line);
                if t.as_str().is_empty() || path_exists {
                    self.config.state = Some(t);
                    self.step = Step::Word;
                    Reply::Next
                } else {
                    Reply::BadPath
                }
            },
            Step::Word => {
                let t = trimmed_text(line);
                self.config.word = Some(t);
                self.step = Step::Done;
                Reply::Next
            },
            Step::Done => Reply::Next,
        }
    }
}

} // verus!
