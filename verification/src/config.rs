//! The settings of the terminal game.
use vstd::prelude::*;

verus! {

/// The seed of the default settings.
pub const TTY_DEFAULT_SEED: i32 = 42;

/// The day of the default settings.
pub const TTY_DEFAULT_DAY: usize = 1;

/// The settings of the terminal game; an empty path or word means none.
#[derive(Clone, Debug)]
pub struct Config {
    pub random: Option<bool>,
    pub difficult: Option<bool>,
    pub stats: Option<bool>,
    pub day: Option<usize>,
    pub seed: Option<i32>,
    pub final_set: Option<String>,
    pub acceptable_set: Option<String>,
    pub state: Option<String>,
    pub word: Option<String>,
}

impl Config {
    /// The settings used when no configuration file can be read: every mode
    /// off, day 1, seed 42, no word lists, no state file, no fixed word.
    pub fn tty_default() -> (r: Config)
        ensures
            r.random == Some(false),
            r.difficult == Some(false),
            r.stats == Some(false),
            r.day == Some(1usize),
            r.seed == Some(42i32),
            r.final_set matches Some(s) && s@ == Seq::<char>::empty(),
            r.acceptable_set matches Some(s) && s@ == Seq::<char>::empty(),
            r.state matches Some(s) && s@ == Seq::<char>::empty(),
            r.word matches Some(s) && s@ == Seq::<char>::empty(),
    {
        Config {
            random: Some(false),
            difficult: Some(false),
            stats: Some(false),
            day: Some(TTY_DEFAULT_DAY),
            seed: Some(TTY_DEFAULT_SEED),
            final_set: Some(String::new()),
            acceptable_set: Some(String::new()),
            state: Some(String::new()),
            word: Some(String::new()),
        }
    }
}

} // verus!
