//! What the terminal game makes of the lines typed at its prompts.
use vstd::prelude::*;
use crate::parse::{parse_i32, parse_unsigned, spelled_number, trim, trimmed};
use crate::config::{TTY_DEFAULT_DAY, TTY_DEFAULT_SEED};
use crate::text::chars_of;

verus! {

/// A command typed on the start screen.
#[derive(Clone, Copy, Debug, PartialEq, Eq, Structural)]
pub enum Command {
    /// `--help`: show the help text.
    Help,
    /// `--set`: walk through the settings.
    Settings,
    /// An empty line: start the game.
    Start,
    /// Anything else.
    Unknown,
}

/// Whether the characters `v` are those of `lit`.
pub fn same_text(v: &Vec<char>, lit: &str) -> (r: bool)
    ensures
        r == (v@ == lit@),
{
    let w = chars_of(lit);
    if v.len() != w.len() {
        return false;
    }
    let mut i: usize = 0;
    while i < v.len()
        invariant
            i <= v.len(),
            v.len() == w.len(),
            w@ == lit@,
            forall|j: int| 0 <= j < i ==> v@[j] == w@[j],
        decreases v.len() - i,
    {
        if v[i] != w[i] {
            assert(v@[i as int] != w@[i as int]);
            return false;
        }
        i = i + 1;
    }
    assert(v@ =~= w@);
    true
}

/// The command on a line of the start screen, read without surrounding white
/// space.
pub fn parse_command(line: &str) -> (r: Command)
    ensures
        r == (if trimmed(line@) == "--help"@ {
            Command::Help
        } else if trimmed(line@) == "--set"@ {
            Command::Settings
        } else if trimmed(line@) == ""@ {
            Command::Start
        } else {
            Command::Unknown
        }),
{
    let t = trim(&chars_of(line));
    if same_text(&t, "--help") {
        Command::Help
    } else if same_text(&t, "--set") {
        Command::Settings
    } else if same_text(&t, "") {
        Command::Start
    } else {
        Command::Unknown
    }
}

/// The answer to a yes/no setting: `y` or `Y` turns it on, an empty line
/// leaves it off, anything else is not understood (`None`).
pub fn parse_yes_no(line: &str) -> (r: Option<bool>)
    ensures
        r == (if trimmed(line@) == "y"@ || trimmed(line@) == "Y"@ {
            Some(true)
        } else if trimmed(line@) == ""@ {
            Some(false)
        } else {
            None
        }),
{
    let t = trim(&chars_of(line));
    if same_text(&t, "y") || same_text(&t, "Y") {
        Some(true)
    } else if same_text(&t, "") {
        Some(false)
    } else {
        None
    }
}

/// The answer to the day setting: an empty line keeps the default day (1),
/// else the number the line spells (`None` when it spells no `usize`).
pub fn parse_day(line: &str) -> (r: Option<usize>)
    ensures
        trimmed(line@).len() == 0 ==> r == Some(TTY_DEFAULT_DAY),
        trimmed(line@).len() > 0 ==> r == (match spelled_number(trimmed(line@), false) {
            Some(n) => if n <= usize::MAX {
                Some(n as usize)
            } else {
                None
            },
            None => None,
        }),
{
    let t = trim(&chars_of(line));
    if t.len() == 0 {
        return Some(TTY_DEFAULT_DAY);
    }
    proof {
        crate::parse::lemma_spelled_nonneg(t@);
    }
    match parse_unsigned(&t, usize::MAX as u64) {
        Some(v) => Some(v as usize),
        None => None,
    }
}

/// The answer to the seed setting: an empty line keeps the default seed
/// (42), else the number the line spells (`None` when it spells no `i32`).
pub fn parse_seed(line: &str) -> (r: Option<i32>)
    ensures
        trimmed(line@).len() == 0 ==> r == Some(TTY_DEFAULT_SEED),
        trimmed(line@).len() > 0 ==> r == (match spelled_number(trimmed(line@), true) {
            Some(n) => if i32::MIN <= n <= i32::MAX {
                Some(n as i32)
            } else {
                None
            },
            None => None,
        }),
{
    let t = trim(&chars_of(line));
    if t.len() == 0 {
        return Some(TTY_DEFAULT_SEED);
    }
    parse_i32(&t)
}

/// A line without white space at either end (a path or a word typed at a
/// prompt).
pub fn trimmed_text(line: &str) -> (r: String)
    ensures
        r@ == trimmed(line@),
{
    crate::text::string_from_chars(&trim(&chars_of(line)))
}

/// The answer to "another round?": the player stops with `N` or `n`, alone
/// or followed by a line break.
pub fn wants_to_stop(line: &str) -> (r: bool)
    ensures
        r == (line@ == "N\n"@ || line@ == "n\n"@ || line@ == "N"@ || line@ == "n"@),
{
    let v = chars_of(line);
    same_text(&v, "N\n") || same_text(&v, "n\n") || same_text(&v, "N") || same_text(&v, "n")
}

/// Whether every word of `words` is in `set`.
pub fn is_subset(words: &Vec<String>, set: &Vec<String>) -> (r: bool)
    ensures
        r == forall|i: int|
            0 <= i < words.len() ==> set@.map_values(|x: String| x@).contains(#[trigger] words@[i]@),
{
    let mut i: usize = 0;
    while i < words.len()
        invariant
            i <= words.len(),
            forall|j: int|
                0 <= j < i ==> set@.map_values(|x: String| x@).contains(#[trigger] words@[j]@),
        decreases words.len() - i,
    {
        if !crate::text::contains_word(set, &words[i]) {
            return false;
        }
        i = i + 1;
    }
    true
}

} // verus!
