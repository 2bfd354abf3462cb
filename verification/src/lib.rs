//! Wordle: guess a hidden word in six tries.
//!
//! Each guess is coloured letter by letter (green: right place, yellow:
//! elsewhere in the word, red: not in it, or no copy left), and an alphabet
//! keeps the best colour each letter has had. The game runs in a terminal,
//! one round after another with statistics, or in the browser.
//!
//! - [`score`]: colouring a guess; [`keyboard`]: the alphabet of best colours.
//! - [`difficult`]: the rule that difficult mode puts on the next guess.
//! - [`round`]: one round as a state machine over the lines typed.
//! - [`counts`], [`stats`]: word use, ranking, and the statistics shown.
//! - [`parse`], [`prompts`], [`config`], [`settings`]: the terminal's prompts
//!   and settings dialogue.
//! - [`app`]: the browser page as a state machine over page events.
//! - [`builtin_words`]: the built-in words.
//! - [`laws`]: properties that hold across these.
pub mod app;
pub mod builtin_words;
pub mod config;
pub mod counts;
pub mod difficult;
pub mod keyboard;
pub mod laws;
pub mod parse;
pub mod prompts;
pub mod round;
pub mod score;
pub mod settings;
pub mod stats;
pub mod text;
