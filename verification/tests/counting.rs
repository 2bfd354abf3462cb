use wordle::counts::{lex_less, WordCounts};
use wordle::stats::{saved_game_won, summarize, summary_fits_check, SavedGame, SavedState, Tally};

fn s(x: &str) -> String {
    x.to_string()
}

fn counts_of(list: &[&str]) -> WordCounts {
    let mut c = WordCounts::new();
    for w in list {
        c.increment(&s(w));
    }
    c
}

#[test]
fn increments_and_gets() {
    let mut c = WordCounts::new();
    assert_eq!(c.get(&s("crane")), 0);
    c.increment(&s("crane"));
    c.increment(&s("crane"));
    c.add(&s("slate"), 5);
    assert_eq!(c.get(&s("crane")), 2);
    assert_eq!(c.get(&s("slate")), 5);
}

#[test]
fn ranking_by_uses_then_word() {
    let c = counts_of(&["beta", "alpha", "gamma", "beta", "delta", "gamma"]);
    let r = c.ranked();
    let names: Vec<&str> = r.iter().map(|(w, _)| w.as_str()).collect();
    assert_eq!(names, vec!["beta", "gamma", "alpha", "delta"]);
    assert_eq!(r[0].1, 2);
    assert_eq!(r[3].1, 1);
}

#[test]
fn top_takes_at_most_n() {
    let c = counts_of(&["a", "b", "c", "d", "e", "f", "f"]);
    let t = c.top(5);
    assert_eq!(t.len(), 5);
    assert_eq!(t[0], (s("f"), 2));
    assert_eq!(t[4], (s("d"), 1));
    assert_eq!(counts_of(&["x"]).top(5).len(), 1);
}

#[test]
fn character_order() {
    let v = |x: &str| x.chars().collect::<Vec<char>>();
    assert!(lex_less(&v("abc"), &v("abd")));
    assert!(lex_less(&v("ab"), &v("abc")));
    assert!(!lex_less(&v("abc"), &v("abc")));
    assert!(!lex_less(&v("b"), &v("abc")));
}

#[test]
fn summary_without_saved_rounds() {
    let c = counts_of(&["crane", "crane", "slate"]);
    let saved = SavedState { total_rounds: None, games: None };
    assert!(summary_fits_check(1, 2, 3, &c, false, &saved));
    let sum = summarize(1, 2, 3, &c, false, &saved);
    assert_eq!((sum.success, sum.played, sum.success_rounds), (1, 2, 3));
    assert_eq!(sum.top, vec![(s("CRANE"), 2), (s("SLATE"), 1)]);
}

#[test]
fn summary_with_saved_rounds() {
    let c = counts_of(&["crane"]);
    let saved = SavedState {
        total_rounds: Some(3),
        games: Some(vec![
            SavedGame { answer: Some(s("CRANE")), guesses: Some(vec![s("SLATE"), s("CRANE")]) },
            SavedGame { answer: None, guesses: Some(vec![s("SLATE")]) },
            SavedGame { answer: Some(s("HELLO")), guesses: None },
        ]),
    };
    let sum = summarize(1, 1, 2, &c, true, &saved);
    assert_eq!(sum.played, 4);
    assert_eq!(sum.success, 2);
    assert_eq!(sum.success_rounds, 4);
    assert_eq!(sum.top, vec![(s("CRANE"), 2), (s("SLATE"), 2)]);
    // Not asked for: the saved rounds are left out.
    let sum = summarize(1, 1, 2, &c, false, &saved);
    assert_eq!(sum.played, 1);
    assert_eq!(sum.top, vec![(s("CRANE"), 1)]);
}

#[test]
fn summary_refuses_overflow() {
    let c = counts_of(&["crane"]);
    let saved = SavedState { total_rounds: None, games: Some(vec![SavedGame { answer: None, guesses: None }]) };
    assert!(!summary_fits_check(0, i32::MAX, 0, &c, true, &saved));
    assert!(summary_fits_check(0, i32::MAX, 0, &c, false, &saved));
}

#[test]
fn merged_upper_case_words_add_up() {
    let c = counts_of(&["crane", "CRANE", "Crane"]);
    let saved = SavedState { total_rounds: None, games: None };
    let sum = summarize(0, 0, 0, &c, false, &saved);
    assert_eq!(sum.top, vec![(s("CRANE"), 3)]);
}

#[test]
fn tally_counts_rounds() {
    let mut t = Tally::new();
    t.record(3);
    t.record(0);
    t.record(5);
    assert_eq!((t.played, t.success, t.success_rounds), (3, 2, 8));
}

#[test]
fn recorded_round_joins_the_statistics() {
    let mut saved = SavedState::new();
    saved.record_game(s("CRANE"), vec![s("SLATE"), s("CRANE")]);
    saved.record_game(s("HELLO"), vec![s("HELLO")]);
    assert_eq!(saved.total_rounds, Some(2));
    assert_eq!(saved.games.as_ref().map(|g| g.len()), Some(2));
    let sum = summarize(0, 0, 0, &WordCounts::new(), true, &saved);
    assert_eq!((sum.played, sum.success, sum.success_rounds), (2, 2, 3));
    let mut empty = SavedState { total_rounds: None, games: None };
    empty.record_game(s("X"), vec![]);
    assert_eq!(empty.total_rounds, Some(1));
}

#[test]
fn saved_lost_round_is_played_not_won() {
    let saved = SavedState {
        total_rounds: Some(2),
        games: Some(vec![
            SavedGame { answer: Some(s("apple")), guesses: Some(vec![s("crane")]) },
            SavedGame { answer: Some(s("crane")), guesses: Some(vec![s("slate"), s("CRANE")]) },
        ]),
    };
    assert!(!saved_game_won(&saved.games.as_ref().unwrap()[0]));
    assert!(saved_game_won(&saved.games.as_ref().unwrap()[1]));
    assert!(summary_fits_check(0, 0, 0, &WordCounts::new(), true, &saved));
    let sum = summarize(0, 0, 0, &WordCounts::new(), true, &saved);
    assert_eq!((sum.played, sum.success, sum.success_rounds), (2, 1, 2));
    // Saved guesses are counted as they were written.
    assert_eq!(sum.top, vec![(s("CRANE"), 1), (s("crane"), 1), (s("slate"), 1)]);
}

#[test]
fn summary_bounds_each_word_count() {
    let mut c = WordCounts::new();
    c.add(&s("crane"), i32::MAX);
    c.add(&s("slate"), i32::MAX);
    let saved = SavedState { total_rounds: None, games: None };
    assert!(summary_fits_check(0, 0, 0, &c, false, &saved));
    let sum = summarize(0, 0, 0, &c, false, &saved);
    assert_eq!(sum.top, vec![(s("CRANE"), i32::MAX), (s("SLATE"), i32::MAX)]);
    // "crane" and "CRANE" merge into one count beyond `i32`.
    c.add(&s("CRANE"), 1);
    assert!(!summary_fits_check(0, 0, 0, &c, false, &saved));
    // A saved guess that would push a count beyond `i32`.
    let mut d = WordCounts::new();
    d.add(&s("CRANE"), i32::MAX);
    let saved = SavedState {
        total_rounds: Some(1),
        games: Some(vec![SavedGame { answer: Some(s("CRANE")), guesses: Some(vec![s("CRANE")]) }]),
    };
    assert!(summary_fits_check(0, 0, 0, &d, false, &saved));
    assert!(!summary_fits_check(0, 0, 0, &d, true, &saved));
}
