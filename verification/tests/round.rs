use wordle::counts::WordCounts;
use wordle::round::{Feedback, Round};
use wordle::score::Color;

fn words(list: &[&str]) -> Vec<String> {
    list.iter().map(|s| s.to_string()).collect()
}

fn s(x: &str) -> String {
    x.to_string()
}

fn line_of(f: &Feedback) -> String {
    match f {
        Feedback::Scored { line, .. } => line.iter().collect(),
        Feedback::Invalid => panic!("expected a scored guess"),
    }
}

#[test]
fn refuses_wrong_length_and_unknown_words() {
    let acc = words(&["hello", "world", "crane"]);
    let mut r = Round::new(&s("hello"), false, WordCounts::new());
    assert!(matches!(r.submit(&s("hell"), &acc), Feedback::Invalid));
    assert!(matches!(r.submit(&s("abcde"), &acc), Feedback::Invalid));
    assert!(!r.is_over());
    let (n, guesses, counts) = r.finish();
    assert_eq!(n, 0);
    assert!(guesses.is_empty());
    assert_eq!(counts.get(&s("abcde")), 0);
}

#[test]
fn winning_guess_line() {
    let acc = words(&["hello", "world"]);
    let mut r = Round::new(&s("hello"), false, WordCounts::new());
    let f = r.submit(&s("world"), &acc);
    assert_eq!(line_of(&f), "RYRGR XXXRXXXXXXXGXXYXXRXXXXRXXX");
    assert!(!r.is_over());
    let f = r.submit(&s("hello"), &acc);
    match &f {
        Feedback::Scored { colors, .. } => assert!(colors.iter().all(|c| *c == Color::Green)),
        Feedback::Invalid => panic!("accepted word refused"),
    }
    assert!(r.is_over());
    let (n, guesses, counts) = r.finish();
    assert_eq!(n, 2);
    assert_eq!(guesses, words(&["WORLD", "HELLO"]));
    assert_eq!(counts.get(&s("hello")), 1);
    assert_eq!(counts.get(&s("world")), 1);
}

#[test]
fn six_misses_lose() {
    let acc = words(&["hello", "world"]);
    let mut r = Round::new(&s("hello"), false, WordCounts::new());
    for _ in 0..6 {
        assert!(!r.is_over());
        assert!(matches!(r.submit(&s("world"), &acc), Feedback::Scored { .. }));
    }
    assert!(r.is_over());
    let (n, guesses, counts) = r.finish();
    assert_eq!(n, 0);
    assert_eq!(guesses.len(), 6);
    assert_eq!(counts.get(&s("world")), 6);
}

#[test]
fn difficult_mode_refuses_dropped_hint() {
    let acc = words(&["crane", "boric", "bonus", "crone"]);
    let mut r = Round::new(&s("crone"), true, WordCounts::new());
    assert!(matches!(r.submit(&s("crane"), &acc), Feedback::Scored { .. }));
    // c, r, n, e are green: "bonus" drops them.
    assert!(matches!(r.submit(&s("bonus"), &acc), Feedback::Invalid));
    assert!(matches!(r.submit(&s("crone"), &acc), Feedback::Scored { .. }));
    assert!(r.is_over());
    assert_eq!(r.finish().0, 2);
}

#[test]
fn short_answer_never_wins() {
    let acc = words(&["abc"]);
    let mut r = Round::new(&s("abc"), false, WordCounts::new());
    let f = r.submit(&s("abc"), &acc);
    match &f {
        Feedback::Scored { colors, line } => {
            assert_eq!(colors.len(), 3);
            assert_eq!(line.len(), 30);
        }
        Feedback::Invalid => panic!("refused"),
    }
    assert!(!r.is_over());
}

#[test]
fn counts_carry_over_rounds() {
    let acc = words(&["hello", "world"]);
    let mut r = Round::new(&s("hello"), false, WordCounts::new());
    r.submit(&s("hello"), &acc);
    let (_, _, counts) = r.finish();
    let mut r2 = Round::new(&s("world"), false, counts);
    assert_eq!(r2.count_of(&s("hello")), 1);
    r2.submit(&s("hello"), &acc);
    assert_eq!(r2.count_of(&s("hello")), 2);
}

#[test]
fn refused_lines_do_not_count() {
    let acc = words(&["hello"]);
    let mut r = Round::new(&s("hello"), false, WordCounts::new());
    for bad in ["", "h", "helloo", "hallo"] {
        assert!(matches!(r.submit(&s(bad), &acc), Feedback::Invalid));
    }
    assert!(matches!(r.submit(&s("hello"), &acc), Feedback::Scored { .. }));
    let (n, guesses, _) = r.finish();
    assert_eq!(n, 1);
    assert_eq!(guesses, words(&["HELLO"]));
}

#[test]
fn acceptance_can_be_asked_first() {
    let acc = words(&["hello", "world"]);
    let r = Round::new(&s("hello"), false, WordCounts::new());
    assert!(r.accepts_input(&s("world"), &acc));
    assert!(!r.accepts_input(&s("worlds"), &acc));
    assert!(!r.accepts_input(&s("abcde"), &acc));
}
