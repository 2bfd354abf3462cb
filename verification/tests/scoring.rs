use wordle::difficult::difficult_check;
use wordle::keyboard::Keyboard;
use wordle::score::{best_color, count_char, score_guess, Color};

fn chars(s: &str) -> Vec<char> {
    s.chars().collect()
}

fn marks(colors: &[Color]) -> String {
    colors
        .iter()
        .map(|c| match c {
            Color::Green => 'G',
            Color::Yellow => 'Y',
            Color::Red => 'R',
            Color::Unknown => 'X',
        })
        .collect()
}

#[test]
fn score_mixed_letters() {
    let r = score_guess(&chars("apple"), &chars("paper"));
    assert_eq!(marks(&r), "YYGYR");
}

#[test]
fn score_all_green_on_answer() {
    let r = score_guess(&chars("crane"), &chars("crane"));
    assert_eq!(marks(&r), "GGGGG");
}

#[test]
fn score_extra_copies_are_red() {
    let r = score_guess(&chars("hello"), &chars("lllll"));
    assert_eq!(marks(&r), "RRGGR");
}

#[test]
fn score_greens_claim_first() {
    let r = score_guess(&chars("hello"), &chars("lolly"));
    assert_eq!(marks(&r), "RYGGR");
}

#[test]
fn score_all_yellow_but_one() {
    let r = score_guess(&chars("hello"), &chars("olleh"));
    assert_eq!(marks(&r), "YYGYY");
}

#[test]
fn score_shorter_answer() {
    let r = score_guess(&chars("ab"), &chars("abc"));
    assert_eq!(marks(&r), "GGR");
}

#[test]
fn marks_never_exceed_copies() {
    // "eerie" against "there": the answer has two e's, so at most two marks.
    let guess = chars("eerie");
    let r = score_guess(&chars("there"), &guess);
    let marked = guess
        .iter()
        .zip(r.iter())
        .filter(|(c, col)| **c == 'e' && **col != Color::Red)
        .count();
    assert_eq!(marked, 2);
    assert_eq!(marks(&r), "YRYRG");
}

#[test]
fn count_letters() {
    assert_eq!(count_char(&chars("banana"), 'a'), 3);
    assert_eq!(count_char(&chars("banana"), 'z'), 0);
}

#[test]
fn best_colour_order() {
    assert_eq!(best_color(Color::Red, Color::Yellow), Color::Yellow);
    assert_eq!(best_color(Color::Green, Color::Yellow), Color::Green);
    assert_eq!(best_color(Color::Unknown, Color::Red), Color::Red);
}

#[test]
fn keyboard_keeps_best_colour() {
    let mut kb = Keyboard::lowercase();
    let g1 = chars("hello");
    let c1 = score_guess(&chars("world"), &g1);
    // The only l of "world" is claimed by the green at position 3.
    assert_eq!(marks(&c1), "RRRGY");
    kb.record(&g1, &c1);
    assert_eq!(kb.color_of('l'), Some(Color::Green));
    assert_eq!(kb.color_of('o'), Some(Color::Yellow));
    assert_eq!(kb.color_of('h'), Some(Color::Red));
    assert_eq!(kb.color_of('z'), Some(Color::Unknown));
    assert_eq!(kb.color_of('L'), None);
    let g2 = chars("lodge");
    let c2 = score_guess(&chars("world"), &g2);
    kb.record(&g2, &c2);
    // l was green and stays green although it is yellow now.
    assert_eq!(kb.color_of('l'), Some(Color::Green));
    assert_eq!(kb.color_of('o'), Some(Color::Green));
    let letters: String = kb.letters().into_iter().collect();
    assert_eq!(letters.len(), 26);
    assert_eq!(&letters[..5], "XXXYR");
}

#[test]
fn difficult_first_guess_free() {
    assert!(difficult_check(&vec![], &chars("crane"), &vec![]));
}

#[test]
fn difficult_keeps_greens() {
    let last = chars("crane");
    let result = chars("GRRRR");
    assert!(difficult_check(&last, &chars("clown"), &result));
    assert!(!difficult_check(&last, &chars("blown"), &result));
}

#[test]
fn difficult_uses_yellows() {
    let last = chars("crane");
    let result = chars("RYRRR");
    assert!(difficult_check(&last, &chars("boric"), &result));
    assert!(!difficult_check(&last, &chars("bonus"), &result));
}

#[test]
fn difficult_yellow_anywhere() {
    let last = chars("eerie");
    let result = chars("YYRRR");
    assert!(difficult_check(&last, &chars("geese"), &result));
    assert!(difficult_check(&last, &chars("tepid"), &result));
    assert!(!difficult_check(&last, &chars("tardy"), &result));
    // A yellow letter may be the same letter as a kept green one.
    assert!(difficult_check(&chars("eexxx"), &chars("eaaaa"), &chars("GYRRR")));
}

#[test]
fn difficult_repeat_is_allowed() {
    let last = chars("crane");
    assert!(difficult_check(&last, &last, &chars("GYRYG")));
    // Marks beyond a short guess's letters belong to the alphabet and are ignored.
    let short = chars("abc");
    assert!(difficult_check(&short, &short, &chars("GGG G")));
}
