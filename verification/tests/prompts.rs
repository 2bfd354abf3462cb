use wordle::settings::{Reply, SettingsDialog, Step};
use wordle::builtin_words::select::{builtin_word, get_available_word, get_useable_word};
use wordle::config::Config;
use wordle::parse::{parse_i32, parse_unsigned, render_usize, trim};
use wordle::prompts::{
    is_subset, parse_command, parse_day, parse_seed, parse_yes_no, wants_to_stop, Command,
};

fn v(x: &str) -> Vec<char> {
    x.chars().collect()
}

#[test]
fn trims_unicode_white_space() {
    assert_eq!(trim(&v("  ab c\n")), v("ab c"));
    assert_eq!(trim(&v("\u{3000}x\u{a0}")), v("x"));
    assert_eq!(trim(&v(" \t ")), v(""));
}

#[test]
fn commands() {
    assert_eq!(parse_command("--help\n"), Command::Help);
    assert_eq!(parse_command("  --set "), Command::Settings);
    assert_eq!(parse_command("\n"), Command::Start);
    assert_eq!(parse_command("play"), Command::Unknown);
}

#[test]
fn yes_no() {
    assert_eq!(parse_yes_no("y\n"), Some(true));
    assert_eq!(parse_yes_no(" Y"), Some(true));
    assert_eq!(parse_yes_no("\n"), Some(false));
    assert_eq!(parse_yes_no("yes\n"), None);
}

#[test]
fn days_and_seeds() {
    assert_eq!(parse_day("\n"), Some(1));
    assert_eq!(parse_day("12\n"), Some(12));
    assert_eq!(parse_day("+3"), Some(3));
    assert_eq!(parse_day("-3"), None);
    assert_eq!(parse_day("1x"), None);
    assert_eq!(parse_seed("\n"), Some(42));
    assert_eq!(parse_seed("-42"), Some(-42));
    assert_eq!(parse_seed("2147483647"), Some(i32::MAX));
    assert_eq!(parse_seed("2147483648"), None);
    assert_eq!(parse_seed("-2147483648"), Some(i32::MIN));
    assert_eq!(parse_seed("-"), None);
}

#[test]
fn numbers_match_std() {
    for t in ["0", "007", "+5", "-5", "", "+", "12a", "4294967295", "4294967296", "99999999999999999999"] {
        assert_eq!(parse_unsigned(&v(t), u32::MAX as u64), t.parse::<u32>().ok().map(|x| x as u64), "{}", t);
        assert_eq!(parse_i32(&v(t)), t.parse::<i32>().ok(), "{}", t);
    }
}

#[test]
fn digits_read_back() {
    for n in [0usize, 7, 10, 810, 114514, usize::MAX] {
        let d = render_usize(n);
        assert_eq!(d.iter().collect::<String>(), n.to_string());
        assert_eq!(parse_unsigned(&d, u64::MAX), Some(n as u64));
    }
}

#[test]
fn another_round() {
    assert!(wants_to_stop("N\n"));
    assert!(wants_to_stop("n"));
    assert!(!wants_to_stop("no\n"));
    assert!(!wants_to_stop("y\n"));
}

#[test]
fn subsets() {
    let a = vec!["ab".to_string(), "cd".to_string()];
    let b = vec!["cd".to_string(), "ab".to_string(), "ef".to_string()];
    assert!(is_subset(&a, &b));
    assert!(!is_subset(&b, &a));
    assert!(is_subset(&vec![], &a));
}

#[test]
fn builtin_words() {
    assert_eq!(builtin_word(0), "Apple");
    assert_eq!(builtin_word(1), "Pineapple");
    for _ in 0..20 {
        let w = get_useable_word();
        assert!(w == "Apple" || w == "Pineapple");
        let w = get_available_word();
        assert!(w == "Apple" || w == "Pineapple");
    }
}

#[test]
fn default_settings() {
    let c = Config::tty_default();
    assert_eq!(c.seed, Some(42));
    assert_eq!(c.day, Some(1));
    assert_eq!(c.random, Some(false));
    assert_eq!(c.word.as_deref(), Some(""));
}

#[test]
fn trimmed_paths() {
    assert_eq!(wordle::prompts::trimmed_text("  words.txt \n"), "words.txt");
    assert_eq!(wordle::prompts::trimmed_text("\n"), "");
}

#[test]
fn enter_keeps_the_default_settings() {
    let mut d = SettingsDialog::new();
    let mut lines = 0;
    while d.step != Step::Done {
        assert_eq!(d.answer("\n", false), Reply::Next);
        lines += 1;
    }
    assert_eq!(lines, 9);
    let c = d.config;
    assert_eq!((c.random, c.difficult, c.stats), (Some(false), Some(false), Some(false)));
    assert_eq!((c.day, c.seed), (Some(1), Some(42)));
    assert_eq!(c.final_set.as_deref(), Some(""));
    assert_eq!(c.acceptable_set.as_deref(), Some(""));
    assert_eq!(c.state.as_deref(), Some(""));
    assert_eq!(c.word.as_deref(), Some(""));
}

#[test]
fn settings_dialogue_answers() {
    let mut d = SettingsDialog::new();
    assert_eq!(d.answer("maybe\n", false), Reply::NotUnderstood);
    assert_eq!(d.step, Step::Random);
    assert_eq!(d.answer("y\n", false), Reply::Next);
    assert_eq!(d.answer("\n", false), Reply::Next);
    assert_eq!(d.answer("Y\n", false), Reply::Next);
    assert_eq!(d.answer("soon\n", false), Reply::BadNumber);
    assert_eq!(d.answer("3\n", false), Reply::Next);
    assert_eq!(d.answer("-7\n", false), Reply::Next);
    assert!(d.asks_path());
    assert_eq!(d.answer("nowhere.txt\n", false), Reply::BadPath);
    assert_eq!(d.answer(" final.txt \n", true), Reply::Next);
    assert_eq!(d.answer("\n", false), Reply::Next);
    assert_eq!(d.answer("\n", false), Reply::Next);
    assert_eq!(d.answer(" crane\n", false), Reply::Next);
    assert_eq!(d.step, Step::Done);
    let c = d.config;
    assert_eq!((c.random, c.difficult, c.stats), (Some(true), Some(false), Some(true)));
    assert_eq!((c.day, c.seed), (Some(3), Some(-7)));
    assert_eq!(c.final_set.as_deref(), Some("final.txt"));
    assert_eq!(c.word.as_deref(), Some("crane"));
}
