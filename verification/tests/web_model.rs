use wordle::app::{Effect, Model, Msg};
use wordle::score::Color;

fn acceptable() -> Vec<String> {
    ["titan", "crane", "train", "tutor"].iter().map(|s| s.to_string()).collect()
}

fn type_row(m: &mut Model, word: &str) {
    let row = m.board.current_row;
    for (col, ch) in word.chars().enumerate() {
        let (_, _) = m.update(Msg::UpdateInput(row, col, ch.to_string()));
    }
}

#[test]
fn opens_with_defaults() {
    let m = Model::create(acceptable());
    assert_eq!(m.settings.seed, "114514");
    assert_eq!(m.settings.day, "810");
    assert_eq!(m.play.answer, "TITAN");
    assert_eq!(m.board.current_row, 0);
    assert_eq!(m.play.alphabet_color.len(), 32);
}

#[test]
fn menu_toggles() {
    let mut m = Model::create(acceptable());
    let (redraw, effects) = m.update(Msg::ToggleMenu);
    assert!(redraw && effects.is_empty() && m.settings.show_menu);
    let (_, effects) = m.update(Msg::SelectValue("Day: ".to_string()));
    assert!(!m.settings.show_menu);
    assert!(matches!(effects.as_slice(), [Effect::LogSelected(v)] if v == "Day: "));
    m.update(Msg::ToggleMenu);
    m.update(Msg::ClickOutside);
    assert!(!m.settings.show_menu);
    m.update(Msg::DifficultCheck);
    assert!(m.settings.is_difficult);
}

#[test]
fn seed_and_day_pick_an_answer() {
    let mut m = Model::create(acceptable());
    let (_, effects) = m.update(Msg::UpdateSeed("7".to_string()));
    assert!(matches!(effects.as_slice(), [Effect::ChooseAnswer { day: 810, seed: 7 }]));
    let (_, effects) = m.update(Msg::UpdateDay("oops".to_string()));
    assert!(matches!(effects.as_slice(), [Effect::ChooseAnswer { day: 810, seed: 7 }]));
    let (_, effects) = m.update(Msg::UpdateDay("3".to_string()));
    assert!(matches!(effects.as_slice(), [Effect::ChooseAnswer { day: 3, seed: 7 }]));
    let (_, effects) = m.update(Msg::UpdateSeed("-1".to_string()));
    assert!(matches!(effects.as_slice(), [Effect::ChooseAnswer { day: 3, seed: 114514 }]));
}

#[test]
fn typing_moves_the_cursor() {
    let mut m = Model::create(acceptable());
    let (_, effects) = m.update(Msg::UpdateInput(0, 0, "t".to_string()));
    assert_eq!(m.board.inputs[0][0], "T");
    assert!(matches!(effects.as_slice(), [Effect::Send(Msg::FocusNext((0, 1)))]));
    let (_, effects) = m.update(Msg::UpdateInput(0, 0, String::new()));
    assert!(effects.is_empty());
    m.update(Msg::UpdateInput(0, 1, "i".to_string()));
    let (_, effects) = m.update(Msg::UpdateInput(0, 1, String::new()));
    assert!(matches!(effects.as_slice(), [Effect::Send(Msg::FocusPrevious((0, 0)))]));
    // Another row than the current one is left alone.
    let (_, effects) = m.update(Msg::UpdateInput(2, 0, "x".to_string()));
    assert!(effects.is_empty());
    assert_eq!(m.board.inputs[2][0], "");
    let (_, effects) = m.update(Msg::FocusNext((0, 3)));
    assert!(matches!(effects.as_slice(), [Effect::Focus(0, 3)]));
}

#[test]
fn refused_row_changes_nothing() {
    let mut m = Model::create(acceptable());
    type_row(&mut m, "abcde");
    assert!(m.can_update_check(&Msg::EnableNextRow));
    let (redraw, effects) = m.update(Msg::EnableNextRow);
    assert!(!redraw && effects.is_empty());
    assert_eq!(m.board.current_row, 0);
    assert_eq!(m.board.colors[0][0], Color::Unknown);
}

#[test]
fn scored_row_then_win() {
    let mut m = Model::create(acceptable());
    type_row(&mut m, "train");
    let (redraw, effects) = m.update(Msg::EnableNextRow);
    assert!(redraw);
    assert!(matches!(effects.as_slice(), [Effect::Send(Msg::TriggerFlip(0))]));
    assert_eq!(m.board.current_row, 1);
    // TRAIN against TITAN: T green, R red, A yellow, I yellow, N green.
    assert_eq!(m.board.colors[0], vec![Color::Green, Color::Red, Color::Yellow, Color::Yellow, Color::Green]);
    assert_eq!(m.key_color('T'), Color::Green);
    assert_eq!(m.key_color('R'), Color::Red);
    assert_eq!(m.key_color('Z'), Color::Unknown);
    assert_eq!(m.totals.rounds, 1);
    type_row(&mut m, "titan");
    let (_, effects) = m.update(Msg::EnableNextRow);
    assert!(matches!(
        effects.as_slice(),
        [Effect::ChooseAnswer { day: 811, seed: 114514 }, Effect::CelebrateThenReset, Effect::Send(Msg::TriggerFlip(1))]
    ));
    assert_eq!(m.settings.day, "811");
    assert_eq!(m.totals.total_success, 1);
    assert_eq!(m.totals.total_round, 1);
    assert_eq!(m.totals.total_success_rounds, 2);
    assert_eq!(m.totals.rounds, 0);
    assert!(m.play.all_completed);
    assert_eq!(m.totals.words.get(&"TITAN".to_string()), 1);
    m.update(Msg::Reset);
    assert_eq!(m.board.current_row, 0);
    assert_eq!(m.board.inputs[0][0], "");
    assert_eq!(m.play.alphabet_color.len(), 32);
}

#[test]
fn six_misses_reveal_the_answer() {
    let mut m = Model::create(acceptable());
    for row in 0..6 {
        type_row(&mut m, "crane");
        let (_, effects) = m.update(Msg::EnableNextRow);
        if row < 5 {
            assert!(matches!(effects.as_slice(), [Effect::Send(Msg::TriggerFlip(r))] if *r == row));
        } else {
            assert!(matches!(
                effects.as_slice(),
                [Effect::ChooseAnswer { day: 811, .. }, Effect::RevealThenReset(a), Effect::Send(Msg::TriggerFlip(0))] if a == "TITAN"
            ));
        }
    }
    assert_eq!(m.totals.total_round, 1);
    assert_eq!(m.totals.total_success, 0);
    assert_eq!(m.board.current_row, 1);
}

#[test]
fn difficult_mode_refuses_dropping_a_hint() {
    let mut m = Model::create(acceptable());
    m.update(Msg::DifficultCheck);
    type_row(&mut m, "train");
    m.update(Msg::EnableNextRow);
    // "crane" drops the green T.
    type_row(&mut m, "crane");
    let (redraw, _) = m.update(Msg::EnableNextRow);
    assert!(!redraw);
    assert_eq!(m.board.current_row, 1);
}

#[test]
fn flip_and_clear() {
    let mut m = Model::create(acceptable());
    assert!(!m.can_update_check(&Msg::TriggerFlip(6)));
    let (_, effects) = m.update(Msg::TriggerFlip(2));
    assert!(m.board.flip_flags[2]);
    assert!(matches!(effects.as_slice(), [Effect::ResetFlipLater(2)]));
    m.update(Msg::ResetFlip(2));
    assert!(!m.board.flip_flags[2]);
    type_row(&mut m, "crane");
    m.update(Msg::ClearRow(0));
    assert!(m.board.inputs[0].iter().all(|c| c.is_empty()));
}

#[test]
fn set_answer_replaces_word() {
    let mut m = Model::create(acceptable());
    m.set_answer("CRANE".to_string());
    assert_eq!(m.play.answer, "CRANE");
}

#[test]
fn reset_after_a_win_on_the_last_row_unlocks_the_board() {
    let mut m = Model::create(acceptable());
    for _ in 0..5 {
        type_row(&mut m, "crane");
        m.update(Msg::EnableNextRow);
    }
    type_row(&mut m, "titan");
    let (_, effects) = m.update(Msg::EnableNextRow);
    assert!(effects.iter().any(|e| matches!(e, Effect::CelebrateThenReset)));
    assert!(m.board.all_submitted);
    let (redraw, effects) = m.update(Msg::Reset);
    assert!(redraw && effects.is_empty());
    assert!(!m.board.all_submitted);
    assert!(!m.play.all_completed);
    assert_eq!(m.board.current_row, 0);
    let (_, effects) = m.update(Msg::UpdateInput(0, 0, "t".to_string()));
    assert_eq!(m.board.inputs[0][0], "T");
    assert!(!effects.is_empty());
}

#[test]
fn try_update_refuses_what_update_cannot_take() {
    let mut m = Model::create(acceptable());
    assert!(m.try_update(Msg::TriggerFlip(6)).is_none());
    assert!(!m.board.flip_flags.iter().any(|f| *f));
    let done = m.try_update(Msg::TriggerFlip(1));
    assert!(matches!(done, Some((true, ref e)) if matches!(e.as_slice(), [Effect::ResetFlipLater(1)])));
    assert!(m.board.flip_flags[1]);
}
