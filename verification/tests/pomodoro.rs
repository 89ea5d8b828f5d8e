use lucid::pomodoro::{
    next_phase, phase_change_message, phase_emoji, pomodoro_status, pomodoro_title, Phase,
    PomodoroConfig, PomodoroTimer,
};

fn classic() -> PomodoroConfig {
    PomodoroConfig { focus: 1500, short_break: 300, long_break: 900, rounds: 4 }
}

#[test]
fn emoji_per_phase() {
    assert_eq!(phase_emoji(Phase::Focus), "🍅");
    assert_eq!(phase_emoji(Phase::ShortBreak), "☕");
    assert_eq!(phase_emoji(Phase::LongBreak), "☕");
}

#[test]
fn next_phase_transitions() {
    assert_eq!(next_phase(Phase::Focus, 1, 4), (Phase::ShortBreak, 1));
    assert_eq!(next_phase(Phase::Focus, 3, 4), (Phase::ShortBreak, 3));
    assert_eq!(next_phase(Phase::Focus, 4, 4), (Phase::LongBreak, 4));
    assert_eq!(next_phase(Phase::Focus, 5, 4), (Phase::LongBreak, 5));
    assert_eq!(next_phase(Phase::ShortBreak, 2, 4), (Phase::Focus, 3));
    assert_eq!(next_phase(Phase::LongBreak, 4, 4), (Phase::Focus, 1));
    assert_eq!(next_phase(Phase::Focus, 1, 0), (Phase::LongBreak, 1));
}

#[test]
fn long_break_after_four_rounds() {
    let mut state = (Phase::Focus, 1u32);
    let mut seen = vec![state];
    for _ in 0..8 {
        state = next_phase(state.0, state.1, 4);
        seen.push(state);
    }
    assert_eq!(
        seen,
        vec![
            (Phase::Focus, 1),
            (Phase::ShortBreak, 1),
            (Phase::Focus, 2),
            (Phase::ShortBreak, 2),
            (Phase::Focus, 3),
            (Phase::ShortBreak, 3),
            (Phase::Focus, 4),
            (Phase::LongBreak, 4),
            (Phase::Focus, 1),
        ]
    );
}

#[test]
fn status_and_title_texts() {
    assert_eq!(pomodoro_status(Phase::Focus, 1, 4, 1500), "Focus — round 1/4 · 25:00 left");
    assert_eq!(pomodoro_status(Phase::ShortBreak, 2, 4, 61), "Break — 1:01 left");
    assert_eq!(pomodoro_status(Phase::LongBreak, 4, 4, 3600), "Long break — 1:00:00 left");
    assert_eq!(pomodoro_title(Phase::Focus, 1500), "🍅 25:00");
    assert_eq!(pomodoro_title(Phase::LongBreak, 9), "☕ 0:09");
}

#[test]
fn phase_change_messages() {
    let c = classic();
    assert_eq!(phase_change_message(&c, Phase::ShortBreak, 1), "Focus done — take a 5-minute break.");
    assert_eq!(
        phase_change_message(&c, Phase::LongBreak, 4),
        "Great work! Take a longer 15-minute break."
    );
    assert_eq!(
        phase_change_message(&c, Phase::Focus, 3),
        "Break's over — back to focus (round 3 of 4)."
    );
    let odd = PomodoroConfig { focus: 10, short_break: 119, long_break: 59, rounds: 2 };
    assert_eq!(phase_change_message(&odd, Phase::ShortBreak, 1), "Focus done — take a 1-minute break.");
    assert_eq!(
        phase_change_message(&odd, Phase::LongBreak, 2),
        "Great work! Take a longer 0-minute break."
    );
}

#[test]
fn timer_runs_the_cycle() {
    let mut t = PomodoroTimer::new(classic());
    assert_eq!((t.phase(), t.round(), t.phase_total()), (Phase::Focus, 1, 1500));
    assert_eq!(t.config(), classic());
    assert_eq!((t.step(), t.last_shown()), (0, None));
    assert_eq!(t.advance_if_due(1499), None);
    let f = t.frame(1499);
    assert_eq!(f.frame, 0);
    assert!(f.push_text);
    assert_eq!(f.title, "🍅 0:01");
    assert_eq!(f.status, "Focus — round 1/4 · 0:01 left");
    let f = t.frame(1499);
    assert_eq!(f.frame, 1);
    assert!(!f.push_text);
    assert_eq!(t.advance_if_due(1500), Some((Phase::ShortBreak, 1)));
    assert_eq!((t.phase(), t.round(), t.phase_total(), t.last_shown()), (Phase::ShortBreak, 1, 300, None));
    assert_eq!(t.step(), 2);
    let f = t.frame(0);
    assert!(f.push_text);
    assert_eq!(t.last_shown(), Some(300));
    assert_eq!(f.status, "Break — 5:00 left");
    assert_eq!(t.advance_if_due(300), Some((Phase::Focus, 2)));
    assert_eq!(t.phase_total(), 1500);
}

#[test]
fn overdue_phase_shows_zero_left() {
    let mut t = PomodoroTimer::new(classic());
    let f = t.frame(5000);
    assert_eq!(f.title, "🍅 0:00");
}
