use lucid::menu::{
    duration_menu_id, keep_awake_timers, parse_menu_id, pomodoro_menu_id, pomodoro_presets,
    MenuCommand,
};
use lucid::pomodoro::PomodoroConfig;

fn classic() -> PomodoroConfig {
    PomodoroConfig { focus: 1500, short_break: 300, long_break: 900, rounds: 4 }
}

#[test]
fn fixed_items() {
    assert_eq!(parse_menu_id("toggle"), Some(MenuCommand::ToggleAwake));
    assert_eq!(parse_menu_id("display"), Some(MenuCommand::ToggleDisplay));
    assert_eq!(parse_menu_id("autostart"), Some(MenuCommand::ToggleAutostart));
    assert_eq!(parse_menu_id("quit"), Some(MenuCommand::Quit));
    assert_eq!(parse_menu_id("status"), None);
    assert_eq!(parse_menu_id("Toggle"), None);
    assert_eq!(parse_menu_id(""), None);
}

#[test]
fn timer_items() {
    assert_eq!(parse_menu_id("dur:900"), Some(MenuCommand::KeepAwakeFor(900)));
    assert_eq!(parse_menu_id("dur:28800"), Some(MenuCommand::KeepAwakeFor(28800)));
    assert_eq!(parse_menu_id("dur:+15"), Some(MenuCommand::KeepAwakeFor(15)));
    assert_eq!(parse_menu_id("dur:007"), Some(MenuCommand::KeepAwakeFor(7)));
    assert_eq!(
        parse_menu_id("dur:18446744073709551615"),
        Some(MenuCommand::KeepAwakeFor(u64::MAX))
    );
}

#[test]
fn malformed_timer_items_ask_for_nothing() {
    assert_eq!(parse_menu_id("dur:"), None);
    assert_eq!(parse_menu_id("dur:+"), None);
    assert_eq!(parse_menu_id("dur:-5"), None);
    assert_eq!(parse_menu_id("dur:15m"), None);
    assert_eq!(parse_menu_id("dur: 15"), None);
    assert_eq!(parse_menu_id("dur:18446744073709551616"), None);
    assert_eq!(parse_menu_id("dur:99999999999999999999999"), None);
}

#[test]
fn pomodoro_items() {
    assert_eq!(parse_menu_id("pomo:stop"), Some(MenuCommand::StopPomodoro));
    assert_eq!(
        parse_menu_id("pomo:1500:300:900:4"),
        Some(MenuCommand::StartPomodoro(classic()))
    );
    assert_eq!(
        parse_menu_id("pomo:3000:600:1800:4"),
        Some(MenuCommand::StartPomodoro(PomodoroConfig {
            focus: 3000,
            short_break: 600,
            long_break: 1800,
            rounds: 4
        }))
    );
    assert_eq!(
        parse_menu_id("pomo:1:2:3:4294967295"),
        Some(MenuCommand::StartPomodoro(PomodoroConfig {
            focus: 1,
            short_break: 2,
            long_break: 3,
            rounds: u32::MAX
        }))
    );
}

#[test]
fn malformed_pomodoro_items_ask_for_nothing() {
    assert_eq!(parse_menu_id("pomo:"), None);
    assert_eq!(parse_menu_id("pomo:Stop"), None);
    assert_eq!(parse_menu_id("pomo:1500:300:900"), None);
    assert_eq!(parse_menu_id("pomo:1500:300:900:4:1"), None);
    assert_eq!(parse_menu_id("pomo:1500:300::4"), None);
    assert_eq!(parse_menu_id("pomo:1500:300:900:4294967296"), None);
    assert_eq!(parse_menu_id("pomo:1500:300:x:4"), None);
    assert_eq!(parse_menu_id("pomo:1500:300:900:4:"), None);
}

#[test]
fn ids_of_presets_are_read_back() {
    for secs in [900u64, 1800, 3600, 7200, 14400, 28800, 0, u64::MAX] {
        let id = duration_menu_id(secs);
        assert_eq!(parse_menu_id(&id), Some(MenuCommand::KeepAwakeFor(secs)));
    }
    assert_eq!(duration_menu_id(900), "dur:900");
    assert_eq!(pomodoro_menu_id(&classic()), "pomo:1500:300:900:4");
    let deep = PomodoroConfig { focus: 3000, short_break: 600, long_break: 1800, rounds: 4 };
    assert_eq!(pomodoro_menu_id(&deep), "pomo:3000:600:1800:4");
    for c in [classic(), deep, PomodoroConfig { focus: 0, short_break: u64::MAX, long_break: 1, rounds: u32::MAX }] {
        assert_eq!(parse_menu_id(&pomodoro_menu_id(&c)), Some(MenuCommand::StartPomodoro(c)));
    }
}

#[test]
fn preset_lists() {
    let timers: Vec<(u64, String)> = keep_awake_timers();
    let expected = [
        (900u64, "15 minutes"),
        (1800, "30 minutes"),
        (3600, "1 hour"),
        (7200, "2 hours"),
        (14400, "4 hours"),
        (28800, "8 hours"),
    ];
    assert_eq!(timers.len(), expected.len());
    for ((secs, label), (esecs, elabel)) in timers.iter().zip(expected) {
        assert_eq!(*secs, esecs);
        assert_eq!(label, elabel);
    }
    let presets = pomodoro_presets();
    assert_eq!(presets.len(), 2);
    assert_eq!(presets[0].0, classic());
    assert_eq!(presets[0].1, "Classic — 25 / 5");
    assert_eq!(
        presets[1].0,
        PomodoroConfig { focus: 3000, short_break: 600, long_break: 1800, rounds: 4 }
    );
    assert_eq!(presets[1].1, "Deep work — 50 / 10");
    assert_eq!(pomodoro_menu_id(&presets[0].0), "pomo:1500:300:900:4");
}
