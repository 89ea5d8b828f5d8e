use lucid::menu::MenuCommand;
use lucid::pomodoro::PomodoroConfig;
use lucid::session::{
    autostart_should_enable, awake_status, caffeinate_args, DisplayRestart, KeepAwake, Reaction,
};

#[test]
fn caffeinate_arguments() {
    assert_eq!(caffeinate_args(true, None), vec!["-i", "-d"]);
    assert_eq!(caffeinate_args(false, None), vec!["-i"]);
    assert_eq!(caffeinate_args(true, Some(900)), vec!["-i", "-d", "-t", "900"]);
    assert_eq!(caffeinate_args(false, Some(0)), vec!["-i", "-t", "0"]);
}

#[test]
fn awake_status_texts() {
    assert_eq!(awake_status(None, true), "Awake — until turned off");
    assert_eq!(awake_status(None, false), "Awake — until turned off (display may sleep)");
    assert_eq!(awake_status(Some(7200), true), "Awake — 2:00:00 left");
    assert_eq!(awake_status(Some(900), false), "Awake — 15:00 left (display may sleep)");
}

#[test]
fn autostart_toggles() {
    assert!(!autostart_should_enable(Some(true)));
    assert!(autostart_should_enable(Some(false)));
    assert!(autostart_should_enable(None));
}

#[test]
fn sessions_bump_the_generation() {
    let mut k = KeepAwake::new();
    assert_eq!(k.generation, 0);
    assert!(k.keep_display);
    let args = k.start_session(Some(1800));
    assert_eq!(args, vec!["-i", "-d", "-t", "1800"]);
    assert_eq!(k.generation, 1);
    assert_eq!(k.current_total, Some(1800));
    assert!(!k.running);
    let generation = k.session_spawned();
    assert_eq!(generation, 1);
    assert!(k.running);
    assert!(k.is_current(1));
    k.stop_session();
    assert!(!k.is_current(1));
    assert_eq!(k.generation, 2);
    assert_eq!(k.current_total, None);
    assert!(!k.running);
}

#[test]
fn generation_wraps() {
    let mut k = KeepAwake {
        generation: u64::MAX,
        keep_display: true,
        running: true,
        current_total: None,
        pomodoro: false,
    };
    k.stop_session();
    assert_eq!(k.generation, 0);
}

#[test]
fn only_the_current_timer_expires_the_session() {
    let mut k = KeepAwake::new();
    k.start_session(Some(60));
    let generation = k.session_spawned();
    assert!(!k.timer_expired(generation + 1));
    assert!(k.running);
    assert!(k.timer_expired(generation));
    assert!(!k.running);
    assert_eq!(k.current_total, Some(60));
}

fn restarted_session(r: Option<DisplayRestart>) -> Option<Option<u64>> {
    match r {
        None => None,
        Some(DisplayRestart::Session(total)) => Some(total),
        Some(DisplayRestart::Caffeinate(_)) => panic!("not a Pomodoro"),
    }
}

#[test]
fn toggling_display_resumes_with_the_time_left() {
    let mut k = KeepAwake::new();
    assert!(k.toggle_display(None).is_none());
    assert!(!k.keep_display);
    k.start_session(Some(3600));
    k.session_spawned();
    assert_eq!(restarted_session(k.toggle_display(Some(600))), Some(Some(3000)));
    assert!(k.keep_display);
    assert_eq!(restarted_session(k.toggle_display(Some(4000))), Some(Some(0)));
    assert_eq!(restarted_session(k.toggle_display(None)), Some(None));
    let mut open = KeepAwake::new();
    open.start_session(None);
    open.session_spawned();
    assert_eq!(restarted_session(open.toggle_display(Some(5))), Some(None));
}

#[test]
fn toggling_display_keeps_the_pomodoro_going() {
    let mut k = KeepAwake::new();
    k.start_pomodoro();
    let generation = k.session_spawned();
    assert!(k.pomodoro);
    match k.toggle_display(Some(100)) {
        Some(DisplayRestart::Caffeinate(args)) => assert_eq!(args, vec!["-i"]),
        _ => panic!("a Pomodoro only replaces its caffeinate"),
    }
    assert!(k.is_current(generation));
    assert!(k.running);
    assert!(k.pomodoro);
    match k.toggle_display(None) {
        Some(DisplayRestart::Caffeinate(args)) => assert_eq!(args, vec!["-i", "-d"]),
        _ => panic!("a Pomodoro only replaces its caffeinate"),
    }
    assert!(k.is_current(generation));
    k.start_session(None);
    assert!(!k.pomodoro);
    k.start_pomodoro();
    k.stop_session();
    assert!(!k.pomodoro);
}

#[test]
fn pomodoro_starts_an_open_ended_caffeinate() {
    let mut k = KeepAwake::new();
    k.start_session(Some(60));
    let args = k.start_pomodoro();
    assert_eq!(args, vec!["-i", "-d"]);
    assert_eq!(k.current_total, None);
    assert_eq!(k.generation, 2);
}

#[test]
fn reactions_to_menu_clicks() {
    let mut k = KeepAwake::new();
    assert_eq!(k.reaction(MenuCommand::ToggleAwake), Reaction::StartSession(None));
    k.start_session(None);
    k.session_spawned();
    assert_eq!(k.reaction(MenuCommand::ToggleAwake), Reaction::TurnOff);
    assert_eq!(k.reaction(MenuCommand::KeepAwakeFor(900)), Reaction::StartSession(Some(900)));
    assert_eq!(k.reaction(MenuCommand::StopPomodoro), Reaction::TurnOff);
    assert_eq!(k.reaction(MenuCommand::Quit), Reaction::Quit);
    assert_eq!(k.reaction(MenuCommand::ToggleDisplay), Reaction::ToggleDisplay);
    assert_eq!(k.reaction(MenuCommand::ToggleAutostart), Reaction::ToggleAutostart);
    let c = PomodoroConfig { focus: 1500, short_break: 300, long_break: 900, rounds: 4 };
    assert_eq!(k.reaction(MenuCommand::StartPomodoro(c)), Reaction::StartPomodoro(c));
}
