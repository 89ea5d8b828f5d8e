//! The keep-awake session: which `caffeinate` to run, what each menu click
//! does to the session, and the texts that describe it.

use vstd::prelude::*;
use vstd::string::*;
use crate::countdown::{fmt_remaining, remaining_text};
use crate::decimal::{decimal, is_digit, lemma_decimal_digits, push_decimal};
use crate::menu::MenuCommand;
use crate::pomodoro::PomodoroConfig;

verus! {

/// The arguments of `caffeinate`: `-i` to keep the system awake, `-d` to keep
/// the display on as well, and `-t` with the seconds for a session that ends
/// by itself.
pub open spec fn caffeinate_argv(keep_display: bool, total: Option<u64>) -> Seq<Seq<char>> {
    let system = seq!["-i"@];
    let display = if keep_display { system.push("-d"@) } else { system };
    match total {
        Some(secs) => display.push("-t"@).push(decimal(secs as nat)),
        None => display,
    }
}

/// The arguments for a `caffeinate` that honours the "keep display on"
/// setting; `total = Some(n)` makes it end after `n` seconds, `None` keeps it
/// running until it is stopped.
pub fn caffeinate_args(keep_display: bool, total: Option<u64>) -> (args: Vec<String>)
    ensures
        args.deep_view() == caffeinate_argv(keep_display, total),
{
    let mut args: Vec<String> = Vec::new();
    args.push(String::from_str("-i"));
    if keep_display {
        args.push(String::from_str("-d"));
    }
    if let Some(secs) = total {
        args.push(String::from_str("-t"));
        let mut n = String::new();
        push_decimal(&mut n, secs);
        args.push(n);
    }
    assert(args.deep_view() =~= caffeinate_argv(keep_display, total));
    args
}

/// The note added to the status line when only the system is kept awake.
pub open spec fn display_note(keep_display: bool) -> Seq<char> {
    if keep_display { Seq::<char>::empty() } else { " (display may sleep)"@ }
}

/// The status line when a session starts.
pub open spec fn awake_status_text(total: Option<u64>, keep_display: bool) -> Seq<char> {
    match total {
        None => "Awake — until turned off"@ + display_note(keep_display),
        Some(secs) => "Awake — "@ + remaining_text(secs as nat) + " left"@ + display_note(keep_display),
    }
}

/// The status line shown when a session starts: until turned off, or the time
/// left, with a note when the display may sleep.
pub fn awake_status(total: Option<u64>, keep_display: bool) -> (text: String)
    ensures
        text@ == awake_status_text(total, keep_display),
{
    let mut text = String::new();
    match total {
        None => {
            text.append("Awake — until turned off");
        },
        Some(secs) => {
            text.append("Awake — ");
            let left = fmt_remaining(secs);
            text.append(left.as_str());
            text.append(" left");
        },
    }
    if !keep_display {
        text.append(" (display may sleep)");
    }
    assert(text@ =~= awake_status_text(total, keep_display));
    text
}

/// Whether a click on "Launch at login" turns launching at login on, given
/// what the system reports now (`None` when it could not tell).
pub fn autostart_should_enable(enabled: Option<bool>) -> (enable: bool)
    ensures
        enable == !(enabled == Some(true)),
{
    match enabled {
        Some(true) => false,
        _ => true,
    }
}

/// What the app does on a menu click.
#[derive(Clone, Copy, PartialEq, Eq, Structural, Debug)]
pub enum Reaction {
    /// Stop the session and show the idle (sleep allowed) look.
    TurnOff,
    /// Start a session of this many seconds, or until turned off.
    StartSession(Option<u64>),
    /// Start a Pomodoro cycle with this preset.
    StartPomodoro(PomodoroConfig),
    /// Flip "keep display on", re-applying it to a running session.
    ToggleDisplay,
    /// Flip "launch at login".
    ToggleAutostart,
    /// Stop the session and quit.
    Quit,
}

/// The next generation: one more, wrapping around at the end of `u64`.
pub open spec fn next_generation(generation: u64) -> u64 {
    if generation == u64::MAX { 0 } else { (generation + 1) as u64 }
}

/// The length of the session that re-applies a settings change: the time
/// still left of a timed session (`elapsed` seconds after it started), or
/// until turned off.
pub open spec fn resumed_total(total: Option<u64>, elapsed: Option<u64>) -> Option<u64> {
    match (total, elapsed) {
        (Some(t), Some(e)) => Some(if e >= t { 0 } else { (t - e) as u64 }),
        _ => None,
    }
}

/// How a running session re-applies a change of "keep display on".
pub enum DisplayRestart {
    /// Restart the session with this length (`None`: until turned off).
    Session(Option<u64>),
    /// A Pomodoro cycle goes on as it is: only its `caffeinate` is replaced
    /// by one with these arguments.
    Caffeinate(Vec<String>),
}

/// The app's keep-awake state.
pub struct KeepAwake {
    /// Bumped on every change of session; an animation loop started in an
    /// earlier generation stops.
    pub generation: u64,
    /// Whether to keep the display on too (`-d`), or only the system (`-i`).
    pub keep_display: bool,
    /// Whether a `caffeinate` process is running.
    pub running: bool,
    /// The current session's length (`None` when it lasts until turned off).
    pub current_total: Option<u64>,
    /// Whether the current session is a Pomodoro cycle.
    pub pomodoro: bool,
}

impl KeepAwake {
    /// At launch: no session, display kept on when a session starts.
    pub fn new() -> (k: KeepAwake)
        ensures
            k == (KeepAwake {
                generation: 0,
                keep_display: true,
                running: false,
                current_total: None,
                pomodoro: false,
            }),
    {
        KeepAwake { generation: 0, keep_display: true, running: false, current_total: None, pomodoro: false }
    }

    /// Whether an animation loop started in `generation` is still the live one.
    pub fn is_current(&self, generation: u64) -> (live: bool)
        ensures
            live == (generation == self.generation),
    {
        generation == self.generation
    }

    /// Ends the current session: a new generation, so pending timers and
    /// animation loops stop, and no session length; the caller kills the
    /// `caffeinate` process, if any, and forgets when the session started.
    pub fn stop_session(&mut self)
        ensures
            *final(self) == (KeepAwake {
                generation: next_generation(old(self).generation),
                keep_display: old(self).keep_display,
                running: false,
                current_total: None,
                pomodoro: false,
            }),
            final(self).generation != old(self).generation,
    {
        self.generation = if self.generation == u64::MAX { 0 } else { self.generation + 1 };
        self.current_total = None;
        self.running = false;
        self.pomodoro = false;
    }

    /// Begins a session of `total` seconds (`None`: until turned off): stops
    /// the current one, records the length, and returns the arguments of the
    /// `caffeinate` to spawn; the caller records the start time.
    pub fn start_session(&mut self, total: Option<u64>) -> (args: Vec<String>)
        ensures
            *final(self) == (KeepAwake {
                generation: next_generation(old(self).generation),
                keep_display: old(self).keep_display,
                running: false,
                current_total: total,
                pomodoro: false,
            }),
            final(self).generation != old(self).generation,
            args.deep_view() == caffeinate_argv(old(self).keep_display, total),
    {
        self.stop_session();
        self.current_total = total;
        caffeinate_args(self.keep_display, total)
    }

    /// Begins a Pomodoro cycle: stops the current session and returns the
    /// arguments of a `caffeinate` that runs until stopped.
    pub fn start_pomodoro(&mut self) -> (args: Vec<String>)
        ensures
            *final(self) == (KeepAwake {
                generation: next_generation(old(self).generation),
                keep_display: old(self).keep_display,
                running: false,
                current_total: None,
                pomodoro: true,
            }),
            final(self).generation != old(self).generation,
            args.deep_view() == caffeinate_argv(old(self).keep_display, None),
    {
        self.stop_session();
        self.pomodoro = true;
        caffeinate_args(self.keep_display, None)
    }

    /// Records that `caffeinate` is running, and returns the generation that
    /// the session's animation loop belongs to.
    pub fn session_spawned(&mut self) -> (generation: u64)
        ensures
            *final(self) == (KeepAwake { running: true, ..*old(self) }),
            generation == old(self).generation,
    {
        self.running = true;
        self.generation
    }

    /// A timed session of generation `generation` ran out: when it is still
    /// the current one, the process is gone (the caller reaps it and shows the
    /// idle look) and `true` is returned; a stale generation changes nothing.
    pub fn timer_expired(&mut self, generation: u64) -> (current: bool)
        ensures
            current == (generation == old(self).generation),
            current ==> *final(self) == (KeepAwake { running: false, ..*old(self) }),
            !current ==> *final(self) == *old(self),
    {
        if generation == self.generation {
            self.running = false;
            true
        } else {
            false
        }
    }

    /// Flips "keep display on" and, when a session is running, says how to
    /// re-apply it with what is left of that session: a Pomodoro cycle keeps
    /// going (same generation, so its phase, round, countdown and
    /// notifications carry on) and only its `caffeinate` is replaced; any
    /// other session restarts with its remaining time (`elapsed` seconds after
    /// it started), or until turned off when it had no length.
    pub fn toggle_display(&mut self, elapsed: Option<u64>) -> (restart: Option<DisplayRestart>)
        ensures
            *final(self) == (KeepAwake { keep_display: !old(self).keep_display, ..*old(self) }),
            !old(self).running ==> restart is None,
            old(self).running && old(self).pomodoro ==> (restart matches Some(DisplayRestart::Caffeinate(args))
                && args.deep_view() == caffeinate_argv(!old(self).keep_display, None)),
            old(self).running && !old(self).pomodoro ==> (restart matches Some(DisplayRestart::Session(total))
                && total == resumed_total(old(self).current_total, elapsed)),
    {
        self.keep_display = !self.keep_display;
        if !self.running {
            None
        } else if self.pomodoro {
            Some(DisplayRestart::Caffeinate(caffeinate_args(self.keep_display, None)))
        } else {
            let remaining = match (self.current_total, elapsed) {
                (Some(t), Some(e)) => Some(t.saturating_sub(e)),
                _ => None,
            };
            Some(DisplayRestart::Session(remaining))
        }
    }

    /// What a click on a menu item does: "Keep awake" turns a running session
    /// off and otherwise starts one until turned off; a timer starts a session
    /// of its length; "Stop Pomodoro" turns keep-awake off.
    pub fn reaction(&self, command: MenuCommand) -> (r: Reaction)
        ensures
            r == (match command {
                MenuCommand::ToggleAwake => if self.running { Reaction::TurnOff } else { Reaction::StartSession(None) },
                MenuCommand::ToggleDisplay => Reaction::ToggleDisplay,
                MenuCommand::ToggleAutostart => Reaction::ToggleAutostart,
                MenuCommand::Quit => Reaction::Quit,
                MenuCommand::KeepAwakeFor(secs) => Reaction::StartSession(Some(secs)),
                MenuCommand::StopPomodoro => Reaction::TurnOff,
                MenuCommand::StartPomodoro(config) => Reaction::StartPomodoro(config),
            }),
    {
        match command {
            MenuCommand::ToggleAwake => if self.running { Reaction::TurnOff } else { Reaction::StartSession(None) },
            MenuCommand::ToggleDisplay => Reaction::ToggleDisplay,
            MenuCommand::ToggleAutostart => Reaction::ToggleAutostart,
            MenuCommand::Quit => Reaction::Quit,
            MenuCommand::KeepAwakeFor(secs) => Reaction::StartSession(Some(secs)),
            MenuCommand::StopPomodoro => Reaction::TurnOff,
            MenuCommand::StartPomodoro(config) => Reaction::StartPomodoro(config),
        }
    }
}

/// `caffeinate` always keeps the system awake (`-i` first); it keeps the
/// display on (`-d`) exactly when the setting says so, whatever the session's
/// length; and it is given a time limit (`-t` followed by the seconds in
/// decimal, at the end) exactly for a timed session.
pub proof fn caffeinate_follows_settings(keep_display: bool, total: Option<u64>)
    ensures
        caffeinate_argv(keep_display, total)[0] == "-i"@,
        caffeinate_argv(keep_display, total).contains("-d"@) <==> keep_display,
        caffeinate_argv(keep_display, total).contains("-t"@) <==> total is Some,
        total matches Some(secs) ==> {
            let a = caffeinate_argv(keep_display, total);
            &&& a.last() == decimal(secs as nat)
            &&& a[a.len() - 2] == "-t"@
        },
        total is None ==> caffeinate_argv(keep_display, total).len() == if keep_display { 2nat } else { 1nat },
{
    reveal_strlit("-i");
    reveal_strlit("-d");
    reveal_strlit("-t");
    let a = caffeinate_argv(keep_display, total);
    assert("-i"@ != "-d"@) by { assert("-i"@[1] != "-d"@[1]); }
    assert("-t"@ != "-d"@) by { assert("-t"@[1] != "-d"@[1]); }
    assert("-i"@ != "-t"@) by { assert("-i"@[1] != "-t"@[1]); }
    if let Some(secs) = total {
        lemma_decimal_digits(secs as nat);
        assert(is_digit(decimal(secs as nat)[0]));
        assert(decimal(secs as nat) != "-d"@) by { assert(decimal(secs as nat)[0] != "-d"@[0]); }
        assert(decimal(secs as nat) != "-t"@) by { assert(decimal(secs as nat)[0] != "-t"@[0]); }
    }
    if keep_display {
        assert(a[1] == "-d"@);
    }
    if total is Some {
        assert(a[a.len() - 2] == "-t"@);
    }
    if !keep_display {
        assert forall|i: int| 0 <= i < a.len() implies a[i] != "-d"@ by {}
    }
    if total is None {
        assert forall|i: int| 0 <= i < a.len() implies a[i] != "-t"@ by {}
    }
}

/// The status line of a new session says how long it keeps the Mac awake
/// (the time left of a timed one, between "Awake — " and " left") and ends
/// with the note "(display may sleep)" exactly when the display is not kept on.
pub proof fn awake_status_tells_length_and_display(total: Option<u64>, keep_display: bool)
    ensures
        ({
            let t = awake_status_text(total, keep_display);
            let note = " (display may sleep)"@;
            let body = t.take(t.len() - display_note(keep_display).len());
            &&& keep_display ==> body == t
            &&& !keep_display ==> t.len() >= note.len() && t.skip(t.len() - note.len()) == note
            &&& total is None ==> body == "Awake — until turned off"@
            &&& total matches Some(secs) ==> body == "Awake — "@ + remaining_text(secs as nat) + " left"@
        }),
{
    let t = awake_status_text(total, keep_display);
    let note = " (display may sleep)"@;
    let body = match total {
        None => "Awake — until turned off"@,
        Some(secs) => "Awake — "@ + remaining_text(secs as nat) + " left"@,
    };
    assert(t =~= body + display_note(keep_display));
    assert(t.take(t.len() - display_note(keep_display).len()) =~= body);
    if !keep_display {
        assert(t.skip(t.len() - note.len()) =~= note);
    }
}

} // verus!
