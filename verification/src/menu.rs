//! The tray menu's item ids: what each id asks for, and the ids of the timer
//! and Pomodoro presets.

use vstd::prelude::*;
use vstd::string::*;
use crate::chars::{chars_of, has_prefix, is_text, skip_chars, split_chars, split_on, starts_with};
use crate::decimal::{
    decimal, decimal_parses_back, is_digit, lemma_decimal_digits, parse_u32, parse_u64,
    parse_unsigned, push_decimal,
};
use crate::pomodoro::PomodoroConfig;

verus! {

/// What a click on a menu item asks for.
#[derive(Clone, Copy, PartialEq, Eq, Structural, Debug)]
pub enum MenuCommand {
    /// "Keep awake": turn keep-awake off when on, on (until turned off) when off.
    ToggleAwake,
    /// "Keep display on".
    ToggleDisplay,
    /// "Launch at login".
    ToggleAutostart,
    /// "Quit Lucid".
    Quit,
    /// A "Keep awake for…" timer of this many seconds.
    KeepAwakeFor(u64),
    /// "Stop Pomodoro".
    StopPomodoro,
    /// A Pomodoro preset.
    StartPomodoro(PomodoroConfig),
}

/// The command of a Pomodoro item, given what follows `pomo:` in its id:
/// `stop`, or four numbers separated by colons (focus, short break and long
/// break in seconds, then the rounds before the long break).
pub open spec fn pomodoro_command(rest: Seq<char>) -> Option<MenuCommand> {
    if rest == "stop"@ {
        Some(MenuCommand::StopPomodoro)
    } else {
        let parts = split_on(rest, ':');
        if parts.len() == 4
            && parse_unsigned(parts[0], u64::MAX as nat) is Some
            && parse_unsigned(parts[1], u64::MAX as nat) is Some
            && parse_unsigned(parts[2], u64::MAX as nat) is Some
            && parse_unsigned(parts[3], u32::MAX as nat) is Some
        {
            Some(MenuCommand::StartPomodoro(PomodoroConfig {
                focus: parse_unsigned(parts[0], u64::MAX as nat)->0 as u64,
                short_break: parse_unsigned(parts[1], u64::MAX as nat)->0 as u64,
                long_break: parse_unsigned(parts[2], u64::MAX as nat)->0 as u64,
                rounds: parse_unsigned(parts[3], u32::MAX as nat)->0 as u32,
            }))
        } else {
            None
        }
    }
}

/// The command of the menu item with id `id`, or `None` when the id asks for
/// nothing.
pub open spec fn menu_command(id: Seq<char>) -> Option<MenuCommand> {
    if id == "toggle"@ {
        Some(MenuCommand::ToggleAwake)
    } else if id == "display"@ {
        Some(MenuCommand::ToggleDisplay)
    } else if id == "autostart"@ {
        Some(MenuCommand::ToggleAutostart)
    } else if id == "quit"@ {
        Some(MenuCommand::Quit)
    } else if has_prefix(id, "dur:"@)
        && parse_unsigned(id.skip("dur:"@.len() as int), u64::MAX as nat) is Some {
        Some(MenuCommand::KeepAwakeFor(
            parse_unsigned(id.skip("dur:"@.len() as int), u64::MAX as nat)->0 as u64,
        ))
    } else if has_prefix(id, "pomo:"@) {
        pomodoro_command(id.skip("pomo:"@.len() as int))
    } else {
        None
    }
}

/// Reads what follows `pomo:` in a Pomodoro item's id.
fn parse_pomodoro(rest: &Vec<char>) -> (cmd: Option<MenuCommand>)
    ensures
        cmd == pomodoro_command(rest@),
{
    if is_text(rest, "stop") {
        return Some(MenuCommand::StopPomodoro);
    }
    let parts = split_chars(rest, ':');
    assert(parts.deep_view().len() == parts@.len());
    if parts.len() != 4 {
        return None;
    }
    proof {
        assert forall|i: int| 0 <= i < 4 implies parts@[i]@ == #[trigger] split_on(rest@, ':')[i] by {
            assert(parts.deep_view()[i] == parts@[i].deep_view());
            assert(parts@[i].deep_view() =~= parts@[i]@);
        }
    }
    let focus = parse_u64(&parts[0]);
    let short_break = parse_u64(&parts[1]);
    let long_break = parse_u64(&parts[2]);
    let rounds = parse_u32(&parts[3]);
    match (focus, short_break, long_break, rounds) {
        (Some(focus), Some(short_break), Some(long_break), Some(rounds)) => {
            Some(MenuCommand::StartPomodoro(PomodoroConfig { focus, short_break, long_break, rounds }))
        },
        _ => None,
    }
}

/// What the menu item with id `id` asks for, as the tray's menu handler
/// reads it; `None` for an id that asks for nothing.
pub fn parse_menu_id(id: &str) -> (cmd: Option<MenuCommand>)
    ensures
        cmd == menu_command(id@),
{
    let s = chars_of(id);
    if is_text(&s, "toggle") {
        return Some(MenuCommand::ToggleAwake);
    }
    if is_text(&s, "display") {
        return Some(MenuCommand::ToggleDisplay);
    }
    if is_text(&s, "autostart") {
        return Some(MenuCommand::ToggleAutostart);
    }
    if is_text(&s, "quit") {
        return Some(MenuCommand::Quit);
    }
    let dur = chars_of("dur:");
    if starts_with(&s, &dur) {
        let rest = skip_chars(&s, dur.len());
        if let Some(secs) = parse_u64(&rest) {
            return Some(MenuCommand::KeepAwakeFor(secs));
        }
    }
    let pomo = chars_of("pomo:");
    if starts_with(&s, &pomo) {
        let rest = skip_chars(&s, pomo.len());
        return parse_pomodoro(&rest);
    }
    None
}

/// The id of the "Keep awake for…" item of a timer of `secs` seconds.
pub open spec fn duration_id(secs: nat) -> Seq<char> {
    "dur:"@ + decimal(secs)
}

/// The id of the "Keep awake for…" item of a timer of `secs` seconds: `dur:`
/// and the seconds.
pub fn duration_menu_id(secs: u64) -> (id: String)
    ensures
        id@ == duration_id(secs as nat),
{
    let mut id = String::new();
    id.append("dur:");
    push_decimal(&mut id, secs);
    id
}

/// The id of the item of a Pomodoro preset.
pub open spec fn pomodoro_id(config: PomodoroConfig) -> Seq<char> {
    "pomo:"@ + decimal(config.focus as nat) + seq![':'] + decimal(config.short_break as nat)
        + seq![':'] + decimal(config.long_break as nat) + seq![':'] + decimal(config.rounds as nat)
}

/// The id of the item of a Pomodoro preset: `pomo:`, then the focus, short
/// break and long break lengths in seconds and the rounds, separated by colons.
pub fn pomodoro_menu_id(config: &PomodoroConfig) -> (id: String)
    ensures
        id@ == pomodoro_id(*config),
{
    proof { reveal_strlit(":"); }
    let mut id = String::new();
    id.append("pomo:");
    push_decimal(&mut id, config.focus);
    id.append(":");
    push_decimal(&mut id, config.short_break);
    id.append(":");
    push_decimal(&mut id, config.long_break);
    id.append(":");
    push_decimal(&mut id, config.rounds as u64);
    id
}

/// Every split leaves at least one part.
proof fn lemma_split_nonempty(s: Seq<char>, sep: char)
    ensures
        split_on(s, sep).len() >= 1,
    decreases s.len(),
{
    if s.len() > 0 {
        lemma_split_nonempty(s.drop_last(), sep);
    }
}

/// Appending characters other than the separator extends the last part.
proof fn lemma_split_append(s: Seq<char>, x: Seq<char>, sep: char)
    requires
        forall|i: int| 0 <= i < x.len() ==> x[i] != sep,
    ensures
        split_on(s + x, sep) == split_on(s, sep).update(
            split_on(s, sep).len() - 1,
            split_on(s, sep).last() + x,
        ),
    decreases x.len(),
{
    lemma_split_nonempty(s, sep);
    if x.len() == 0 {
        assert(s + x =~= s);
        assert(split_on(s, sep).last() + x =~= split_on(s, sep).last());
        assert(split_on(s, sep).update(split_on(s, sep).len() - 1, split_on(s, sep).last())
            =~= split_on(s, sep));
    } else {
        lemma_split_append(s, x.drop_last(), sep);
        assert((s + x).drop_last() =~= s + x.drop_last());
        assert((s + x).last() == x.last());
        let p = split_on(s, sep);
        let q = split_on(s + x.drop_last(), sep);
        assert(x[x.len() - 1] != sep);
        assert(q =~= p.update(p.len() - 1, p.last() + x.drop_last()));
        assert(q.len() == p.len());
        assert(q.last() == p.last() + x.drop_last());
        assert(split_on(s + x, sep) == q.update(q.len() - 1, q.last().push(x.last())));
        assert(q.last().push(x.last()) =~= p.last() + x);
        assert(split_on(s + x, sep) =~= p.update(p.len() - 1, p.last() + x));
    }
}

/// Appending the separator starts a new, empty part.
proof fn lemma_split_sep(s: Seq<char>, sep: char)
    ensures
        split_on(s + seq![sep], sep) == split_on(s, sep).push(Seq::<char>::empty()),
{
    assert((s + seq![sep]).drop_last() =~= s);
}

/// Digits are never the colon that separates the fields of an id.
proof fn lemma_no_colon(n: nat)
    ensures
        forall|i: int| 0 <= i < decimal(n).len() ==> decimal(n)[i] != ':',
{
    lemma_decimal_digits(n);
    assert forall|i: int| 0 <= i < decimal(n).len() implies decimal(n)[i] != ':' by {
        assert(is_digit(decimal(n)[i]));
    }
}

/// The id of a timer item is read back as that timer.
pub proof fn duration_id_is_read_back(secs: u64)
    ensures
        menu_command(duration_id(secs as nat)) == Some(MenuCommand::KeepAwakeFor(secs)),
{
    reveal_strlit("dur:");
    reveal_strlit("toggle");
    reveal_strlit("display");
    reveal_strlit("autostart");
    reveal_strlit("quit");
    let id = duration_id(secs as nat);
    assert(id[0] == 'd');
    assert(id[1] == 'u');
    assert(id.take(4) =~= "dur:"@);
    assert(id.skip(4) =~= decimal(secs as nat));
    decimal_parses_back(secs as nat, u64::MAX as nat);
    assert(id != "toggle"@);
    assert(id != "display"@);
    assert(id != "autostart"@);
    assert(id != "quit"@);
}

/// The id of a Pomodoro preset's item is read back as that preset.
pub proof fn pomodoro_id_is_read_back(config: PomodoroConfig)
    ensures
        menu_command(pomodoro_id(config)) == Some(MenuCommand::StartPomodoro(config)),
{
    reveal_strlit("pomo:");
    reveal_strlit("dur:");
    reveal_strlit("toggle");
    reveal_strlit("display");
    reveal_strlit("autostart");
    reveal_strlit("quit");
    reveal_strlit("stop");
    let id = pomodoro_id(config);
    let d0 = decimal(config.focus as nat);
    let d1 = decimal(config.short_break as nat);
    let d2 = decimal(config.long_break as nat);
    let d3 = decimal(config.rounds as nat);
    let rest = d0 + seq![':'] + d1 + seq![':'] + d2 + seq![':'] + d3;
    assert(id =~= "pomo:"@ + rest);
    assert(id[0] == 'p');
    assert(id.take(5) =~= "pomo:"@);
    assert(id.skip(5) =~= rest);
    assert(id != "toggle"@);
    assert(id != "display"@);
    assert(id != "autostart"@);
    assert(id != "quit"@);
    assert(!has_prefix(id, "dur:"@)) by {
        assert(id.take(4)[0] == 'p');
    }
    lemma_decimal_digits(config.focus as nat);
    assert(is_digit(rest[0]));
    assert(rest != "stop"@) by {
        assert(rest[0] != "stop"@[0]);
    }
    lemma_no_colon(config.focus as nat);
    lemma_no_colon(config.short_break as nat);
    lemma_no_colon(config.long_break as nat);
    lemma_no_colon(config.rounds as nat);
    let e = Seq::<char>::empty();
    lemma_split_append(e, d0, ':');
    assert(e + d0 =~= d0);
    assert(split_on(d0, ':') =~= seq![d0]);
    lemma_split_sep(d0, ':');
    lemma_split_append(d0 + seq![':'], d1, ':');
    assert(split_on(d0 + seq![':'] + d1, ':') =~= seq![d0, d1]);
    lemma_split_sep(d0 + seq![':'] + d1, ':');
    lemma_split_append(d0 + seq![':'] + d1 + seq![':'], d2, ':');
    assert(split_on(d0 + seq![':'] + d1 + seq![':'] + d2, ':') =~= seq![d0, d1, d2]);
    lemma_split_sep(d0 + seq![':'] + d1 + seq![':'] + d2, ':');
    lemma_split_append(d0 + seq![':'] + d1 + seq![':'] + d2 + seq![':'], d3, ':');
    assert(split_on(rest, ':') =~= seq![d0, d1, d2, d3]);
    decimal_parses_back(config.focus as nat, u64::MAX as nat);
    decimal_parses_back(config.short_break as nat, u64::MAX as nat);
    decimal_parses_back(config.long_break as nat, u64::MAX as nat);
    decimal_parses_back(config.rounds as nat, u32::MAX as nat);
}

/// The timers under "Keep awake for…": length in seconds and label.
pub open spec fn timer_preset_table() -> Seq<(u64, Seq<char>)> {
    seq![
        (900u64, "15 minutes"@),
        (1800u64, "30 minutes"@),
        (3600u64, "1 hour"@),
        (7200u64, "2 hours"@),
        (14400u64, "4 hours"@),
        (28800u64, "8 hours"@),
    ]
}

/// The timers under "Keep awake for…", from 15 minutes to 8 hours, with
/// their labels, in menu order.
pub fn keep_awake_timers() -> (timers: Vec<(u64, String)>)
    ensures
        timers@.len() == timer_preset_table().len(),
        forall|i: int| 0 <= i < timers@.len() ==> {
            &&& #[trigger] timers@[i].0 == timer_preset_table()[i].0
            &&& timers@[i].1@ == timer_preset_table()[i].1
        },
{
    let mut timers: Vec<(u64, String)> = Vec::new();
    timers.push((900, String::from_str("15 minutes")));
    timers.push((1800, String::from_str("30 minutes")));
    timers.push((3600, String::from_str("1 hour")));
    timers.push((7200, String::from_str("2 hours")));
    timers.push((14400, String::from_str("4 hours")));
    timers.push((28800, String::from_str("8 hours")));
    timers
}

/// The Pomodoro presets: Classic (25 minutes of focus, 5-minute breaks,
/// a 15-minute long break) and Deep work (50 / 10, a 30-minute long break),
/// both with a long break after four rounds; with their labels, in menu order.
pub open spec fn pomodoro_preset_table() -> Seq<(PomodoroConfig, Seq<char>)> {
    seq![
        (PomodoroConfig { focus: 1500, short_break: 300, long_break: 900, rounds: 4 }, "Classic — 25 / 5"@),
        (PomodoroConfig { focus: 3000, short_break: 600, long_break: 1800, rounds: 4 }, "Deep work — 50 / 10"@),
    ]
}

/// The Pomodoro presets of the menu, with their labels, in menu order.
pub fn pomodoro_presets() -> (presets: Vec<(PomodoroConfig, String)>)
    ensures
        presets@.len() == pomodoro_preset_table().len(),
        forall|i: int| 0 <= i < presets@.len() ==> {
            &&& #[trigger] presets@[i].0 == pomodoro_preset_table()[i].0
            &&& presets@[i].1@ == pomodoro_preset_table()[i].1
        },
{
    let mut presets: Vec<(PomodoroConfig, String)> = Vec::new();
    presets.push((
        PomodoroConfig { focus: 1500, short_break: 300, long_break: 900, rounds: 4 },
        String::from_str("Classic — 25 / 5"),
    ));
    presets.push((
        PomodoroConfig { focus: 3000, short_break: 600, long_break: 1800, rounds: 4 },
        String::from_str("Deep work — 50 / 10"),
    ));
    presets
}

/// The fixed items ask for what they are named after, and an id that is no
/// item's asks for nothing.
pub proof fn fixed_items_are_read_as_named()
    ensures
        menu_command("toggle"@) == Some(MenuCommand::ToggleAwake),
        menu_command("display"@) == Some(MenuCommand::ToggleDisplay),
        menu_command("autostart"@) == Some(MenuCommand::ToggleAutostart),
        menu_command("quit"@) == Some(MenuCommand::Quit),
        menu_command("pomo:stop"@) == Some(MenuCommand::StopPomodoro),
        menu_command(Seq::<char>::empty()) is None,
{
    reveal_strlit("toggle");
    reveal_strlit("display");
    reveal_strlit("autostart");
    reveal_strlit("quit");
    reveal_strlit("pomo:stop");
    reveal_strlit("pomo:");
    reveal_strlit("stop");
    reveal_strlit("dur:");
    assert("display"@ != "toggle"@);
    assert("autostart"@ != "toggle"@);
    assert("autostart"@ != "display"@);
    assert("quit"@ != "toggle"@);
    assert("quit"@ != "display"@);
    assert("quit"@ != "autostart"@);
    let ps = "pomo:stop"@;
    assert(ps != "toggle"@);
    assert(ps != "display"@);
    assert(ps != "autostart"@);
    assert(ps != "quit"@);
    assert(!has_prefix(ps, "dur:"@)) by { assert(ps.take(4)[0] != "dur:"@[0]); }
    assert(ps.take(5) =~= "pomo:"@);
    assert(ps.skip(5) =~= "stop"@);
    let e = Seq::<char>::empty();
    assert(e != "toggle"@);
    assert(e != "display"@);
    assert(e != "autostart"@);
    assert(e != "quit"@);
}

} // verus!
