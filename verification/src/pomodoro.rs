//! The Pomodoro cycle: focus blocks and breaks, with a long break after the
//! configured number of focus rounds, and the texts that go with each phase.

use vstd::prelude::*;
use vstd::string::*;
use crate::countdown::{
    advance_step, fmt_remaining, next_step, pulse_frame, pulse_frame_at, remaining_text,
};
use crate::decimal::{decimal, lemma_number_between, push_decimal, shows_number_at};

verus! {

/// The three Pomodoro phases.
#[derive(Clone, Copy, PartialEq, Eq, Structural, Debug)]
pub enum Phase {
    Focus,
    ShortBreak,
    LongBreak,
}

/// A Pomodoro preset: the phase lengths in seconds and the number of focus
/// rounds before the long break.
#[derive(Clone, Copy, PartialEq, Eq, Structural, Debug)]
pub struct PomodoroConfig {
    pub focus: u64,
    pub short_break: u64,
    pub long_break: u64,
    pub rounds: u32,
}

impl PomodoroConfig {
    /// How long `phase` lasts under this preset, in seconds.
    pub open spec fn length_of(self, phase: Phase) -> u64 {
        match phase {
            Phase::Focus => self.focus,
            Phase::ShortBreak => self.short_break,
            Phase::LongBreak => self.long_break,
        }
    }

    /// How long `phase` lasts under this preset, in seconds.
    pub fn phase_length(&self, phase: Phase) -> (secs: u64)
        ensures
            secs == self.length_of(phase),
    {
        match phase {
            Phase::Focus => self.focus,
            Phase::ShortBreak => self.short_break,
            Phase::LongBreak => self.long_break,
        }
    }
}

/// The emoji shown beside the countdown in each phase.
pub open spec fn emoji_of(p: Phase) -> Seq<char> {
    match p {
        Phase::Focus => "🍅"@,
        _ => "☕"@,
    }
}

/// The emoji shown beside the countdown: a tomato while focusing, a cup of
/// coffee during either break.
pub fn phase_emoji(p: Phase) -> (e: &'static str)
    ensures
        e@ == emoji_of(p),
{
    match p {
        Phase::Focus => "🍅",
        _ => "☕",
    }
}

/// The phase and focus round that follow `phase` (in focus round `round` of
/// `rounds`): a short break after a focus block, a long break after the last
/// focus round, and back to focus after either break (round one after the
/// long break).
pub open spec fn phase_after(phase: Phase, round: nat, rounds: nat) -> (Phase, nat) {
    match phase {
        Phase::Focus => if round >= rounds { (Phase::LongBreak, round) } else { (Phase::ShortBreak, round) },
        Phase::ShortBreak => (Phase::Focus, round + 1),
        Phase::LongBreak => (Phase::Focus, 1),
    }
}

/// Given the phase that just finished, computes the next phase and focus round.
pub fn next_phase(phase: Phase, round: u32, rounds: u32) -> (next: (Phase, u32))
    requires
        phase == Phase::ShortBreak ==> round < u32::MAX,
    ensures
        (next.0, next.1 as nat) == phase_after(phase, round as nat, rounds as nat),
{
    match phase {
        Phase::Focus => {
            if round >= rounds {
                (Phase::LongBreak, round)
            } else {
                (Phase::ShortBreak, round)
            }
        },
        Phase::ShortBreak => (Phase::Focus, round + 1),
        Phase::LongBreak => (Phase::Focus, 1),
    }
}

/// The phase and round `k` phase changes after the start of a cycle.
pub open spec fn phase_after_steps(rounds: nat, k: nat) -> (Phase, nat)
    decreases k,
{
    if k == 0 {
        (Phase::Focus, 1)
    } else {
        let prev = phase_after_steps(rounds, (k - 1) as nat);
        phase_after(prev.0, prev.1, rounds)
    }
}

/// Where a cycle of `rounds` focus rounds stands at position `k` of its
/// `2 * rounds` phases: focus rounds at even positions, each followed by a
/// short break, except the last, which is followed by the long break.
pub open spec fn cycle_position(rounds: nat, k: nat) -> (Phase, nat) {
    if k % 2 == 0 {
        (Phase::Focus, k / 2 + 1)
    } else if k + 1 == 2 * rounds {
        (Phase::LongBreak, rounds)
    } else {
        (Phase::ShortBreak, (k + 1) / 2)
    }
}

/// The cycle repeats every `2 * rounds` phases: `rounds` focus blocks, a short
/// break between consecutive ones, and a long break after the last one, then
/// back to focus round one.
pub proof fn pomodoro_cycle(rounds: nat, k: nat)
    requires
        rounds >= 1,
    ensures
        phase_after_steps(rounds, k) == cycle_position(rounds, k % (2 * rounds)),
    decreases k,
{
    if k > 0 {
        let n = 2 * rounds;
        pomodoro_cycle(rounds, (k - 1) as nat);
        let j = ((k - 1) as nat) % n;
        assert(0 <= j < n) by {
            vstd::arithmetic::div_mod::lemma_mod_bound((k - 1) as int, n as int);
        }
        assert(k % n == (j + 1) % n) by {
            vstd::arithmetic::div_mod::lemma_add_mod_noop((k - 1) as int, 1, n as int);
            vstd::arithmetic::div_mod::lemma_small_mod(1, n);
        }
        let prev = phase_after_steps(rounds, (k - 1) as nat);
        assert(prev == cycle_position(rounds, j));
        assert(phase_after_steps(rounds, k) == phase_after(prev.0, prev.1, rounds));
        if j + 1 == n {
            vstd::arithmetic::div_mod::lemma_mod_self_0(n as int);
            assert(k % n == 0);
        } else {
            vstd::arithmetic::div_mod::lemma_small_mod((j + 1) as nat, n);
            assert(k % n == j + 1);
            if j % 2 == 0 {
                assert(prev == (Phase::Focus, j / 2 + 1));
                assert(j / 2 + 1 <= rounds);
            } else {
                assert(prev == (Phase::ShortBreak, (j + 1) / 2));
            }
        }
    } else {
        assert(0nat % (2 * rounds) == 0) by {
            vstd::arithmetic::div_mod::lemma_small_mod(0, 2 * rounds);
        }
    }
}

/// The status line in the menu during a Pomodoro phase.
pub open spec fn pomodoro_status_text(phase: Phase, round: nat, rounds: nat, rem: nat) -> Seq<char> {
    match phase {
        Phase::Focus => "Focus — round "@ + decimal(round) + "/"@ + decimal(rounds) + " · "@
            + remaining_text(rem) + " left"@,
        Phase::ShortBreak => "Break — "@ + remaining_text(rem) + " left"@,
        Phase::LongBreak => "Long break — "@ + remaining_text(rem) + " left"@,
    }
}

/// The status line in the menu: the phase, the focus round and the time left.
pub fn pomodoro_status(phase: Phase, round: u32, rounds: u32, rem: u64) -> (text: String)
    ensures
        text@ == pomodoro_status_text(phase, round as nat, rounds as nat, rem as nat),
{
    let mut text = String::new();
    let left = fmt_remaining(rem);
    match phase {
        Phase::Focus => {
            text.append("Focus — round ");
            push_decimal(&mut text, round as u64);
            text.append("/");
            push_decimal(&mut text, rounds as u64);
            text.append(" · ");
        },
        Phase::ShortBreak => {
            text.append("Break — ");
        },
        Phase::LongBreak => {
            text.append("Long break — ");
        },
    }
    text.append(left.as_str());
    text.append(" left");
    text
}

/// The text beside the menu-bar icon during a Pomodoro phase.
pub open spec fn pomodoro_title_text(phase: Phase, rem: nat) -> Seq<char> {
    emoji_of(phase) + " "@ + remaining_text(rem)
}

/// The text beside the menu-bar icon: the phase's emoji and the time left.
pub fn pomodoro_title(phase: Phase, rem: u64) -> (text: String)
    ensures
        text@ == pomodoro_title_text(phase, rem as nat),
{
    let mut text = String::new();
    text.append(phase_emoji(phase));
    text.append(" ");
    let left = fmt_remaining(rem);
    text.append(left.as_str());
    text
}

/// The notification announcing the switch to phase `next`.
pub open spec fn phase_change_text(config: PomodoroConfig, next: Phase, next_round: nat) -> Seq<char> {
    match next {
        Phase::ShortBreak => "Focus done — take a "@ + decimal((config.short_break / 60) as nat)
            + "-minute break."@,
        Phase::LongBreak => "Great work! Take a longer "@ + decimal((config.long_break / 60) as nat)
            + "-minute break."@,
        Phase::Focus => "Break's over — back to focus (round "@ + decimal(next_round) + " of "@
            + decimal(config.rounds as nat) + ")."@,
    }
}

/// The notification text for a switch to phase `next` (in focus round
/// `next_round`): the break's length in whole minutes, or the focus round.
pub fn phase_change_message(config: &PomodoroConfig, next: Phase, next_round: u32) -> (text: String)
    ensures
        text@ == phase_change_text(*config, next, next_round as nat),
{
    let mut text = String::new();
    match next {
        Phase::ShortBreak => {
            text.append("Focus done — take a ");
            push_decimal(&mut text, config.short_break / 60);
            text.append("-minute break.");
        },
        Phase::LongBreak => {
            text.append("Great work! Take a longer ");
            push_decimal(&mut text, config.long_break / 60);
            text.append("-minute break.");
        },
        Phase::Focus => {
            text.append("Break's over — back to focus (round ");
            push_decimal(&mut text, next_round as u64);
            text.append(" of ");
            push_decimal(&mut text, config.rounds as u64);
            text.append(").");
        },
    }
    text
}

/// What one tick of the Pomodoro loop shows.
pub struct PomodoroFrame {
    /// The pulse image to show.
    pub frame: usize,
    /// Whether the remaining seconds changed, so `title` and `status` are shown.
    pub push_text: bool,
    /// The text beside the icon.
    pub title: String,
    /// The status line in the menu.
    pub status: String,
}

/// What a running Pomodoro cycle's loop holds.
pub struct PomodoroTimerView {
    pub config: PomodoroConfig,
    pub phase: Phase,
    /// The current focus round, counted from one.
    pub round: u32,
    /// The length of the current phase in seconds.
    pub phase_total: u64,
    pub step: usize,
    /// The remaining seconds last shown in this phase.
    pub last_shown: Option<u64>,
}

impl PomodoroTimerView {
    /// The round is counted from one and stays within the preset's rounds (a
    /// preset of no rounds still runs round one); a short break only follows
    /// a focus round that is not the last; the phase's length is the preset's.
    pub open spec fn well_formed(self) -> bool {
        &&& self.round >= 1
        &&& (self.round <= self.config.rounds || self.round == 1)
        &&& (self.phase == Phase::ShortBreak ==> self.round < self.config.rounds)
        &&& self.phase_total == self.config.length_of(self.phase)
    }
}

/// The state of a running Pomodoro cycle's loop; it is always well-formed.
pub struct PomodoroTimer {
    config: PomodoroConfig,
    phase: Phase,
    round: u32,
    phase_total: u64,
    step: usize,
    last_shown: Option<u64>,
}

impl View for PomodoroTimer {
    type V = PomodoroTimerView;

    closed spec fn view(&self) -> PomodoroTimerView {
        PomodoroTimerView {
            config: self.config,
            phase: self.phase,
            round: self.round,
            phase_total: self.phase_total,
            step: self.step,
            last_shown: self.last_shown,
        }
    }
}

impl PomodoroTimer {
    #[verifier::type_invariant]
    spec fn inv(self) -> bool {
        self@.well_formed()
    }

    /// A cycle that starts with focus round one.
    pub fn new(config: PomodoroConfig) -> (t: PomodoroTimer)
        ensures
            t@ == (PomodoroTimerView {
                config,
                phase: Phase::Focus,
                round: 1,
                phase_total: config.focus,
                step: 0,
                last_shown: None,
            }),
            t@.well_formed(),
    {
        PomodoroTimer {
            config,
            phase: Phase::Focus,
            round: 1,
            phase_total: config.focus,
            step: 0,
            last_shown: None,
        }
    }

    /// The preset the cycle runs.
    pub fn config(&self) -> (c: PomodoroConfig)
        ensures
            c == self@.config,
    {
        self.config
    }

    /// The current phase.
    pub fn phase(&self) -> (p: Phase)
        ensures
            p == self@.phase,
    {
        self.phase
    }

    /// The current focus round, counted from one.
    pub fn round(&self) -> (r: u32)
        ensures
            r == self@.round,
    {
        self.round
    }

    /// The length of the current phase in seconds.
    pub fn phase_total(&self) -> (secs: u64)
        ensures
            secs == self@.phase_total,
    {
        self.phase_total
    }

    /// The animation step of the pulse.
    pub fn step(&self) -> (step: usize)
        ensures
            step == self@.step,
    {
        self.step
    }

    /// The remaining seconds last shown in this phase.
    pub fn last_shown(&self) -> (shown: Option<u64>)
        ensures
            shown == self@.last_shown,
    {
        self.last_shown
    }

    /// Once `elapsed` seconds of the current phase reach its length, moves to
    /// the next phase and returns it with its focus round; the caller restarts
    /// the phase clock and announces the change.
    pub fn advance_if_due(&mut self, elapsed: u64) -> (change: Option<(Phase, u32)>)
        ensures
            final(self)@.well_formed(),
            elapsed >= old(self)@.phase_total ==> {
                let n = phase_after(old(self)@.phase, old(self)@.round as nat, old(self)@.config.rounds as nat);
                &&& change == Some((n.0, n.1 as u32))
                &&& n.1 <= u32::MAX
                &&& final(self)@ == (PomodoroTimerView {
                    phase: n.0,
                    round: n.1 as u32,
                    phase_total: old(self)@.config.length_of(n.0),
                    last_shown: None,
                    ..old(self)@
                })
            },
            elapsed < old(self)@.phase_total ==> change is None && final(self)@ == old(self)@,
    {
        proof { use_type_invariant(&*self); }
        if elapsed >= self.phase_total {
            let (next, next_round) = next_phase(self.phase, self.round, self.config.rounds);
            *self = PomodoroTimer {
                config: self.config,
                phase: next,
                round: next_round,
                phase_total: self.config.phase_length(next),
                step: self.step,
                last_shown: None,
            };
            proof { use_type_invariant(&*self); }
            Some((next, next_round))
        } else {
            None
        }
    }

    /// One tick of the loop, `elapsed` seconds into the current phase: the
    /// pulse image, and the countdown texts, marked for showing when the
    /// remaining seconds changed.
    pub fn frame(&mut self, elapsed: u64) -> (f: PomodoroFrame)
        ensures
            final(self)@.well_formed(),
            ({
                let rem: nat = if elapsed >= old(self)@.phase_total { 0 } else { (old(self)@.phase_total - elapsed) as nat };
                let push = old(self)@.last_shown != Some(rem as u64);
                &&& f.frame == pulse_frame_at(old(self)@.step as nat)
                &&& f.push_text == push
                &&& f.title@ == pomodoro_title_text(old(self)@.phase, rem)
                &&& f.status@ == pomodoro_status_text(
                    old(self)@.phase,
                    old(self)@.round as nat,
                    old(self)@.config.rounds as nat,
                    rem,
                )
                &&& final(self)@ == (PomodoroTimerView {
                    step: next_step(old(self)@.step),
                    last_shown: if push { Some(rem as u64) } else { old(self)@.last_shown },
                    ..old(self)@
                })
            }),
    {
        proof { use_type_invariant(&*self); }
        let rem = self.phase_total.saturating_sub(elapsed);
        let frame = pulse_frame(self.step);
        let push_text = self.last_shown != Some(rem);
        let last_shown = if push_text { Some(rem) } else { self.last_shown };
        *self = PomodoroTimer {
            config: self.config,
            phase: self.phase,
            round: self.round,
            phase_total: self.phase_total,
            step: advance_step(self.step),
            last_shown,
        };
        proof { use_type_invariant(&*self); }
        let title = pomodoro_title(self.phase, rem);
        let status = pomodoro_status(self.phase, self.round, self.config.rounds, rem);
        PomodoroFrame { frame, push_text, title, status }
    }
}

/// Each phase lasts the preset's own length for it: focus blocks the focus
/// length, short breaks the short-break length, the long break the
/// long-break length.
pub proof fn phase_lengths_follow_preset(config: PomodoroConfig)
    ensures
        config.length_of(Phase::Focus) == config.focus,
        config.length_of(Phase::ShortBreak) == config.short_break,
        config.length_of(Phase::LongBreak) == config.long_break,
{
}

/// A running cycle's current phase lasts what the preset gives that phase;
/// in particular, a long break lasts the preset's long break.
pub proof fn running_phase_lasts_preset_length(t: PomodoroTimerView)
    requires
        t.well_formed(),
    ensures
        t.phase == Phase::Focus ==> t.phase_total == t.config.focus,
        t.phase == Phase::ShortBreak ==> t.phase_total == t.config.short_break,
        t.phase == Phase::LongBreak ==> t.phase_total == t.config.long_break,
{
}

/// The title beside the icon is the phase's emoji, a space and the time left:
/// a tomato while focusing, a cup of coffee during either break, so focus and
/// break titles never look alike.
pub proof fn title_shows_phase_emoji(phase: Phase, rem: nat)
    ensures
        phase == Phase::Focus ==> pomodoro_title_text(phase, rem) == "🍅"@ + " "@ + remaining_text(rem),
        phase != Phase::Focus ==> pomodoro_title_text(phase, rem) == "☕"@ + " "@ + remaining_text(rem),
        pomodoro_title_text(Phase::ShortBreak, rem) == pomodoro_title_text(Phase::LongBreak, rem),
        pomodoro_title_text(Phase::Focus, rem) != pomodoro_title_text(Phase::ShortBreak, rem),
{
    reveal_strlit("🍅");
    reveal_strlit("☕");
    let f = pomodoro_title_text(Phase::Focus, rem);
    let b = pomodoro_title_text(Phase::ShortBreak, rem);
    assert(f[0] == '🍅');
    assert(b[0] == '☕');
}

/// The notifications name what they announce: the break's length in whole
/// minutes of the preset's short or long break, and, back to focus, the round
/// being entered and the preset's rounds.
pub proof fn phase_change_names_its_numbers(config: PomodoroConfig, next_round: nat)
    ensures
        ({
            let t = phase_change_text(config, Phase::ShortBreak, next_round);
            let p = "Focus done — take a "@;
            &&& t.take(p.len() as int) == p
            &&& shows_number_at(t, p.len() as int, (config.short_break / 60) as nat)
        }),
        ({
            let t = phase_change_text(config, Phase::LongBreak, next_round);
            let p = "Great work! Take a longer "@;
            &&& t.take(p.len() as int) == p
            &&& shows_number_at(t, p.len() as int, (config.long_break / 60) as nat)
        }),
        ({
            let t = phase_change_text(config, Phase::Focus, next_round);
            let p = "Break's over — back to focus (round "@;
            &&& t.take(p.len() as int) == p
            &&& shows_number_at(t, p.len() as int, next_round)
            &&& shows_number_at(t, (p + decimal(next_round) + " of "@).len() as int, config.rounds as nat)
        }),
{
    reveal_strlit("-minute break.");
    reveal_strlit(" of ");
    reveal_strlit(").");
    let short = (config.short_break / 60) as nat;
    let long = (config.long_break / 60) as nat;
    let ps = "Focus done — take a "@;
    lemma_number_between(ps, short, "-minute break."@);
    assert(phase_change_text(config, Phase::ShortBreak, next_round) =~= ps + decimal(short) + "-minute break."@);
    assert((ps + decimal(short) + "-minute break."@).take(ps.len() as int) =~= ps);
    let pl = "Great work! Take a longer "@;
    lemma_number_between(pl, long, "-minute break."@);
    assert(phase_change_text(config, Phase::LongBreak, next_round) =~= pl + decimal(long) + "-minute break."@);
    assert((pl + decimal(long) + "-minute break."@).take(pl.len() as int) =~= pl);
    let pf = "Break's over — back to focus (round "@;
    let rest = " of "@ + decimal(config.rounds as nat) + ")."@;
    let t = phase_change_text(config, Phase::Focus, next_round);
    assert(t =~= pf + decimal(next_round) + rest);
    assert(rest[0] == ' ');
    lemma_number_between(pf, next_round, rest);
    assert((pf + decimal(next_round) + rest).take(pf.len() as int) =~= pf);
    let head = pf + decimal(next_round) + " of "@;
    assert(t =~= head + decimal(config.rounds as nat) + ")."@);
    lemma_number_between(head, config.rounds as nat, ")."@);
}

/// The status line names the phase and ends with the time left; while
/// focusing it shows the current round and the preset's rounds.
pub proof fn status_names_phase_round_and_time(phase: Phase, round: nat, rounds: nat, rem: nat)
    ensures
        ({
            let t = pomodoro_status_text(phase, round, rounds, rem);
            let tail = remaining_text(rem) + " left"@;
            &&& t.skip(t.len() - tail.len()) == tail
            &&& phase == Phase::Focus ==> {
                let p = "Focus — round "@;
                &&& t.take(p.len() as int) == p
                &&& shows_number_at(t, p.len() as int, round)
                &&& shows_number_at(t, (p + decimal(round) + "/"@).len() as int, rounds)
            }
            &&& phase == Phase::ShortBreak ==> t.take(t.len() - tail.len()) == "Break — "@
            &&& phase == Phase::LongBreak ==> t.take(t.len() - tail.len()) == "Long break — "@
        }),
{
    reveal_strlit("/");
    reveal_strlit(" · ");
    let t = pomodoro_status_text(phase, round, rounds, rem);
    let tail = remaining_text(rem) + " left"@;
    match phase {
        Phase::Focus => {
            let p = "Focus — round "@;
            let mid = "/"@ + decimal(rounds) + " · "@;
            assert(t =~= p + decimal(round) + (mid + tail));
            lemma_number_between(p, round, mid + tail);
            assert(t.take(p.len() as int) =~= p);
            let head = p + decimal(round) + "/"@;
            assert(t =~= head + decimal(rounds) + (" · "@ + tail));
            lemma_number_between(head, rounds, " · "@ + tail);
            assert(t.skip(t.len() - tail.len()) =~= tail);
        },
        Phase::ShortBreak => {
            assert(t =~= "Break — "@ + tail);
            assert(t.skip(t.len() - tail.len()) =~= tail);
            assert(t.take(t.len() - tail.len()) =~= "Break — "@);
        },
        Phase::LongBreak => {
            assert(t =~= "Long break — "@ + tail);
            assert(t.skip(t.len() - tail.len()) =~= tail);
            assert(t.take(t.len() - tail.len()) =~= "Long break — "@);
        },
    }
}

} // verus!
