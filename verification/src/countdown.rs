//! The countdown in the menu bar: the remaining-time text, the pulsing icon
//! frames, and one tick of a timed keep-awake session.

use vstd::prelude::*;
use vstd::string::*;
use crate::decimal::{
    all_digits, decimal, decimal_pad2, digit_char, digits_value, is_digit, lemma_decimal_digits, push_decimal,
    push_decimal_pad2,
};

verus! {

/// The remaining time as the menu bar shows it: `H:MM:SS` from one hour on,
/// `M:SS` below.
pub open spec fn remaining_text(secs: nat) -> Seq<char> {
    let h = secs / 3600;
    let m = (secs % 3600) / 60;
    let s = secs % 60;
    if h > 0 {
        decimal(h) + seq![':'] + decimal_pad2(m) + seq![':'] + decimal_pad2(s)
    } else {
        decimal(m) + seq![':'] + decimal_pad2(s)
    }
}

/// Formats a number of seconds as `H:MM:SS` (one hour or more) or `M:SS`.
pub fn fmt_remaining(secs: u64) -> (text: String)
    ensures
        text@ == remaining_text(secs as nat),
{
    let h = secs / 3600;
    let m = (secs % 3600) / 60;
    let s = secs % 60;
    proof { reveal_strlit(":"); }
    let mut text = String::new();
    if h > 0 {
        push_decimal(&mut text, h);
        text.append(":");
        push_decimal_pad2(&mut text, m);
        text.append(":");
        push_decimal_pad2(&mut text, s);
    } else {
        push_decimal(&mut text, m);
        text.append(":");
        push_decimal_pad2(&mut text, s);
    }
    text
}

/// The icon frames of the "breathing" pulse, ping-ponging over five frames.
pub open spec fn pulse_sequence() -> Seq<nat> {
    seq![0nat, 1, 2, 3, 4, 3, 2, 1]
}

/// The frame shown at animation step `step`.
pub open spec fn pulse_frame_at(step: nat) -> nat {
    pulse_sequence()[(step % 8) as int]
}

/// The icon frame (an index into the five pulse images) for animation step `step`.
pub fn pulse_frame(step: usize) -> (frame: usize)
    ensures
        frame == pulse_frame_at(step as nat),
        frame < 5,
{
    let k = step % 8;
    if k == 0 {
        0
    } else if k == 1 {
        1
    } else if k == 2 {
        2
    } else if k == 3 {
        3
    } else if k == 4 {
        4
    } else if k == 5 {
        3
    } else if k == 6 {
        2
    } else {
        1
    }
}

/// The step after `step`, wrapping around at the end of `usize`.
pub open spec fn next_step(step: usize) -> usize {
    if step == usize::MAX { 0 } else { (step + 1) as usize }
}

pub fn advance_step(step: usize) -> (next: usize)
    ensures
        next == next_step(step),
{
    if step == usize::MAX { 0 } else { step + 1 }
}

/// The pulse breathes smoothly: consecutive animation steps show frames that
/// differ by exactly one, and every frame is one of the five images.
pub proof fn pulse_is_smooth(step: usize)
    ensures
        pulse_frame_at(step as nat) < 5,
        pulse_frame_at(next_step(step) as nat) == pulse_frame_at(step as nat) + 1
            || pulse_frame_at(next_step(step) as nat) + 1 == pulse_frame_at(step as nat),
{
    if step == usize::MAX {
        assert(usize::MAX == 0xffff_ffff || usize::MAX == 0xffff_ffff_ffff_ffff);
        assert(usize::MAX % 8 == 7);
    }
}

/// The status line while a timed session counts down.
pub open spec fn awake_left_text(secs: nat) -> Seq<char> {
    "Awake — "@ + remaining_text(secs) + " left"@
}

/// The status text `Awake — {remaining} left`.
pub fn awake_left_status(secs: u64) -> (text: String)
    ensures
        text@ == awake_left_text(secs as nat),
{
    let mut text = String::new();
    text.append("Awake — ");
    let rem = fmt_remaining(secs);
    text.append(rem.as_str());
    text.append(" left");
    text
}

/// What one tick of a keep-awake session's animation loop does.
pub enum CountdownTick {
    /// The timer ran out: the session ends and the menu bar goes idle.
    Expired,
    /// Show pulse image `frame`; when the remaining time changed, also show
    /// `title` beside the icon and `status` in the menu.
    Frame { frame: usize, title: Option<String>, status: Option<String> },
}

/// The state of a keep-awake session's animation loop.
pub struct Countdown {
    /// The session's length in seconds, `None` when it lasts until turned off.
    pub total: Option<u64>,
    pub step: usize,
    /// The remaining seconds last shown.
    pub last_shown: Option<u64>,
}

impl Countdown {
    /// The loop's state when the session starts.
    pub fn new(total: Option<u64>) -> (c: Countdown)
        ensures
            c.total == total,
            c.step == 0,
            c.last_shown is None,
    {
        Countdown { total, step: 0, last_shown: None }
    }

    /// One tick, `elapsed` whole seconds after the session started: expire
    /// once the time is up, else advance the pulse and, for a timed session,
    /// refresh the countdown text when the remaining seconds changed.
    pub fn tick(&mut self, elapsed: u64) -> (t: CountdownTick)
        ensures
            match old(self).total {
                Some(total) if elapsed >= total => {
                    &&& t is Expired
                    &&& *final(self) == *old(self)
                },
                _ => {
                    let rem = (old(self).total->0 - elapsed) as nat;
                    let changed = old(self).total is Some && old(self).last_shown != Some(rem as u64);
                    &&& t matches CountdownTick::Frame { frame, title, status } && {
                        &&& frame == pulse_frame_at(old(self).step as nat)
                        &&& (changed ==> (title matches Some(ti) && ti@ == remaining_text(rem)))
                        &&& (changed ==> (status matches Some(st) && st@ == awake_left_text(rem)))
                        &&& (!changed ==> title is None && status is None)
                    }
                    &&& final(self).total == old(self).total
                    &&& final(self).step == next_step(old(self).step)
                    &&& final(self).last_shown == (if changed { Some(rem as u64) } else { old(self).last_shown })
                },
            },
    {
        if let Some(total) = self.total {
            if elapsed >= total {
                return CountdownTick::Expired;
            }
        }
        let frame = pulse_frame(self.step);
        self.step = advance_step(self.step);
        match self.total {
            Some(total) => {
                let rem = total - elapsed;
                if self.last_shown != Some(rem) {
                    self.last_shown = Some(rem);
                    CountdownTick::Frame {
                        frame,
                        title: Some(fmt_remaining(rem)),
                        status: Some(awake_left_status(rem)),
                    }
                } else {
                    CountdownTick::Frame { frame, title: None, status: None }
                }
            },
            None => CountdownTick::Frame { frame, title: None, status: None },
        }
    }
}

/// A minutes or seconds field (below sixty) is two digits denoting its value.
proof fn lemma_pad2(n: nat)
    requires
        n < 60,
    ensures
        decimal_pad2(n).len() == 2,
        all_digits(decimal_pad2(n)),
        digits_value(decimal_pad2(n)) == n,
{
    lemma_decimal_digits(n);
    if n < 10 {
        let p = decimal_pad2(n);
        assert(decimal(n) == seq![digit_char(n)]);
        assert(p =~= seq!['0', digit_char(n)]);
        assert(p.drop_last() =~= seq!['0']);
        assert(seq!['0'].drop_last() =~= Seq::<char>::empty());
        assert(digits_value(Seq::<char>::empty()) == 0);
        assert(seq!['0'].last() == '0');
        assert(digits_value(seq!['0']) == 0);
        assert(is_digit(decimal(n)[0]));
    } else {
        assert(decimal(n) == decimal(n / 10).push(digit_char(n % 10)));
        assert(decimal(n / 10) == seq![digit_char(n / 10)]);
    }
}

/// The remaining time in whole hours, minutes and seconds.
proof fn lemma_clock_parts(secs: nat)
    ensures
        secs == (secs / 3600) * 3600 + ((secs % 3600) / 60) * 60 + secs % 60,
        (secs % 3600) / 60 < 60,
        secs % 60 < 60,
        secs / 3600 == 0 ==> secs == ((secs % 3600) / 60) * 60 + secs % 60,
{
    vstd::arithmetic::div_mod::lemma_fundamental_div_mod(secs as int, 3600);
    vstd::arithmetic::div_mod::lemma_fundamental_div_mod((secs % 3600) as int, 60);
    vstd::arithmetic::div_mod::lemma_mod_mod(secs as int, 60, 60);
    vstd::arithmetic::div_mod::lemma_mod_bound(secs as int, 3600);
}

/// Each second of the countdown reads differently: two remaining times that
/// show the same text are the same time.
pub proof fn remaining_text_is_injective(a: nat, b: nat)
    requires
        remaining_text(a) == remaining_text(b),
    ensures
        a == b,
{
    lemma_clock_parts(a);
    lemma_clock_parts(b);
    let (ha, ma, sa) = (a / 3600, (a % 3600) / 60, a % 60);
    let (hb, mb, sb) = (b / 3600, (b % 3600) / 60, b % 60);
    lemma_pad2(ma);
    lemma_pad2(sa);
    lemma_pad2(mb);
    lemma_pad2(sb);
    lemma_decimal_digits(ha);
    lemma_decimal_digits(hb);
    lemma_decimal_digits(ma);
    lemma_decimal_digits(mb);
    let t = remaining_text(a);
    let n = t.len();
    if ha > 0 {
        assert(t =~= decimal(ha) + seq![':'] + decimal_pad2(ma) + seq![':'] + decimal_pad2(sa));
    } else {
        assert(t =~= decimal(ma) + seq![':'] + decimal_pad2(sa));
    }
    if hb > 0 {
        assert(t =~= decimal(hb) + seq![':'] + decimal_pad2(mb) + seq![':'] + decimal_pad2(sb));
    } else {
        assert(t =~= decimal(mb) + seq![':'] + decimal_pad2(sb));
    }
    // the seconds are the last two characters
    assert(t.skip(n - 2) =~= decimal_pad2(sa));
    assert(t.skip(n - 2) =~= decimal_pad2(sb));
    if ha > 0 && hb > 0 {
        assert(t.subrange(n - 5, n - 3) =~= decimal_pad2(ma));
        assert(t.subrange(n - 5, n - 3) =~= decimal_pad2(mb));
        assert(t.take(n - 6) =~= decimal(ha));
        assert(t.take(n - 6) =~= decimal(hb));
    } else if ha == 0 && hb == 0 {
        assert(t.take(n - 3) =~= decimal(ma));
        assert(t.take(n - 3) =~= decimal(mb));
    } else if ha > 0 {
        // the minutes field of `b` would hold the colon after `a`'s hours
        let k = decimal(ha).len() as int;
        assert(t[k] == ':');
        assert(t.take(n - 3) =~= decimal(mb));
        assert(t.take(n - 3)[k] == t[k]);
        assert(is_digit(decimal(mb)[k]));
    } else {
        let k = decimal(hb).len() as int;
        assert(t[k] == ':');
        assert(t.take(n - 3) =~= decimal(ma));
        assert(t.take(n - 3)[k] == t[k]);
        assert(is_digit(decimal(ma)[k]));
    }
}

/// The countdown's status line is "Awake — ", then exactly the text shown
/// beside the icon for the same remaining time, then " left" (hours
/// included); so, like the title, it reads differently for every second.
pub proof fn status_line_holds_title(a: nat, b: nat)
    ensures
        awake_left_text(a) == "Awake — "@ + remaining_text(a) + " left"@,
        awake_left_text(a).subrange(
            "Awake — "@.len() as int,
            awake_left_text(a).len() - " left"@.len(),
        ) == remaining_text(a),
        awake_left_text(a) == awake_left_text(b) ==> a == b,
{
    let p = "Awake — "@;
    let q = " left"@;
    assert((p + remaining_text(a) + q).subrange(p.len() as int, (p + remaining_text(a) + q).len() - q.len())
        =~= remaining_text(a));
    assert((p + remaining_text(b) + q).subrange(p.len() as int, (p + remaining_text(b) + q).len() - q.len())
        =~= remaining_text(b));
    if awake_left_text(a) == awake_left_text(b) {
        remaining_text_is_injective(a, b);
    }
}

/// The countdown reads back as the time it shows: from one hour on, the
/// hours, then two-digit minutes and two-digit seconds after colons; below an
/// hour, the minutes, then two-digit seconds after a colon.
pub proof fn remaining_text_reads_back(secs: nat)
    ensures
        ({
            let t = remaining_text(secs);
            let n = t.len() as int;
            &&& n >= 4
            &&& t[n - 3] == ':'
            &&& all_digits(t.skip(n - 2))
            &&& digits_value(t.skip(n - 2)) == secs % 60
            &&& secs >= 3600 ==> {
                &&& n >= 7
                &&& t[n - 6] == ':'
                &&& all_digits(t.subrange(n - 5, n - 3))
                &&& digits_value(t.subrange(n - 5, n - 3)) == (secs % 3600) / 60
                &&& all_digits(t.take(n - 6))
                &&& digits_value(t.take(n - 6)) == secs / 3600
            }
            &&& secs < 3600 ==> {
                &&& all_digits(t.take(n - 3))
                &&& digits_value(t.take(n - 3)) == secs / 60
            }
        }),
{
    lemma_clock_parts(secs);
    let (h, m, s) = (secs / 3600, (secs % 3600) / 60, secs % 60);
    lemma_pad2(m);
    lemma_pad2(s);
    lemma_decimal_digits(h);
    lemma_decimal_digits(m);
    let t = remaining_text(secs);
    let n = t.len() as int;
    if h > 0 {
        assert(t =~= decimal(h) + seq![':'] + decimal_pad2(m) + seq![':'] + decimal_pad2(s));
        assert(t.skip(n - 2) =~= decimal_pad2(s));
        assert(t.subrange(n - 5, n - 3) =~= decimal_pad2(m));
        assert(t.take(n - 6) =~= decimal(h));
    } else {
        assert(secs < 3600) by {
            vstd::arithmetic::div_mod::lemma_fundamental_div_mod(secs as int, 3600);
            vstd::arithmetic::div_mod::lemma_mod_bound(secs as int, 3600);
        }
        assert(secs % 3600 == secs) by {
            vstd::arithmetic::div_mod::lemma_small_mod(secs, 3600);
        }
        assert(t =~= decimal(m) + seq![':'] + decimal_pad2(s));
        assert(t.skip(n - 2) =~= decimal_pad2(s));
        assert(t.take(n - 3) =~= decimal(m));
    }
    if secs >= 3600 {
        assert(h > 0) by {
            vstd::arithmetic::div_mod::lemma_div_is_ordered(3600, secs as int, 3600);
        }
    }
}

} // verus!
