//! The display formatter: the clock reading of `now + duration` in
//! 12-hour form, marked `(tomorrow)` when it falls on a later calendar
//! day.

use vstd::prelude::*;

use vstd::arithmetic::div_mod::lemma_add_mod_noop_right;
use vstd::arithmetic::div_mod::lemma_fundamental_div_mod_converse_div;
use vstd::arithmetic::div_mod::lemma_fundamental_div_mod_converse_mod;
use vstd::arithmetic::div_mod::lemma_mod_add_multiples_vanish;
use vstd::arithmetic::div_mod::lemma_small_mod;

use crate::ElapsedDuration;
use crate::SECS_PER_DAY;
use crate::TimeOfDay;
use crate::absolute::normalized_target;
use crate::absolute::candidate_secs;
use crate::absolute::resolve_secs;

verus! {

/// The character of one decimal digit.
pub open spec fn digit_char(d: int) -> char {
    if d == 0 {
        '0'
    } else if d == 1 {
        '1'
    } else if d == 2 {
        '2'
    } else if d == 3 {
        '3'
    } else if d == 4 {
        '4'
    } else if d == 5 {
        '5'
    } else if d == 6 {
        '6'
    } else if d == 7 {
        '7'
    } else if d == 8 {
        '8'
    } else {
        '9'
    }
}

/// A minute shown with its leading zero.
pub open spec fn two_digit_chars(m: int) -> Seq<char>
    recommends
        0 <= m < 100,
{
    seq![digit_char(m / 10), digit_char(m % 10)]
}

/// The 12-hour figure of a 24-hour value: 0 and 12 both show as 12.
pub open spec fn hour12_of(h: int) -> int {
    if h % 12 == 0 {
        12
    } else {
        h % 12
    }
}

/// The 12-hour figure without a leading zero, as the display shows it.
pub open spec fn hour12_chars(h12: int) -> Seq<char>
    recommends
        1 <= h12 <= 12,
{
    if h12 >= 10 {
        seq!['1', digit_char(h12 - 10)]
    } else {
        seq![digit_char(h12)]
    }
}

/// The marker after the minute: `pm` from noon on, `am` before.
pub open spec fn meridiem_chars(h: int) -> Seq<char> {
    if h >= 12 {
        seq!['p', 'm']
    } else {
        seq!['a', 'm']
    }
}

/// The display string for a wait of `dur` seconds starting at `now`: the
/// target's clock reading as `hour12:minute` with an am/pm marker, and
/// an explicit qualifier when the target falls on a later calendar day.
pub open spec fn render_spec(dur: int, now: TimeOfDay) -> Seq<char> {
    let total = now.spec_secs() + dur;
    let target = total % (SECS_PER_DAY as int);
    let th = target / 3600;
    let tm = (target % 3600) / 60;
    let base = hour12_chars(hour12_of(th)) + seq![':'] + two_digit_chars(tm) + meridiem_chars(th);
    if total >= SECS_PER_DAY {
        base + seq![' ', '(', 't', 'o', 'm', 'o', 'r', 'r', 'o', 'w', ')']
    } else {
        base
    }
}

fn digit_str(d: u32) -> (r: &'static str)
    requires
        d < 10,
    ensures
        r@ == seq![digit_char(d as int)],
{
    let r: &'static str = if d == 0 {
        "0"
    } else if d == 1 {
        "1"
    } else if d == 2 {
        "2"
    } else if d == 3 {
        "3"
    } else if d == 4 {
        "4"
    } else if d == 5 {
        "5"
    } else if d == 6 {
        "6"
    } else if d == 7 {
        "7"
    } else if d == 8 {
        "8"
    } else {
        "9"
    };
    proof {
        reveal_strlit("0");
        reveal_strlit("1");
        reveal_strlit("2");
        reveal_strlit("3");
        reveal_strlit("4");
        reveal_strlit("5");
        reveal_strlit("6");
        reveal_strlit("7");
        reveal_strlit("8");
        reveal_strlit("9");
        assert(r@ =~= seq![digit_char(d as int)]);
    }
    r
}

/// Renders the clock reading of `now + d`, exactly as [`render_spec`]
/// describes.
pub fn render_target(d: ElapsedDuration, now: TimeOfDay) -> (r: String)
    requires
        now.wf(),
    ensures
        r@ == render_spec(d.secs as int, now),
{
    let dur: u64 = d.secs;
    let now_secs: u32 = now.hour * 3600 + now.minute * 60 + now.second;
    let wrapped: u64 = dur % (SECS_PER_DAY as u64);
    let total_small: u64 = now_secs as u64 + wrapped;
    let tomorrow: bool = dur >= SECS_PER_DAY as u64 || total_small >= SECS_PER_DAY as u64;
    let target: u32 = (total_small % (SECS_PER_DAY as u64)) as u32;
    proof {
        lemma_add_mod_noop_right(now_secs as int, dur as int, 86400);
        if dur < 86400 {
            lemma_small_mod(dur as nat, 86400);
        }
        assert(target == (now.spec_secs() + d.secs) % 86400);
        assert(tomorrow == (now.spec_secs() + d.secs >= 86400));
    }
    let th: u32 = target / 3600;
    let tm: u32 = (target % 3600) / 60;
    let h12: u32 = if th % 12 == 0 {
        12
    } else {
        th % 12
    };
    assert(h12 == hour12_of(th as int));
    let mut out = String::new();
    proof {
        reveal_strlit("1");
        reveal_strlit(":");
        reveal_strlit("am");
        reveal_strlit("pm");
        reveal_strlit(" (tomorrow)");
    }
    if h12 >= 10 {
        out.append("1");
        out.append(digit_str(h12 - 10));
    } else {
        out.append(digit_str(h12));
    }
    proof {
        assert(out@ =~= hour12_chars(hour12_of(th as int)));
    }
    out.append(":");
    out.append(digit_str(tm / 10));
    out.append(digit_str(tm % 10));
    if th >= 12 {
        out.append("pm");
    } else {
        out.append("am");
    }
    if tomorrow {
        out.append(" (tomorrow)");
    }
    proof {
        assert(out@ =~= render_spec(d.secs as int, now));
    }
    out
}

/// Renders the clock reading the wait `d` ends at, reading the current
/// local time of day once. Whatever the clock reads, the string is
/// [`render_spec`]'s rendering of `now + d` for that reading.
pub fn format_target_time(d: ElapsedDuration) -> (r: String)
    ensures
        exists|now: TimeOfDay| #[trigger] now.wf() && r@ == render_spec(d.secs as int, now),
{
    let now = crate::clock::local_time_of_day();
    let r = render_target(d, now);
    proof {
        assert(now.wf() && r@ == render_spec(d.secs as int, now));
    }
    r
}

/// A 12-hour reading mapped back to its 24-hour value: the reconstruction
/// a reader of the display makes.
pub open spec fn twenty_four_hour_of(h12: int, pm: bool) -> int {
    if pm {
        if h12 == 12 {
            12
        } else {
            h12 + 12
        }
    } else {
        if h12 == 12 {
            0
        } else {
            h12
        }
    }
}

/// Formatting a resolved absolute target and re-reading the displayed
/// hour and minute recovers exactly the normalized clock time the wait
/// was computed from: the displayed hour and minute are the target's,
/// and the 12-hour figure with its am/pm marker maps back to the
/// normalized 24-hour hour.
pub proof fn lemma_display_round_trip(s: Seq<char>, now: TimeOfDay)
    requires
        now.wf(),
        resolve_secs(s, now) is Some,
    ensures
        ({
            let v = resolve_secs(s, now).unwrap();
            let t = normalized_target(s, now).unwrap();
            let target = (now.spec_secs() + v) % (SECS_PER_DAY as int);
            &&& target / 3600 == t.0
            &&& (target % 3600) / 60 == t.1
            &&& twenty_four_hour_of(hour12_of(t.0), t.0 >= 12) == t.0
        }),
{
    let v = resolve_secs(s, now).unwrap();
    let t = normalized_target(s, now).unwrap();
    let cand = candidate_secs(t.0, t.1);
    let total = now.spec_secs() + v;
    assert(0 <= cand < 86400);
    if cand > now.spec_secs() {
        assert(total == cand);
        lemma_small_mod(cand as nat, 86400);
    } else {
        assert(total == 86400 + cand);
        lemma_mod_add_multiples_vanish(cand, 86400);
        lemma_small_mod(cand as nat, 86400);
    }
    assert(total % (SECS_PER_DAY as int) == cand);
    lemma_fundamental_div_mod_converse_div(cand, 3600, t.0, t.1 * 60);
    lemma_fundamental_div_mod_converse_mod(cand, 3600, t.0, t.1 * 60);
    lemma_fundamental_div_mod_converse_div(t.1 * 60, 60, t.1, 0);
    if t.0 % 12 == 0 {
        assert(t.0 == 0 || t.0 == 12);
    } else {
        if t.0 >= 12 {
            lemma_mod_add_multiples_vanish(t.0 - 12, 12);
            lemma_small_mod((t.0 - 12) as nat, 12);
        } else {
            lemma_small_mod(t.0 as nat, 12);
        }
    }
}

} // verus!
