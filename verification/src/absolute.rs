//! The absolute clock-time resolver: an `hour[:minute][am|pm]` string plus
//! the current time of day become the duration until that clock reading
//! next occurs.

use vstd::prelude::*;

use crate::ClockTimeSpec;
use crate::ElapsedDuration;
use crate::Meridiem;
use crate::NagError;
use crate::SECS_PER_DAY;
use crate::TimeOfDay;
use crate::text::digits_value;
use crate::text::is_numeric_field;
use crate::text::parse_u64_digits;
use crate::text::split_colon;
use crate::text::split_colon_fields;
use crate::text::trim_field;
use crate::text::trim_spaces;

verus! {

/// The meridiem tag of `s`: its last two characters read
/// case-insensitively as `am` or `pm`, if they do.
pub open spec fn meridiem_of(s: Seq<char>) -> Meridiem {
    if s.len() >= 2 && (s[s.len() - 2] == 'a' || s[s.len() - 2] == 'A') && (s[s.len() - 1] == 'm'
        || s[s.len() - 1] == 'M') {
        Meridiem::Am
    } else if s.len() >= 2 && (s[s.len() - 2] == 'p' || s[s.len() - 2] == 'P') && (s[s.len() - 1]
        == 'm' || s[s.len() - 1] == 'M') {
        Meridiem::Pm
    } else {
        Meridiem::Unspecified
    }
}

/// `s` with its meridiem suffix, if any, removed.
pub open spec fn time_body(s: Seq<char>) -> Seq<char> {
    if meridiem_of(s) is Unspecified {
        s
    } else {
        s.take(s.len() - 2)
    }
}

/// One whitespace-trimmed numeric field whose value fits an hour or
/// minute component.
pub open spec fn component_ok(f: Seq<char>) -> bool {
    is_numeric_field(trim_spaces(f)) && digits_value(trim_spaces(f)) <= u32::MAX
}

/// The clock-time spec `s` denotes before normalization: the time body
/// split on `':'` gives the hour, and the minute when a second field is
/// present. `None` when the field count is not 1 or 2 or a field is not
/// numeric.
pub open spec fn clock_spec_of(s: Seq<char>) -> Option<ClockTimeSpec> {
    let fs = split_colon(time_body(s));
    if fs.len() == 1 && component_ok(fs[0]) {
        Some(
            ClockTimeSpec {
                hour: digits_value(trim_spaces(fs[0])) as u32,
                minute: 0,
                meridiem: meridiem_of(s),
            },
        )
    } else if fs.len() == 2 && component_ok(fs[0]) && component_ok(fs[1]) {
        Some(
            ClockTimeSpec {
                hour: digits_value(trim_spaces(fs[0])) as u32,
                minute: digits_value(trim_spaces(fs[1])) as u32,
                meridiem: meridiem_of(s),
            },
        )
    } else {
        None
    }
}

/// The 24-hour hour value of a parsed clock time. An explicit `am` pins
/// 12 to midnight; an explicit `pm` moves every other hour into the
/// afternoon; an unmarked time that already lies in the past this morning
/// is taken to mean the afternoon reading instead.
pub open spec fn normalized_hour(c: ClockTimeSpec, now: TimeOfDay) -> int {
    if c.meridiem is Am && c.hour == 12 {
        0
    } else if c.meridiem is Pm && c.hour != 12 {
        c.hour + 12
    } else if c.meridiem is Unspecified && (c.hour < now.hour || (c.hour == now.hour && c.minute
        < now.minute)) {
        c.hour + 12
    } else {
        c.hour as int
    }
}

/// The normalized `(hour, minute)` target of `s`, or `None` when `s` is
/// malformed or a component falls out of range after normalization.
pub open spec fn normalized_target(s: Seq<char>, now: TimeOfDay) -> Option<(int, int)> {
    match clock_spec_of(s) {
        Some(c) => {
            let h = normalized_hour(c, now);
            if h <= 23 && c.minute <= 59 {
                Some((h, c.minute as int))
            } else {
                None
            }
        },
        None => None,
    }
}

/// Seconds since midnight of the clock reading `h:m:00`.
pub open spec fn candidate_secs(h: int, m: int) -> int {
    h * 3600 + m * 60
}

/// The seconds to wait until the requested clock reading next occurs:
/// the distance to today's candidate when it is still ahead, else the
/// rest of today plus the candidate's offset into tomorrow.
pub open spec fn resolve_secs(s: Seq<char>, now: TimeOfDay) -> Option<int> {
    match normalized_target(s, now) {
        Some((h, m)) => {
            let cand = candidate_secs(h, m);
            if cand > now.spec_secs() {
                Some(cand - now.spec_secs())
            } else {
                Some(SECS_PER_DAY - now.spec_secs() + cand)
            }
        },
        None => None,
    }
}

/// [`resolve_secs`] packaged as the resolver's return value.
pub open spec fn resolve_result(s: Seq<char>, now: TimeOfDay) -> Result<
    ElapsedDuration,
    NagError,
> {
    match resolve_secs(s, now) {
        Some(v) => Ok(ElapsedDuration { secs: v as u64 }),
        None => Err(NagError::InvalidFormat),
    }
}

/// A resolved absolute target is never in the past and never now: for
/// every valid input the wait is strictly positive, and it never exceeds
/// one full day.
pub proof fn lemma_resolved_target_in_future(s: Seq<char>, now: TimeOfDay)
    requires
        now.wf(),
    ensures
        resolve_secs(s, now) matches Some(v) ==> 0 < v <= SECS_PER_DAY,
{
}

/// Splits the meridiem suffix off `s` and parses the remaining
/// `hour[:minute]` body, exactly as [`clock_spec_of`] describes.
pub fn parse_clock_spec(s: &str) -> (r: Result<ClockTimeSpec, NagError>)
    ensures
        match clock_spec_of(s@) {
            Some(c) => r == Ok::<ClockTimeSpec, NagError>(c),
            None => r == Err::<ClockTimeSpec, NagError>(NagError::InvalidFormat),
        },
{
    let n: usize = s.unicode_len();
    let meridiem: Meridiem = if n >= 2 {
        let c1 = s.get_char(n - 2);
        let c2 = s.get_char(n - 1);
        if (c1 == 'a' || c1 == 'A') && (c2 == 'm' || c2 == 'M') {
            Meridiem::Am
        } else if (c1 == 'p' || c1 == 'P') && (c2 == 'm' || c2 == 'M') {
            Meridiem::Pm
        } else {
            Meridiem::Unspecified
        }
    } else {
        Meridiem::Unspecified
    };
    assert(meridiem == meridiem_of(s@));
    let body: &str = if let Meridiem::Unspecified = meridiem {
        s
    } else {
        let b = s.substring_char(0, n - 2);
        proof {
            assert(b@ =~= time_body(s@));
        }
        b
    };
    let fields = split_colon_fields(body);
    if fields.len() == 1 {
        let hour_field = trim_field(&fields[0]);
        match parse_u64_digits(&hour_field) {
            Some(h) if h <= u32::MAX as u64 => Ok(
                ClockTimeSpec { hour: h as u32, minute: 0, meridiem },
            ),
            _ => Err(NagError::InvalidFormat),
        }
    } else if fields.len() == 2 {
        let hour_field = trim_field(&fields[0]);
        let minute_field = trim_field(&fields[1]);
        let h = match parse_u64_digits(&hour_field) {
            Some(h) if h <= u32::MAX as u64 => h,
            _ => {
                return Err(NagError::InvalidFormat);
            },
        };
        match parse_u64_digits(&minute_field) {
            Some(m) if m <= u32::MAX as u64 => Ok(
                ClockTimeSpec { hour: h as u32, minute: m as u32, meridiem },
            ),
            _ => Err(NagError::InvalidFormat),
        }
    } else {
        Err(NagError::InvalidFormat)
    }
}

/// Resolves an absolute clock-time request against the current time of
/// day. Returns the duration until the requested reading next occurs,
/// always at least one second and at most a full day ahead; a malformed
/// or out-of-range request is rejected.
pub fn resolve_at(s: &str, now: TimeOfDay) -> (r: Result<ElapsedDuration, NagError>)
    requires
        now.wf(),
    ensures
        r == resolve_result(s@, now),
        r matches Ok(d) ==> 0 < d.secs <= SECS_PER_DAY,
{
    let c = match parse_clock_spec(s) {
        Ok(c) => c,
        Err(e) => {
            return Err(e);
        },
    };
    if c.hour > 23 {
        // Every normalization branch leaves such an hour above 23.
        return Err(NagError::InvalidFormat);
    }
    let h: u32 = if c.hour == 12 && matches!(c.meridiem, Meridiem::Am) {
        0
    } else if c.hour != 12 && matches!(c.meridiem, Meridiem::Pm) {
        c.hour + 12
    } else if matches!(c.meridiem, Meridiem::Unspecified) && (c.hour < now.hour || (c.hour
        == now.hour && c.minute < now.minute)) {
        c.hour + 12
    } else {
        c.hour
    };
    assert(h == normalized_hour(c, now));
    if h > 23 || c.minute > 59 {
        return Err(NagError::InvalidFormat);
    }
    let cand: u32 = h * 3600 + c.minute * 60;
    let now_secs: u32 = now.hour * 3600 + now.minute * 60 + now.second;
    let wait: u32 = if cand > now_secs {
        cand - now_secs
    } else {
        SECS_PER_DAY - now_secs + cand
    };
    Ok(ElapsedDuration { secs: wait as u64 })
}

/// Resolves an absolute clock-time request against the clock, reading
/// the current local time of day once. Whatever the clock reads, the
/// result is [`resolve_at`]'s answer for that reading: a wait of at
/// least one second and at most a full day, or a rejection.
pub fn duration_at(s: &str) -> (r: Result<ElapsedDuration, NagError>)
    ensures
        exists|now: TimeOfDay| #[trigger] now.wf() && r == resolve_result(s@, now),
        r matches Ok(d) ==> 0 < d.secs <= SECS_PER_DAY,
{
    let now = crate::clock::local_time_of_day();
    let r = resolve_at(s, now);
    proof {
        assert(now.wf() && r == resolve_result(s@, now));
    }
    r
}

} // verus!
