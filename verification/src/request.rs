//! The request layer: the mode selector picks a parser, and the resolved
//! intent is fixed once per invocation.

use vstd::prelude::*;

use crate::ElapsedDuration;
use crate::NagError;
use crate::TimeOfDay;
use crate::absolute::resolve_result;
use crate::relative::duration_after;
use crate::relative::relative_secs;
use crate::text::chars_of;
use crate::text::trim_field;
use crate::text::trim_spaces;

verus! {

/// The two ways a target may be given: a relative duration (`in`) or an
/// absolute clock time (`at`).
#[derive(Clone, Copy, Debug, PartialEq, Eq, Structural)]
pub enum Mode {
    In,
    At,
}

/// The mode a selector string denotes: `in` or `at`, case-insensitively,
/// surrounding whitespace ignored. Anything else is unsupported.
pub open spec fn mode_of(s: Seq<char>) -> Option<Mode> {
    let t = trim_spaces(s);
    if t.len() == 2 && (t[0] == 'i' || t[0] == 'I') && (t[1] == 'n' || t[1] == 'N') {
        Some(Mode::In)
    } else if t.len() == 2 && (t[0] == 'a' || t[0] == 'A') && (t[1] == 't' || t[1] == 'T') {
        Some(Mode::At)
    } else {
        None
    }
}

/// Reads the mode selector, exactly as [`mode_of`] describes.
pub fn parse_mode(s: &str) -> (r: Result<Mode, NagError>)
    ensures
        match mode_of(s@) {
            Some(m) => r == Ok::<Mode, NagError>(m),
            None => r == Err::<Mode, NagError>(NagError::UnsupportedMode),
        },
{
    let cs = chars_of(s);
    let t = trim_field(&cs);
    if t.len() != 2 {
        return Err(NagError::UnsupportedMode);
    }
    let c0 = t[0];
    let c1 = t[1];
    if (c0 == 'i' || c0 == 'I') && (c1 == 'n' || c1 == 'N') {
        Ok(Mode::In)
    } else if (c0 == 'a' || c0 == 'A') && (c1 == 't' || c1 == 'T') {
        Ok(Mode::At)
    } else {
        Err(NagError::UnsupportedMode)
    }
}

/// Resolves a request: the mode selector picks the parser, and the
/// target string becomes the duration to wait. An unsupported selector
/// is rejected before the target is looked at; an `in` target is the
/// relative parser's exact answer; an `at` target is the absolute
/// resolver's answer for the clock reading taken during the call.
pub fn resolve_request(when: &str, target: &str) -> (r: Result<ElapsedDuration, NagError>)
    ensures
        mode_of(when@) is None ==> r == Err::<ElapsedDuration, NagError>(
            NagError::UnsupportedMode,
        ),
        mode_of(when@) == Some(Mode::In) ==> match relative_secs(target@) {
            Some(v) => if v <= u64::MAX {
                r == Ok::<ElapsedDuration, NagError>(ElapsedDuration { secs: v as u64 })
            } else {
                r == Err::<ElapsedDuration, NagError>(NagError::InvalidFormat)
            },
            None => r == Err::<ElapsedDuration, NagError>(NagError::InvalidFormat),
        },
        mode_of(when@) == Some(Mode::At) ==> exists|now: TimeOfDay|
            #[trigger] now.wf() && r == resolve_result(target@, now),
{
    match parse_mode(when) {
        Ok(Mode::In) => duration_after(target),
        Ok(Mode::At) => crate::absolute::duration_at(target),
        Err(e) => Err(e),
    }
}

} // verus!
