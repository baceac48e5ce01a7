//! The relative duration parser: a colon-delimited numeric string read
//! as minutes, minutes:seconds, or hours:minutes:seconds.

use vstd::prelude::*;

use crate::ElapsedDuration;
use crate::NagError;
use crate::text::digits_value;
use crate::text::is_numeric_field;
use crate::text::lemma_digits_value_nonneg;
use crate::text::parse_u64_digits;
use crate::text::split_colon;
use crate::text::split_colon_fields;

verus! {

/// The number of seconds a relative duration string denotes, or `None`
/// when the string is malformed: a field count other than 1, 2 or 3, or
/// a field that is empty or not all digits.
pub open spec fn relative_secs(s: Seq<char>) -> Option<int> {
    let fs = split_colon(s);
    if fs.len() == 1 && is_numeric_field(fs[0]) {
        Some(digits_value(fs[0]) * 60)
    } else if fs.len() == 2 && is_numeric_field(fs[0]) && is_numeric_field(fs[1]) {
        Some(digits_value(fs[0]) * 60 + digits_value(fs[1]))
    } else if fs.len() == 3 && is_numeric_field(fs[0]) && is_numeric_field(fs[1])
        && is_numeric_field(fs[2]) {
        Some(digits_value(fs[0]) * 3600 + digits_value(fs[1]) * 60 + digits_value(fs[2]))
    } else {
        None
    }
}

/// Parses a relative duration: one field is minutes, two are
/// minutes:seconds, three are hours:minutes:seconds. Returns the weighted
/// sum of the fields in seconds; any other arity, a non-numeric field, or
/// a value beyond `u64::MAX` seconds is rejected.
pub fn duration_after(s: &str) -> (r: Result<ElapsedDuration, NagError>)
    ensures
        match relative_secs(s@) {
            Some(v) => if v <= u64::MAX {
                r == Ok::<ElapsedDuration, NagError>(ElapsedDuration { secs: v as u64 })
            } else {
                r == Err::<ElapsedDuration, NagError>(NagError::InvalidFormat)
            },
            None => r == Err::<ElapsedDuration, NagError>(NagError::InvalidFormat),
        },
{
    let fields = split_colon_fields(s);
    let ghost fs = split_colon(s@);
    if fields.len() == 1 {
        let minutes = match parse_u64_digits(&fields[0]) {
            Some(m) => m,
            None => {
                proof {
                    overflow_means_total_overflows(s@);
                }
                return Err(NagError::InvalidFormat);
            },
        };
        match minutes.checked_mul(60) {
            Some(total) => Ok(ElapsedDuration { secs: total }),
            None => {
                proof {
                    lemma_digits_value_nonneg(fs[0]);
                }
                Err(NagError::InvalidFormat)
            },
        }
    } else if fields.len() == 2 {
        let (minutes, seconds) = match (
            parse_u64_digits(&fields[0]),
            parse_u64_digits(&fields[1]),
        ) {
            (Some(m), Some(x)) => (m, x),
            _ => {
                proof {
                    overflow_means_total_overflows(s@);
                }
                return Err(NagError::InvalidFormat);
            },
        };
        let total = match minutes.checked_mul(60) {
            Some(t) => t.checked_add(seconds),
            None => None,
        };
        match total {
            Some(t) => Ok(ElapsedDuration { secs: t }),
            None => {
                proof {
                    lemma_digits_value_nonneg(fs[0]);
                    lemma_digits_value_nonneg(fs[1]);
                }
                Err(NagError::InvalidFormat)
            },
        }
    } else if fields.len() == 3 {
        let (hours, minutes, seconds) = match (
            parse_u64_digits(&fields[0]),
            parse_u64_digits(&fields[1]),
            parse_u64_digits(&fields[2]),
        ) {
            (Some(h), Some(m), Some(x)) => (h, m, x),
            _ => {
                proof {
                    overflow_means_total_overflows(s@);
                }
                return Err(NagError::InvalidFormat);
            },
        };
        let total = match hours.checked_mul(3600) {
            Some(hs) => match minutes.checked_mul(60) {
                Some(ms) => match hs.checked_add(ms) {
                    Some(hm) => hm.checked_add(seconds),
                    None => None,
                },
                None => None,
            },
            None => None,
        };
        match total {
            Some(t) => Ok(ElapsedDuration { secs: t }),
            None => {
                proof {
                    lemma_digits_value_nonneg(fs[0]);
                    lemma_digits_value_nonneg(fs[1]);
                    lemma_digits_value_nonneg(fs[2]);
                }
                Err(NagError::InvalidFormat)
            },
        }
    } else {
        Err(NagError::InvalidFormat)
    }
}

/// When one field alone exceeds `u64::MAX`, so does the weighted sum.
proof fn overflow_means_total_overflows(s: Seq<char>)
    ensures
        match relative_secs(s) {
            Some(v) => {
                let fs = split_colon(s);
                forall|k: int| 0 <= k < fs.len() ==> v >= digits_value(#[trigger] fs[k])
            },
            None => true,
        },
{
    let fs = split_colon(s);
    if relative_secs(s) is Some {
        assert forall|k: int| 0 <= k < fs.len() implies relative_secs(s).unwrap() >= digits_value(
            #[trigger] fs[k],
        ) by {
            if fs.len() == 1 {
                lemma_digits_value_nonneg(fs[0]);
            } else if fs.len() == 2 {
                lemma_digits_value_nonneg(fs[0]);
                lemma_digits_value_nonneg(fs[1]);
            } else {
                lemma_digits_value_nonneg(fs[0]);
                lemma_digits_value_nonneg(fs[1]);
                lemma_digits_value_nonneg(fs[2]);
            }
        }
    }
}

} // verus!
