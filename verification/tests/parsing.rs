use nag::ElapsedDuration;
use nag::NagError;
use nag::TimeOfDay;
use nag::absolute::resolve_at;
use nag::relative::duration_after;
use nag::request::Mode;
use nag::request::parse_mode;

fn at(hour: u32, minute: u32, second: u32) -> TimeOfDay {
    TimeOfDay { hour, minute, second }
}

#[test]
fn relative_one_field_is_minutes() {
    assert_eq!(duration_after("45"), Ok(ElapsedDuration { secs: 2700 }));
    assert_eq!(duration_after("0"), Ok(ElapsedDuration { secs: 0 }));
}

#[test]
fn relative_two_fields_are_minutes_seconds() {
    assert_eq!(duration_after("1:30"), Ok(ElapsedDuration { secs: 90 }));
    assert_eq!(duration_after("0:05"), Ok(ElapsedDuration { secs: 5 }));
}

#[test]
fn relative_three_fields_are_hours_minutes_seconds() {
    assert_eq!(duration_after("1:01:01"), Ok(ElapsedDuration { secs: 3661 }));
    assert_eq!(duration_after("2:00:00"), Ok(ElapsedDuration { secs: 7200 }));
}

#[test]
fn relative_empty_field_is_rejected() {
    assert_eq!(duration_after(""), Err(NagError::InvalidFormat));
    assert_eq!(duration_after("1:"), Err(NagError::InvalidFormat));
    assert_eq!(duration_after(":30"), Err(NagError::InvalidFormat));
}

#[test]
fn relative_non_numeric_field_is_rejected() {
    assert_eq!(duration_after("abc"), Err(NagError::InvalidFormat));
    assert_eq!(duration_after("1:x0"), Err(NagError::InvalidFormat));
    assert_eq!(duration_after("-5"), Err(NagError::InvalidFormat));
}

#[test]
fn relative_four_fields_are_rejected() {
    assert_eq!(duration_after("1:2:3:4"), Err(NagError::InvalidFormat));
}

#[test]
fn relative_overflowing_value_is_rejected() {
    // One more than u64::MAX.
    assert_eq!(
        duration_after("18446744073709551616"),
        Err(NagError::InvalidFormat)
    );
    // Fits as a count of minutes but not as seconds.
    assert_eq!(
        duration_after("18446744073709551615"),
        Err(NagError::InvalidFormat)
    );
}

#[test]
fn absolute_pm_suffix_moves_to_afternoon() {
    assert_eq!(
        resolve_at("3pm", at(14, 0, 0)),
        Ok(ElapsedDuration { secs: 3600 })
    );
}

#[test]
fn absolute_bare_hour_in_the_past_means_afternoon() {
    // 9 with no meridiem at 14:00 resolves to 21:00 today, not 09:00 tomorrow.
    assert_eq!(
        resolve_at("9", at(14, 0, 0)),
        Ok(ElapsedDuration { secs: 25200 })
    );
}

#[test]
fn absolute_equal_hour_earlier_minute_means_afternoon() {
    // 1:00 at 01:30 rolls to 13:00 today.
    assert_eq!(
        resolve_at("1:00", at(1, 30, 0)),
        Ok(ElapsedDuration { secs: 41400 })
    );
}

#[test]
fn absolute_twelve_am_is_midnight() {
    // 12am at 14:00 is next midnight.
    assert_eq!(
        resolve_at("12am", at(14, 0, 0)),
        Ok(ElapsedDuration { secs: 36000 })
    );
}

#[test]
fn absolute_twelve_pm_is_noon() {
    // 12pm at 14:00 has already passed: next noon is tomorrow.
    assert_eq!(
        resolve_at("12pm", at(14, 0, 0)),
        Ok(ElapsedDuration { secs: 79200 })
    );
}

#[test]
fn absolute_counts_current_seconds() {
    // At 14:59:30 the next 15:00 is half a minute away.
    assert_eq!(
        resolve_at("3pm", at(14, 59, 30)),
        Ok(ElapsedDuration { secs: 30 })
    );
}

#[test]
fn absolute_same_instant_rolls_a_full_day() {
    assert_eq!(
        resolve_at("3pm", at(15, 0, 0)),
        Ok(ElapsedDuration { secs: 86400 })
    );
}

#[test]
fn absolute_fields_may_carry_spaces() {
    assert_eq!(
        resolve_at(" 3 : 05 pm", at(14, 0, 0)),
        Ok(ElapsedDuration { secs: 3900 })
    );
}

#[test]
fn absolute_uppercase_suffix_is_accepted() {
    assert_eq!(
        resolve_at("3PM", at(14, 0, 0)),
        Ok(ElapsedDuration { secs: 3600 })
    );
}

#[test]
fn absolute_out_of_range_hour_is_rejected() {
    assert_eq!(resolve_at("25", at(14, 0, 0)), Err(NagError::InvalidFormat));
    assert_eq!(resolve_at("24", at(14, 0, 0)), Err(NagError::InvalidFormat));
}

#[test]
fn absolute_out_of_range_minute_is_rejected() {
    assert_eq!(
        resolve_at("3:60pm", at(14, 0, 0)),
        Err(NagError::InvalidFormat)
    );
}

#[test]
fn absolute_malformed_strings_are_rejected() {
    assert_eq!(resolve_at("", at(14, 0, 0)), Err(NagError::InvalidFormat));
    assert_eq!(resolve_at("am", at(14, 0, 0)), Err(NagError::InvalidFormat));
    assert_eq!(
        resolve_at("1:2:3", at(14, 0, 0)),
        Err(NagError::InvalidFormat)
    );
    assert_eq!(
        resolve_at("3.5pm", at(14, 0, 0)),
        Err(NagError::InvalidFormat)
    );
}

#[test]
fn absolute_hour_past_normalization_bound_is_rejected() {
    // 13 at 14:00 looks past, gains twelve hours, and leaves the clock.
    assert_eq!(resolve_at("13", at(14, 0, 0)), Err(NagError::InvalidFormat));
    // The same 13 at 09:00 is still ahead and stays as it is.
    assert_eq!(
        resolve_at("13", at(9, 0, 0)),
        Ok(ElapsedDuration { secs: 14400 })
    );
}

#[test]
fn mode_selector_is_case_insensitive_and_trimmed() {
    assert_eq!(parse_mode("in"), Ok(Mode::In));
    assert_eq!(parse_mode("IN"), Ok(Mode::In));
    assert_eq!(parse_mode(" At "), Ok(Mode::At));
    assert_eq!(parse_mode("at"), Ok(Mode::At));
}

#[test]
fn other_mode_selectors_are_unsupported() {
    assert_eq!(parse_mode("soon"), Err(NagError::UnsupportedMode));
    assert_eq!(parse_mode(""), Err(NagError::UnsupportedMode));
    assert_eq!(parse_mode("int"), Err(NagError::UnsupportedMode));
}
