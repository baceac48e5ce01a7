use nag::ElapsedDuration;
use nag::NagError;
use nag::TimeOfDay;
use nag::absolute::duration_at;
use nag::absolute::resolve_at;
use nag::display::format_target_time;
use nag::display::render_target;
use nag::relative::duration_after;
use nag::request::resolve_request;
use nag::schedule::NagRequest;
use nag::schedule::SchedulerAction;
use nag::schedule::SchedulerState;
use nag::schedule::on_wake;
use nag::schedule::should_notify;
use nag::speech::Platform;
use nag::speech::get_speak_command;

fn at(hour: u32, minute: u32, second: u32) -> TimeOfDay {
    TimeOfDay { hour, minute, second }
}

fn secs(secs: u64) -> ElapsedDuration {
    ElapsedDuration { secs }
}

#[test]
fn display_shows_twelve_hour_clock() {
    assert_eq!(render_target(secs(3600), at(14, 0, 0)), "3:00pm");
    assert_eq!(render_target(secs(60), at(14, 0, 0)), "2:01pm");
    assert_eq!(render_target(secs(1800), at(11, 30, 0)), "12:00pm");
    assert_eq!(render_target(secs(600), at(0, 30, 0)), "12:40am");
    assert_eq!(render_target(secs(3900), at(9, 15, 30)), "10:20am");
}

#[test]
fn display_marks_a_later_day_as_tomorrow() {
    assert_eq!(render_target(secs(120), at(23, 59, 0)), "12:01am (tomorrow)");
    assert_eq!(render_target(secs(86400), at(15, 0, 0)), "3:00pm (tomorrow)");
    assert_eq!(
        render_target(secs(2 * 86400 + 3600), at(14, 0, 0)),
        "3:00pm (tomorrow)"
    );
}

#[test]
fn display_drops_seconds_within_the_minute() {
    // The target keeps the odd seconds; the display shows the minute.
    assert_eq!(render_target(secs(90), at(14, 0, 45)), "2:02pm");
}

#[test]
fn displayed_time_reparses_to_the_same_target() {
    // Resolving what the display shows, at the same instant, asks for the
    // same moment again.
    let now = at(14, 0, 0);
    let resolved = resolve_at("3pm", now).unwrap();
    let shown = render_target(resolved, now);
    assert_eq!(shown, "3:00pm");
    assert_eq!(resolve_at(&shown, now), Ok(resolved));
}

#[test]
fn estimate_only_request_skips_without_waiting() {
    // in 0:05 with the estimate flag: five seconds resolved, no wait, no
    // speech.
    let duration = duration_after("0:05").unwrap();
    assert_eq!(duration, secs(5));
    let request = NagRequest {
        duration,
        message: String::from("tea"),
        estimate: true,
    };
    assert_eq!(
        request.start(),
        (SchedulerState::Skipped, SchedulerAction::Finish)
    );
}

#[test]
fn real_request_waits_for_its_duration() {
    let request = NagRequest {
        duration: secs(300),
        message: String::from("tea"),
        estimate: false,
    };
    assert_eq!(
        request.start(),
        (SchedulerState::Waiting, SchedulerAction::Wait(300))
    );
}

#[test]
fn wakeup_close_to_the_moment_fires() {
    assert_eq!(
        on_wake(300, 300),
        (SchedulerState::Fired, SchedulerAction::Speak)
    );
    assert_eq!(
        on_wake(300, 329),
        (SchedulerState::Fired, SchedulerAction::Speak)
    );
    assert_eq!(
        on_wake(300, 271),
        (SchedulerState::Fired, SchedulerAction::Speak)
    );
}

#[test]
fn wakeup_past_the_moment_skips() {
    assert_eq!(
        on_wake(300, 330),
        (SchedulerState::Skipped, SchedulerAction::Finish)
    );
    assert_eq!(
        on_wake(300, 4000),
        (SchedulerState::Skipped, SchedulerAction::Finish)
    );
    assert_eq!(
        on_wake(300, 270),
        (SchedulerState::Skipped, SchedulerAction::Finish)
    );
}

#[test]
fn staleness_window_is_thirty_seconds() {
    assert!(should_notify(0, 0));
    assert!(should_notify(0, 29));
    assert!(!should_notify(0, 30));
    assert!(should_notify(100, 71));
    assert!(!should_notify(100, 70));
}

#[test]
fn unsupported_mode_is_reported_before_the_target_is_read() {
    assert_eq!(
        resolve_request("soon", "3pm"),
        Err(NagError::UnsupportedMode)
    );
}

#[test]
fn invalid_absolute_target_fails_whatever_the_hour() {
    // 25 gains twelve hours or none and leaves the clock either way, so
    // the rejection does not depend on the instant the clock returned.
    assert_eq!(resolve_request("at", "25"), Err(NagError::InvalidFormat));
}

#[test]
fn relative_request_resolves_through_the_selector() {
    assert_eq!(resolve_request("in", "5:00"), Ok(secs(300)));
    assert_eq!(resolve_request("IN", "1:01:01"), Ok(secs(3661)));
}

#[test]
fn clock_backed_resolution_stays_within_a_day() {
    // Whatever the clock read, a request for 0:00 is between one second
    // and one day away.
    let d = duration_at("0:00").unwrap();
    assert!(0 < d.secs && d.secs <= 86400);
}

#[test]
fn clock_backed_display_is_a_clock_reading() {
    let shown = format_target_time(secs(60));
    assert!(shown.contains(':'));
    assert!(shown.contains("am") || shown.contains("pm"));
}

#[test]
fn speak_commands_name_the_platform_binaries() {
    let (mac, mac_args) = get_speak_command(Platform::MacOs);
    assert_eq!(mac, "say");
    assert!(mac_args.is_empty());
    let (linux, linux_args) = get_speak_command(Platform::Linux);
    assert_eq!(linux, "spd-say");
    assert!(linux_args.is_empty());
    let (windows, windows_args) = get_speak_command(Platform::Windows);
    assert_eq!(windows, "powershell");
    assert_eq!(windows_args.len(), 2);
    assert_eq!(windows_args[0], "-Command");
    assert!(windows_args[1].starts_with("Add-Type"));
}
