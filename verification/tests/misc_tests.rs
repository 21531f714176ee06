use solverforge_calendar::ical::{
    export_events, export_plan, import_from_str, parse_prop_datetime, try_import_from_str, IcalTime,
};
use solverforge_calendar::keys::{hints, resolve, Action, KeyCode, KeyEvent, View};
use solverforge_calendar::models::{Calendar, DependencyType, Event, Project};
use solverforge_calendar::notifications::{check_reminder, remember_shown, reminder_body, reminder_due};
use solverforge_calendar::recurrence::RecurrencePreset;
use solverforge_calendar::text::{parse_i64, str_contains, trim};
use solverforge_calendar::theme::{
    fallback_theme, parse_colors_toml, parse_hex_color, try_parse_colors_toml, Rgb,
};
use solverforge_calendar::timestamp::{add_days, format_storage, CivilDate, DateTimeParts};
use solverforge_calendar::ui::help::{binding_key_text, build_help_lines, HelpLine};
use solverforge_calendar::ui::util::{
    centered_rect, format_duration, format_time_hhmm, friendly_date, month_name, truncate, Area,
};
use solverforge_calendar::worker::event_window;

fn key(c: char) -> KeyEvent {
    KeyEvent { code: KeyCode::Char(c), control: false }
}

#[test]
fn keys_resolve_per_view() {
    assert_eq!(resolve(&View::Month, KeyEvent { code: KeyCode::Char('c'), control: true }), Action::Quit);
    assert_eq!(resolve(&View::EventForm, key('q')), Action::InputChar('q'));
    assert_eq!(resolve(&View::Month, key('q')), Action::Quit);
    assert_eq!(resolve(&View::Month, key('/')), Action::QuickAdd);
    assert_eq!(resolve(&View::Month, KeyEvent { code: KeyCode::Tab, control: false }), Action::FocusSidebar);
    assert!(!hints(&View::Month).is_empty());
}

#[test]
fn text_helpers() {
    assert_eq!(trim("\u{3000} hi \t"), "hi");
    assert_eq!(parse_i64("-42"), Some(-42));
    assert_eq!(parse_i64("+7"), Some(7));
    assert_eq!(parse_i64("9223372036854775807"), Some(i64::MAX));
    assert_eq!(parse_i64("9223372036854775808"), None);
    assert_eq!(parse_i64("-9223372036854775808"), Some(i64::MIN));
    assert_eq!(parse_i64(""), None);
    assert_eq!(parse_i64("-"), None);
    assert_eq!(parse_i64("1a"), None);
    assert!(str_contains("UNIQUE constraint failed: calendars.google_id", "calendars.google_id"));
    assert!(str_contains("abc", ""));
    assert!(!str_contains("ab", "abc"));
}

#[test]
fn durations_and_names() {
    assert_eq!(format_duration(45), "45m");
    assert_eq!(format_duration(60), "1h");
    assert_eq!(format_duration(135), "2h 15m");
    assert_eq!(format_duration(-5), "-5m");
    assert_eq!(format_time_hhmm(9, 5), "09:05");
    assert_eq!(month_name(2), "February");
    assert_eq!(month_name(13), "?");
    assert_eq!(RecurrencePreset::Weekdays.label(), "Every weekday (Mon-Fri)");
}

#[test]
fn truncation_respects_width() {
    assert_eq!(truncate("hello", 0), "");
    assert_eq!(truncate("hello", 5), "hello");
    assert_eq!(truncate("hello", 1), "\u{2026}");
    assert_eq!(truncate("hello world", 6), "hello\u{2026}");
    assert_eq!(truncate("日本語テキスト", 5), "日本\u{2026}");
}

#[test]
fn friendly_dates() {
    let today = CivilDate { year: 2026, month: 3, day: 31 };
    assert_eq!(friendly_date(today, today), "Today");
    assert_eq!(friendly_date(CivilDate { year: 2026, month: 4, day: 1 }, today), "Tomorrow");
    assert_eq!(friendly_date(CivilDate { year: 2026, month: 3, day: 30 }, today), "Yesterday");
    assert_eq!(friendly_date(CivilDate { year: 2026, month: 3, day: 6 }, today), "Friday, Mar 6");
}

#[test]
fn dates_move_by_days() {
    let d = CivilDate { year: 2024, month: 2, day: 28 };
    assert_eq!(add_days(d, 1), Some(CivilDate { year: 2024, month: 2, day: 29 }));
    assert_eq!(add_days(d, 2), Some(CivilDate { year: 2024, month: 3, day: 1 }));
    assert_eq!(add_days(CivilDate { year: 2026, month: 1, day: 1 }, -1), Some(CivilDate { year: 2025, month: 12, day: 31 }));
    assert_eq!(add_days(CivilDate { year: 262142, month: 12, day: 31 }, 1), None);
    let p = DateTimeParts { year: 2026, month: 3, day: 30, hour: 9, minute: 5, second: 59, nanosecond: 1_000_000_000 };
    assert_eq!(format_storage(&p), "2026-03-30 09:05:60");
}

#[test]
fn event_window_spans_the_month() {
    assert_eq!(
        event_window(2026, 3),
        ("2026-02-22 00:00:00".to_string(), "2026-04-07 23:59:59".to_string())
    );
    assert_eq!(
        event_window(2026, 12),
        ("2026-11-24 00:00:00".to_string(), "2027-01-07 23:59:59".to_string())
    );
    assert_eq!(
        event_window(2026, 13),
        ("1969-12-25 00:00:00".to_string(), "1970-02-07 23:59:59".to_string())
    );
}

#[test]
fn hex_colors() {
    assert_eq!(parse_hex_color("#50f872"), Ok(Rgb { r: 0x50, g: 0xf8, b: 0x72 }));
    assert_eq!(parse_hex_color("  ##50F872 "), Ok(Rgb { r: 0x50, g: 0xf8, b: 0x72 }));
    assert_eq!(parse_hex_color("+5+6+7"), Ok(Rgb { r: 5, g: 6, b: 7 }));
    assert_eq!(parse_hex_color("#fff").unwrap_err(), "invalid hex color length: fff");
    assert_eq!(parse_hex_color("#12345g").unwrap_err(), "invalid digit found in string");
    assert_eq!(parse_hex_color("ééé").unwrap_err(), "invalid digit found in string");
    let t = fallback_theme();
    assert_eq!(t.accent, Rgb { r: 130, g: 251, b: 156 });
    assert_eq!(t.calendar_color(0), t.color1);
    assert_eq!(t.calendar_color(8), t.color1);
    assert_eq!(t.calendar_color(7), t.accent);
}

fn colors_toml(accent: &str) -> String {
    let mut s = format!("accent = \"{}\"\n", accent);
    for k in ["background", "foreground", "cursor", "selection_foreground", "selection_background"] {
        s.push_str(&format!("{} = \"#0b0c16\"\n", k));
    }
    for i in 0..16 {
        s.push_str(&format!("color{} = \"#ddf7ff\"\n", i));
    }
    s
}

#[test]
fn colors_toml_is_read() {
    let t = parse_colors_toml(&colors_toml("#82fb9c")).unwrap();
    assert_eq!(t.accent, Rgb { r: 0x82, g: 0xfb, b: 0x9c });
    assert_eq!(t.color15, Rgb { r: 0xdd, g: 0xf7, b: 0xff });
    let missing = colors_toml("#82fb9c").replace("color7 = \"#ddf7ff\"\n", "");
    assert_eq!(parse_colors_toml(&missing).unwrap_err(), "missing color: color7");
    assert_eq!(parse_colors_toml(&colors_toml("#zzzzzz")).unwrap_err(), "invalid digit found in string");
    assert!(parse_colors_toml("not toml = = =").is_err());
    assert!(try_parse_colors_toml(&colors_toml("aé123")).is_none());
}

#[test]
fn ical_values_are_read() {
    assert_eq!(parse_prop_datetime(Some("20260217")), ("2026-02-17 00:00:00".to_string(), true));
    assert_eq!(parse_prop_datetime(Some("20260217T090000Z")), ("2026-02-17 09:00:00".to_string(), false));
    assert!(!parse_prop_datetime(Some("garbage")).1);
    assert!(!parse_prop_datetime(None).1);
}

#[test]
fn ical_round_trip() {
    let mut ev = Event::new(
        "cal".to_string(),
        "Standup".to_string(),
        "2026-03-30 09:00:00".to_string(),
        "2026-03-30 09:30:00".to_string(),
        "UTC".to_string(),
    );
    ev.location = Some("Room 1".to_string());
    ev.rrule = Some("RRULE:FREQ=WEEKLY".to_string());
    let plan = export_plan(&ev);
    assert_eq!(plan.rrule.as_deref(), Some("FREQ=WEEKLY"));
    assert!(matches!(plan.start, IcalTime::Utc(_)));
    let text = export_events(&vec![ev.clone()], "SolverForge Calendar");
    assert!(text.contains("SUMMARY:Standup"));
    assert!(text.contains("DTSTART:20260330T090000Z"));
    let events = import_from_str(&text, "other").unwrap();
    assert_eq!(events.len(), 1);
    assert_eq!(events[0].id, ev.id);
    assert_eq!(events[0].title, "Standup");
    assert_eq!(events[0].start_at, "2026-03-30 09:00:00");
    assert_eq!(events[0].end_at, "2026-03-30 09:30:00");
    assert_eq!(events[0].rrule.as_deref(), Some("RRULE:FREQ=WEEKLY"));
    assert_eq!(events[0].calendar_id, "other");
    assert_eq!(events[0].location.as_deref(), Some("Room 1"));

    let mut all_day = ev.clone();
    all_day.all_day = true;
    let plan = export_plan(&all_day);
    assert!(matches!(plan.start, IcalTime::Date(ref d) if d == "20260330"));
    let again = try_import_from_str(&text, "other").unwrap().unwrap();
    assert_eq!(again[0].title, "Standup");
}

#[test]
fn reminders() {
    let mut ev = Event::new(
        "cal".to_string(),
        "Standup".to_string(),
        "2026-03-30 09:00:00".to_string(),
        "2026-03-30 09:30:00".to_string(),
        "UTC".to_string(),
    );
    ev.id = "e1".to_string();
    assert_eq!(reminder_body(&ev, 0), "Now");
    assert_eq!(reminder_body(&ev, 15), "In 15 min");
    assert_eq!(reminder_body(&ev, 125), "In 2 h");
    ev.location = Some("HQ".to_string());
    assert_eq!(reminder_body(&ev, 15), "In 15 min \u{2014} HQ");
    ev.reminder_minutes = Some(15);
    let now = DateTimeParts { year: 2026, month: 3, day: 30, hour: 8, minute: 45, second: 20, nanosecond: 0 };
    let none: Vec<String> = Vec::new();
    assert_eq!(reminder_due(&ev, &none, &now), Some("e1:15".to_string()));
    assert_eq!(reminder_due(&ev, &vec!["e1:15".to_string()], &now), None);
    let late = DateTimeParts { minute: 46, ..now };
    assert_eq!(check_reminder(&ev, &none, &late), Some(None));
    let after = DateTimeParts { hour: 9, minute: 0, second: 1, ..now };
    assert_eq!(reminder_due(&ev, &none, &after), None);
}

#[test]
fn help_lines_and_layout() {
    let lines = build_help_lines();
    assert_eq!(lines[1], HelpLine::Heading("GLOBAL"));
    assert_eq!(lines[2], HelpLine::Binding("q / Ctrl+C", "Quit"));
    assert_eq!(binding_key_text("q"), format!("  {:<20}", "q"));
    let area = Area { x: 0, y: 0, width: 100, height: 40 };
    let r = centered_rect(70, 85, area);
    assert!(r.width <= 70 && r.width >= 69);
    assert!(r.x >= 15 && r.x <= 16);
    let _ = (Calendar::new_local("a".to_string(), "b".to_string()), Project::new("p".to_string(), "c".to_string()), DependencyType::Blocks.as_str());
}

#[test]
fn a_day_forward_and_back_is_the_same_day() {
    for d in [
        CivilDate { year: 2024, month: 2, day: 29 },
        CivilDate { year: 2025, month: 12, day: 31 },
        CivilDate { year: 2026, month: 4, day: 30 },
    ] {
        assert_eq!(add_days(add_days(d, 1).unwrap(), -1), Some(d));
    }
}

#[test]
fn event_duration_in_minutes() {
    let ev = Event::new(
        "c".to_string(),
        "t".to_string(),
        "2026-03-30 09:00:00".to_string(),
        "2026-03-30 10:30:00".to_string(),
        "UTC".to_string(),
    );
    assert_eq!(ev.duration_minutes(), Some(90));
    let mut bad = ev.clone();
    bad.end_at = "later".to_string();
    assert_eq!(bad.duration_minutes(), None);
}

#[test]
fn all_day_export_writes_dates() {
    let mut ev = Event::new(
        "cal".to_string(),
        "Holiday".to_string(),
        "2026-04-03 00:00:00".to_string(),
        "2026-04-04 00:00:00".to_string(),
        "UTC".to_string(),
    );
    ev.all_day = true;
    ev.description = Some("Off".to_string());
    let text = export_events(&vec![ev], "Cal");
    assert!(text.contains("DTSTART;VALUE=DATE:20260403"));
    assert!(text.contains("DTEND;VALUE=DATE:20260404"));
    assert!(text.contains("DESCRIPTION:Off"));
    assert!(text.contains("X-WR-CALNAME:Cal"));
    assert!(text.starts_with("BEGIN:VCALENDAR"));
}

#[test]
fn agenda_offers_google_sync() {
    assert_eq!(resolve(&View::Agenda, key('G')), Action::GoogleSync);
    assert_eq!(resolve(&View::Agenda, key('S')), Action::GoogleSync);
}

#[test]
fn shown_reminder_is_not_due_again() {
    let mut ev = Event::new(
        "cal".to_string(),
        "Standup".to_string(),
        "2026-03-30 09:00:00".to_string(),
        "2026-03-30 09:30:00".to_string(),
        "UTC".to_string(),
    );
    ev.id = "e1".to_string();
    ev.reminder_minutes = Some(15);
    let now = DateTimeParts { year: 2026, month: 3, day: 30, hour: 8, minute: 45, second: 0, nanosecond: 0 };
    let mut notified: Vec<String> = Vec::new();
    let key = reminder_due(&ev, &notified, &now).unwrap();
    remember_shown(&mut notified, key);
    assert_eq!(notified, vec!["e1:15".to_string()]);
    assert_eq!(reminder_due(&ev, &notified, &now), None);
}

#[test]
fn friendly_dates_name_weekdays_across_years() {
    let today = CivilDate { year: 2026, month: 3, day: 31 };
    assert_eq!(friendly_date(CivilDate { year: 2024, month: 2, day: 29 }, today), "Thursday, Feb 29");
    assert_eq!(friendly_date(CivilDate { year: 1999, month: 12, day: 31 }, today), "Friday, Dec 31");
    assert_eq!(friendly_date(CivilDate { year: 1970, month: 1, day: 1 }, today), "Thursday, Jan 1");
}

#[test]
fn event_duration_rounds_toward_zero_across_days() {
    let mut ev = Event::new(
        "c".to_string(),
        "t".to_string(),
        "2024-02-28 23:30:00".to_string(),
        "2024-03-01 00:15:59".to_string(),
        "UTC".to_string(),
    );
    assert_eq!(ev.duration_minutes(), Some(24 * 60 + 45));
    ev.start_at = "2026-03-30 10:00:00".to_string();
    ev.end_at = "2026-03-30 09:58:30".to_string();
    assert_eq!(ev.duration_minutes(), Some(-1));
}

#[test]
fn consecutive_days_fall_on_consecutive_weekdays() {
    let today = CivilDate { year: 2026, month: 3, day: 31 };
    let cases = [
        ((2024, 2, 28), "Wednesday, Feb 28"),
        ((2024, 2, 29), "Thursday, Feb 29"),
        ((2024, 3, 1), "Friday, Mar 1"),
        ((2024, 12, 31), "Tuesday, Dec 31"),
        ((2025, 1, 1), "Wednesday, Jan 1"),
        ((2000, 2, 29), "Tuesday, Feb 29"),
        ((2000, 3, 1), "Wednesday, Mar 1"),
        ((1900, 2, 28), "Wednesday, Feb 28"),
        ((1900, 3, 1), "Thursday, Mar 1"),
    ];
    for ((year, month, day), text) in cases {
        assert_eq!(friendly_date(CivilDate { year, month, day }, today), text);
    }
}
