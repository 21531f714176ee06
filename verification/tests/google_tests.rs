use solverforge_calendar::google::auth::{authorization_url, extract_oauth_code, GoogleClient};
use solverforge_calendar::google::discovery::{
    parse_calendar_item, parse_calendar_list_page, parse_calendar_list_response,
    sort_discovered_calendars, CalendarListItem, DiscoveredGoogleCalendar,
};
use solverforge_calendar::google::percent::{percent_encode, urldecode};
use solverforge_calendar::google::sync::{
    absorb_events_page, events_url, plan_calendar_sync, SyncStep,
};
use solverforge_calendar::google::types::{
    google_calendar_to_local, google_color_id_to_hex, google_event_to_local,
    parse_google_datetime, GoogleEvent, GoogleEventTime,
};
use solverforge_calendar::models::{Calendar, CalendarSource};

fn item(id: &str, summary: Option<&str>, color: Option<&str>, primary: Option<bool>, deleted: Option<bool>) -> CalendarListItem {
    CalendarListItem {
        id: Some(id.to_string()),
        summary: summary.map(|s| s.to_string()),
        background_color: color.map(|s| s.to_string()),
        primary,
        deleted,
    }
}

#[test]
fn parse_calendar_list_page_skips_deleted_rows_and_applies_defaults() {
    let parsed = parse_calendar_list_page(&vec![
        item("primary@example.com", Some("Primary"), Some("#112233"), Some(true), None),
        item("fallback@example.com", Some("   "), None, None, Some(false)),
        item("deleted@example.com", Some("Deleted"), None, None, Some(true)),
    ]);

    assert_eq!(
        parsed,
        vec![
            DiscoveredGoogleCalendar {
                google_id: "primary@example.com".to_string(),
                name: "Primary".to_string(),
                color: "#112233".to_string(),
                primary: true,
            },
            DiscoveredGoogleCalendar {
                google_id: "fallback@example.com".to_string(),
                name: "fallback@example.com".to_string(),
                color: "#82FB9C".to_string(),
                primary: false,
            },
        ]
    );
}

#[test]
fn parse_calendar_list_response_rejects_google_error_payloads() {
    let body = r#"{"error":{"code":401,"message":"Request had invalid authentication credentials."}}"#;
    let err = parse_calendar_list_response(401, body, &Vec::new(), None).unwrap_err();
    assert!(err.contains("401 Unauthorized"));
    assert!(err.ends_with(body));
}

#[test]
fn calendar_list_response_success_keeps_token() {
    let page = parse_calendar_list_response(
        200,
        "{}",
        &vec![item(" a@example.com ", None, None, None, None)],
        Some("next".to_string()),
    )
    .unwrap();
    assert_eq!(page.next_page_token.as_deref(), Some("next"));
    assert_eq!(page.calendars.len(), 1);
    assert_eq!(page.calendars[0].google_id, "a@example.com");
    assert_eq!(page.calendars[0].name, "a@example.com");
}

#[test]
fn calendar_item_without_id_is_skipped() {
    let it = CalendarListItem { id: None, summary: None, background_color: None, primary: None, deleted: None };
    assert_eq!(parse_calendar_item(&it), None);
    assert_eq!(parse_calendar_item(&item("  ", None, None, None, None)), None);
}

#[test]
fn discovered_calendars_sort_primary_first_then_by_name() {
    let d = |id: &str, name: &str, primary: bool| DiscoveredGoogleCalendar {
        google_id: id.to_string(),
        name: name.to_string(),
        color: "#000000".to_string(),
        primary,
    };
    let sorted = sort_discovered_calendars(vec![
        d("z", "beta", false),
        d("y", "Alpha", false),
        d("x", "zeta", true),
        d("b", "alpha", false),
    ]);
    let ids: Vec<&str> = sorted.iter().map(|c| c.google_id.as_str()).collect();
    assert_eq!(ids, vec!["x", "b", "y", "z"]);
}

#[test]
fn color_ids_map_to_hex() {
    assert_eq!(google_color_id_to_hex("1"), "#7986CB");
    assert_eq!(google_color_id_to_hex("10"), "#0B8043");
    assert_eq!(google_color_id_to_hex("11"), "#D50000");
    assert_eq!(google_color_id_to_hex("12"), "#82FB9C");
    assert_eq!(google_color_id_to_hex(""), "#82FB9C");
}

#[test]
fn google_calendar_becomes_local_row() {
    let cal = google_calendar_to_local("g@example.com", "Team", "#123456");
    assert_eq!(cal.source, CalendarSource::Google);
    assert_eq!(cal.google_id.as_deref(), Some("g@example.com"));
    assert_eq!(cal.position, 99);
    assert!(cal.visible);
}

fn timed(dt: &str) -> GoogleEventTime {
    GoogleEventTime { date_time: Some(dt.to_string()), date: None, time_zone: Some("UTC".to_string()) }
}

fn google_event(id: &str, status: Option<&str>) -> GoogleEvent {
    GoogleEvent {
        id: Some(id.to_string()),
        status: status.map(|s| s.to_string()),
        summary: Some("Imported event".to_string()),
        description: None,
        location: None,
        etag: Some("\"etag-1\"".to_string()),
        start: timed("2026-03-30T09:00:00Z"),
        end: timed("2026-03-30T10:00:00Z"),
        recurrence: Vec::new(),
    }
}

#[test]
fn google_event_converts_times_to_utc() {
    let mut gev = google_event("google-event-1", Some("confirmed"));
    gev.start = timed("2026-03-30T11:00:00+02:00");
    gev.recurrence = vec![None, Some("EXDATE:20260401".to_string()), Some("RRULE:FREQ=DAILY".to_string())];
    let ev = google_event_to_local("cal-1", &gev).unwrap();
    assert_eq!(ev.start_at, "2026-03-30 09:00:00");
    assert_eq!(ev.end_at, "2026-03-30 10:00:00");
    assert!(!ev.all_day);
    assert_eq!(ev.rrule.as_deref(), Some("RRULE:FREQ=DAILY"));
    assert_eq!(ev.google_id.as_deref(), Some("google-event-1"));
    assert_eq!(ev.google_etag.as_deref(), Some("\"etag-1\""));
    assert_eq!(ev.timezone, "UTC");
    assert_eq!(ev.calendar_id, "cal-1");
}

#[test]
fn google_all_day_event_and_missing_times() {
    let mut gev = google_event("g", None);
    gev.summary = None;
    gev.start = GoogleEventTime { date_time: None, date: Some("2026-04-01".to_string()), time_zone: None };
    gev.end = GoogleEventTime { date_time: None, date: Some("2026-04-02".to_string()), time_zone: None };
    let ev = google_event_to_local("c", &gev).unwrap();
    assert!(ev.all_day);
    assert_eq!(ev.start_at, "2026-04-01 00:00:00");
    assert_eq!(ev.title, "(no title)");
    assert_eq!(ev.timezone, "UTC");

    gev.end = GoogleEventTime { date_time: None, date: None, time_zone: None };
    assert_eq!(google_event_to_local("c", &gev).unwrap_err(), "event has no end time");
    gev.start = GoogleEventTime { date_time: None, date: None, time_zone: None };
    assert_eq!(google_event_to_local("c", &gev).unwrap_err(), "event has no start time");
}

#[test]
fn unparseable_google_time_is_kept() {
    assert_eq!(parse_google_datetime("2026-03-30 09:00:00"), "2026-03-30 09:00:00");
    assert_eq!(parse_google_datetime("2026-12-31T23:30:00-01:00"), "2027-01-01 00:30:00");
}

fn google_calendar(id: &str) -> Calendar {
    Calendar {
        id: id.to_string(),
        name: format!("Calendar {}", id),
        color: "#50f872".to_string(),
        source: CalendarSource::Google,
        google_id: Some(format!("{}-id", id)),
        visible: true,
        position: 0,
        created_at: "2026-03-30 10:00:00".to_string(),
        updated_at: "2026-03-30 10:00:00".to_string(),
        deleted_at: None,
    }
}

#[test]
fn apply_calendar_sync_uses_supplied_connection() {
    let calendar = google_calendar("google-cal");
    let plan = plan_calendar_sync(
        &calendar,
        &vec![google_event("google-event-1", Some("confirmed"))],
        Vec::new(),
        Some("sync-token-1".to_string()),
    );
    assert_eq!(plan.added, 1);
    assert_eq!(plan.updated, 0);
    assert_eq!(plan.new_sync_token.as_deref(), Some("sync-token-1"));
    match &plan.steps[0] {
        SyncStep::Insert(ev) => {
            assert_eq!(ev.calendar_id, calendar.id);
            assert_eq!(ev.google_id.as_deref(), Some("google-event-1"));
            assert_eq!(ev.google_etag.as_deref(), Some("\"etag-1\""));
        }
        other => panic!("unexpected step {:?}", other),
    }
}

#[test]
fn apply_calendar_sync_inserts_even_when_other_calendar_has_same_google_id() {
    // Only the live ids of the calendar being synced count.
    let calendar = google_calendar("google-cal-a");
    let plan = plan_calendar_sync(
        &calendar,
        &vec![google_event("shared-google-event", Some("confirmed"))],
        Vec::new(),
        None,
    );
    assert_eq!(plan.added, 1);
    assert_eq!(plan.updated, 0);
}

#[test]
fn apply_calendar_sync_updates_only_matching_calendar_event() {
    let calendar = google_calendar("google-cal-a");
    let mut gev = google_event("shared-google-event", Some("confirmed"));
    gev.summary = Some("Updated A".to_string());
    let plan = plan_calendar_sync(&calendar, &vec![gev], vec!["shared-google-event".to_string()], None);
    assert_eq!(plan.added, 0);
    assert_eq!(plan.updated, 1);
    match &plan.steps[0] {
        SyncStep::Update(ev) => assert_eq!(ev.title, "Updated A"),
        other => panic!("unexpected step {:?}", other),
    }
}

#[test]
fn apply_calendar_sync_soft_deletes_only_matching_calendar_event() {
    let calendar = google_calendar("google-cal-a");
    let plan = plan_calendar_sync(
        &calendar,
        &vec![google_event("shared-google-event", Some("cancelled"))],
        vec!["shared-google-event".to_string()],
        None,
    );
    assert_eq!(plan.added, 0);
    assert_eq!(plan.updated, 0);
    match &plan.steps[0] {
        SyncStep::SoftDelete(id) => assert_eq!(id, "shared-google-event"),
        other => panic!("unexpected step {:?}", other),
    }
}

#[test]
fn sync_sees_its_own_inserts_and_deletes() {
    let calendar = google_calendar("c");
    let mut no_start = google_event("bad", None);
    no_start.start = GoogleEventTime { date_time: None, date: None, time_zone: None };
    let events = vec![
        google_event("e1", None),
        google_event("e1", None),
        google_event("e1", Some("cancelled")),
        google_event("e1", None),
        no_start,
        GoogleEvent { id: None, ..google_event("x", Some("cancelled")) },
    ];
    let plan = plan_calendar_sync(&calendar, &events, Vec::new(), None);
    assert_eq!(plan.steps.len(), 6);
    assert!(matches!(plan.steps[0], SyncStep::Insert(_)));
    assert!(matches!(plan.steps[1], SyncStep::Update(_)));
    assert!(matches!(plan.steps[2], SyncStep::SoftDelete(_)));
    assert!(matches!(plan.steps[3], SyncStep::Insert(_)));
    assert!(matches!(&plan.steps[4], SyncStep::Skip(m) if m == "event has no start time"));
    assert!(matches!(plan.steps[5], SyncStep::Ignore));
    assert_eq!(plan.added, 2);
    assert_eq!(plan.updated, 1);
}

#[test]
fn events_pages_accumulate() {
    let mut all = Vec::new();
    let mut token = Some("old".to_string());
    let next = absorb_events_page(&mut all, &mut token, vec![google_event("a", None)], None, Some("p2".to_string()));
    assert_eq!(next.as_deref(), Some("p2"));
    assert_eq!(token.as_deref(), Some("old"));
    let next = absorb_events_page(&mut all, &mut token, vec![google_event("b", None)], Some("new".to_string()), None);
    assert_eq!(next, None);
    assert_eq!(token.as_deref(), Some("new"));
    assert_eq!(all.len(), 2);
}

#[test]
fn url_encoding_and_decoding() {
    assert_eq!(percent_encode("a b+c/é", false), "a%20b%2Bc%2F%E9");
    assert_eq!(percent_encode("me@x.io", true), "me@x.io");
    assert_eq!(percent_encode("me@x.io", false), "me%40x.io");
    assert_eq!(percent_encode("😀", false), "%1F600");
    assert_eq!(urldecode("a%20b+c%2f"), "a b c/");
    assert_eq!(urldecode("%zz!"), "!");
    assert_eq!(urldecode("%+5"), "\u{5}");
    assert_eq!(urldecode("%4"), "@");
    assert_eq!(
        events_url("team@group.calendar.google.com"),
        "https://www.googleapis.com/calendar/v3/calendars/team@group.calendar.google.com/events"
    );
}

#[test]
fn oauth_code_is_read_from_request_line() {
    assert_eq!(
        extract_oauth_code("GET /oauth/callback?state=x&code=4%2F0Ab-c&scope=y HTTP/1.1\r\n"),
        Some("4/0Ab-c".to_string())
    );
    assert_eq!(extract_oauth_code("GET /oauth/callback?error=denied HTTP/1.1"), None);
    assert_eq!(extract_oauth_code("GET /oauth/callback HTTP/1.1"), None);
    assert_eq!(extract_oauth_code("GET"), None);
    assert_eq!(extract_oauth_code("  GET   /cb?code=a+b?x  "), Some("a b".to_string()));
}

#[test]
fn authorization_url_encodes_parts() {
    let url = authorization_url("id 1");
    assert!(url.starts_with("https://accounts.google.com/o/oauth2/v2/auth?client_id=id%201&redirect_uri=http%3A%2F%2F127.0.0.1%3A8989%2Foauth%2Fcallback"));
    assert!(url.ends_with("&access_type=offline&prompt=consent"));
}

#[test]
fn google_client_needs_all_credentials() {
    let c = GoogleClient::from_parts(Some("a".to_string()), Some("b".to_string()), Some("c".to_string())).unwrap();
    assert_eq!(c.refresh_token, "c");
    assert!(GoogleClient::from_parts(Some("a".to_string()), None, Some("c".to_string())).is_none());
}

#[test]
fn sorting_keeps_ties_in_order() {
    let d = |id: &str, name: &str, color: &str| DiscoveredGoogleCalendar {
        google_id: id.to_string(),
        name: name.to_string(),
        color: color.to_string(),
        primary: false,
    };
    let sorted = sort_discovered_calendars(vec![
        d("same", "Team", "#1"),
        d("same", "TEAM", "#2"),
        d("aaa", "Team", "#3"),
    ]);
    let colors: Vec<&str> = sorted.iter().map(|c| c.color.as_str()).collect();
    assert_eq!(colors, vec!["#3", "#1", "#2"]);
}

#[test]
fn decoding_what_encoding_wrote_gives_the_text_back() {
    for s in ["plain", "a b+c/é%&=?", "code=4/0Ab-c", "~._-@", "\u{0}\u{ff}"] {
        assert_eq!(urldecode(&percent_encode(s, false)), s);
        assert_eq!(urldecode(&percent_encode(s, true)), s);
    }
}
