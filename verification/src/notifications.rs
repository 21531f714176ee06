//! Event reminders: when one is due, and what the desktop notification says.
use vstd::prelude::*;

use crate::dag::str_views;
use crate::models::Event;
use crate::text::{dec_seq, int_dec_seq, push_dec, push_int_dec, str_eq, to_owned_string};
use crate::timestamp::{epoch_seconds, is_before, parts_before, storage_timestamp, DateTimeParts};

verus! {

/// When the notification says the event starts.
pub open spec fn when_text(minutes_before: int) -> Seq<char> {
    if minutes_before == 0 {
        "Now"@
    } else if minutes_before < 60 {
        "In "@ + int_dec_seq(minutes_before) + " min"@
    } else {
        "In "@ + dec_seq((minutes_before / 60) as nat) + " h"@
    }
}

/// The body of a reminder: when the event starts, and where.
pub open spec fn reminder_body_text(minutes_before: int, location: Option<Seq<char>>) -> Seq<char> {
    match location {
        Some(l) => when_text(minutes_before) + " \u{2014} "@ + l,
        None => when_text(minutes_before),
    }
}

/// The body of the notification for an event that starts in
/// `minutes_before` minutes.
pub fn reminder_body(event: &Event, minutes_before: i64) -> (res: String)
    ensures
        res@ == reminder_body_text(
            minutes_before as int,
            match event.location {
                Some(l) => Some(l@),
                None => None,
            },
        ),
{
    let mut when = String::new();
    if minutes_before == 0 {
        when = to_owned_string("Now");
    } else if minutes_before < 60 {
        when.append("In ");
        push_int_dec(&mut when, minutes_before);
        when.append(" min");
    } else {
        when.append("In ");
        push_dec(&mut when, (minutes_before / 60) as u64);
        when.append(" h");
    }
    match &event.location {
        Some(loc) => {
            when.append(" \u{2014} ");
            when.append(loc.as_str());
            when
        },
        None => when,
    }
}

/// What chrono gives for `(now - (start - TimeDelta::minutes(minutes))).num_seconds()`
/// on UTC date-times; `None` where `TimeDelta::minutes` or the subtraction
/// would leave chrono's range.
pub uninterp spec fn reminder_offset(now: DateTimeParts, start: DateTimeParts, minutes: i64) -> Option<i64>;

/// Computes, with chrono on UTC date-times, the seconds from the moment
/// `minutes` minutes before `start` to `now`, with checked arithmetic; the
/// result is named by `reminder_offset`. When it is computed and both times
/// are whole seconds, chrono's differences are exact: it is the seconds from
/// `start` to `now` plus sixty per minute. When chrono's range makes it `None`
/// is left to the name.
#[verifier::external_body]
fn reminder_offset_seconds(now: &DateTimeParts, start: &DateTimeParts, minutes: i64) -> (res: Option<i64>)
    requires
        now.valid(),
        start.valid(),
    ensures
        res == reminder_offset(*now, *start, minutes),
        res matches Some(d) ==> (now.nanosecond == 0 && start.nanosecond == 0 ==> d == epoch_seconds(
            *now,
        ) - epoch_seconds(*start) + 60 * minutes),
{
    let at = |p: &DateTimeParts| chrono::NaiveDate::from_ymd_opt(p.year, p.month, p.day)
        .and_then(|d| d.and_hms_nano_opt(p.hour, p.minute, p.second, p.nanosecond))
        .map(|n| n.and_utc());
    let notify_at = at(start)?.checked_sub_signed(chrono::TimeDelta::try_minutes(minutes)?)?;
    Some((at(now)? - notify_at).num_seconds())
}

/// The key under which a reminder is remembered once shown.
pub open spec fn notify_key_text(id: Seq<char>, minutes: int) -> Seq<char> {
    id + ":"@ + int_dec_seq(minutes)
}

/// The reminder of `event` is due at `now`: it has a positive reminder not
/// yet shown, its start can be read, `now` is within 30 seconds of the
/// reminder time, and the event has not started.
pub open spec fn reminder_due_spec(event: Event, notified: Seq<Seq<char>>, now: DateTimeParts) -> Option<Seq<char>> {
    match event.reminder_minutes {
        Some(m) => if m > 0 && !notified.contains(notify_key_text(event.id@, m as int)) {
            match storage_timestamp(event.start_at@) {
                Some(start) => match reminder_offset(now, start, m) {
                    Some(d) => if -30 <= d <= 30 && !parts_before(start, now) {
                        Some(notify_key_text(event.id@, m as int))
                    } else {
                        None
                    },
                    None => None,
                },
                None => None,
            }
        } else {
            None
        },
        None => None,
    }
}

/// Working out the reminder of `event` stays within chrono's range.
pub open spec fn reminder_defined(event: Event, notified: Seq<Seq<char>>, now: DateTimeParts) -> bool {
    match event.reminder_minutes {
        Some(m) => m > 0 && !notified.contains(notify_key_text(event.id@, m as int)) ==> match storage_timestamp(
            event.start_at@,
        ) {
            Some(start) => reminder_offset(now, start, m) is Some,
            None => true,
        },
        None => true,
    }
}

fn contains_text(v: &Vec<String>, s: &String) -> (res: bool)
    ensures
        res == str_views(v@).contains(s@),
{
    crate::dag::contains_str(v, s)
}

/// The key of the reminder of `event` when it is due at `now`, else `None`;
/// `notified` holds the keys of the reminders already shown.
pub fn reminder_due(event: &Event, notified: &Vec<String>, now: &DateTimeParts) -> (res: Option<String>)
    requires
        now.valid(),
        reminder_defined(*event, str_views(notified@), *now),
    ensures
        match reminder_due_spec(*event, str_views(notified@), *now) {
            Some(k) => res matches Some(r) && r@ == k,
            None => res is None,
        },
{
    match evaluate_reminder(event, notified, now) {
        Some(r) => r,
        None => None,
    }
}

/// The reminder's key when it is due, or `None` where working it out would
/// leave chrono's range.
fn evaluate_reminder(event: &Event, notified: &Vec<String>, now: &DateTimeParts) -> (res: Option<Option<String>>)
    requires
        now.valid(),
    ensures
        !reminder_defined(*event, str_views(notified@), *now) <==> res is None,
        reminder_defined(*event, str_views(notified@), *now) ==> match reminder_due_spec(
            *event,
            str_views(notified@),
            *now,
        ) {
            Some(k) => res matches Some(Some(r)) && r@ == k,
            None => res matches Some(None),
        },
{
    let m = match event.reminder_minutes {
        Some(m) => m,
        None => return Some(None),
    };
    if m <= 0 {
        return Some(None);
    }
    let mut key = event.id.clone();
    key.append(":");
    push_int_dec(&mut key, m);
    if contains_text(notified, &key) {
        return Some(None);
    }
    let start = match event.start_dt() {
        Some(s) => s,
        None => return Some(None),
    };
    let d = match reminder_offset_seconds(now, &start, m) {
        Some(d) => d,
        None => return None,
    };
    if -30 <= d && d <= 30 && !is_before(&start, now) {
        Some(Some(key))
    } else {
        Some(None)
    }
}

/// As [`reminder_due`], or `None` where working the reminder out would leave
/// chrono's range.
pub fn check_reminder(event: &Event, notified: &Vec<String>, now: &DateTimeParts) -> (res: Option<Option<String>>)
    requires
        now.valid(),
    ensures
        !reminder_defined(*event, str_views(notified@), *now) <==> res is None,
        reminder_defined(*event, str_views(notified@), *now) ==> match reminder_due_spec(
            *event,
            str_views(notified@),
            *now,
        ) {
            Some(k) => res matches Some(Some(r)) && r@ == k,
            None => res matches Some(None),
        },
{
    match evaluate_reminder(event, notified, now) {
        None => None,
        Some(_) => Some(reminder_due(event, notified, now)),
    }
}

/// Remembers that the reminder with key `key` was shown.
pub fn remember_shown(notified: &mut Vec<String>, key: String)
    ensures
        str_views(final(notified)@) == str_views(old(notified)@).push(key@),
{
    let ghost before = notified@;
    notified.push(key);
    assert(str_views(notified@) =~= str_views(before).push(key@));
}

/// A reminder is shown at most once: once the key of a due reminder is
/// remembered, the same reminder is never due again, at any later time, and
/// every key remembered before stays remembered.
pub proof fn law_reminder_shown_once(
    event: Event,
    notified: Seq<Seq<char>>,
    now: DateTimeParts,
    later: DateTimeParts,
)
    requires
        reminder_due_spec(event, notified, now) is Some,
    ensures
        reminder_due_spec(
            event,
            notified.push(reminder_due_spec(event, notified, now).unwrap()),
            later,
        ) is None,
        forall|k: Seq<char>|
            notified.contains(k) ==> #[trigger] notified.push(
                reminder_due_spec(event, notified, now).unwrap(),
            ).contains(k),
{
    let key = reminder_due_spec(event, notified, now).unwrap();
    let after = notified.push(key);
    assert(after[notified.len() as int] == key);
    assert(after.contains(key));
    assert forall|k: Seq<char>| notified.contains(k) implies #[trigger] after.contains(k) by {
        let i = choose|i: int| 0 <= i < notified.len() && notified[i] == k;
        assert(after[i] == k);
    }
}

} // verus!
