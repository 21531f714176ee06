//! What the agenda, the time grid and the month grid show: which events, in
//! which rows, slots and cells. The drawing itself is left to the caller.
use vstd::prelude::*;

use crate::app::is_shown;
use crate::dag::{contains_str, str_views};
use crate::models::{Calendar, Event};
use crate::timestamp::{date_le, date_not_after, date_of, storage_timestamp, CivilDate};
use crate::ui::util::{truncate, truncated};

verus! {

/// A row of the agenda.
#[derive(Debug, Clone, Copy, PartialEq, Eq, Structural)]
pub enum AgendaRow {
    /// An empty line between two days.
    Blank,
    /// The header of a day.
    Date(CivilDate),
    /// The event at this index of the event list.
    Entry(usize),
}

pub(crate) fn shown_in(cals: &[Calendar], e: &Event) -> (res: bool)
    ensures
        res == is_shown(cals@, *e),
{
    if e.deleted_at.is_some() {
        return false;
    }
    let mut i: usize = 0;
    while i < cals.len()
        invariant
            i <= cals.len(),
            e.deleted_at is None,
            forall|k: int| 0 <= k < i ==> !(#[trigger] cals@[k].visible && cals@[k].id@ == e.calendar_id@),
        decreases cals.len() - i,
    {
        if cals[i].visible && cals[i].id == e.calendar_id {
            return true;
        }
        i += 1;
    }
    false
}

/// The agenda rows for the first `n` events, and the day of the last header.
/// An event shows when its calendar is visible, it is not deleted, its start
/// can be read and its day is not before `today`; a header goes before each
/// new day, with a blank line before every header but the first.
pub open spec fn agenda_prefix(
    evs: Seq<Event>,
    cals: Seq<Calendar>,
    today: CivilDate,
    n: int,
) -> (Seq<AgendaRow>, Option<CivilDate>)
    decreases n,
{
    if n <= 0 {
        (Seq::empty(), None)
    } else {
        let (rows, prev) = agenda_prefix(evs, cals, today, n - 1);
        let e = evs[n - 1];
        if !is_shown(cals, e) {
            (rows, prev)
        } else {
            match storage_timestamp(e.start_at@) {
                None => (rows, prev),
                Some(p) => {
                    let d = date_of(p);
                    if !date_le(today, d) {
                        (rows, prev)
                    } else if prev == Some(d) {
                        (rows.push(AgendaRow::Entry((n - 1) as usize)), prev)
                    } else {
                        let spaced = if prev is Some {
                            rows.push(AgendaRow::Blank)
                        } else {
                            rows
                        };
                        (spaced.push(AgendaRow::Date(d)).push(AgendaRow::Entry((n - 1) as usize)), Some(d))
                    }
                },
            }
        }
    }
}

/// The rows of the agenda: the shown events dated today or later, in the
/// order given, each day under its own header.
pub fn agenda_rows(events: &[Event], calendars: &[Calendar], today: CivilDate) -> (res: Vec<AgendaRow>)
    ensures
        res@ == agenda_prefix(events@, calendars@, today, events@.len() as int).0,
{
    let mut rows: Vec<AgendaRow> = Vec::new();
    let mut prev: Option<CivilDate> = None;
    let mut i: usize = 0;
    while i < events.len()
        invariant
            i <= events.len(),
            (rows@, prev) == agenda_prefix(events@, calendars@, today, i as int),
        decreases events.len() - i,
    {
        let e = &events[i];
        if shown_in(calendars, e) {
            if let Some(p) = e.start_dt() {
                let d = CivilDate { year: p.year, month: p.month, day: p.day };
                if date_not_after(&today, &d) {
                    if prev == Some(d) {
                        rows.push(AgendaRow::Entry(i));
                    } else {
                        if prev.is_some() {
                            rows.push(AgendaRow::Blank);
                        }
                        rows.push(AgendaRow::Date(d));
                        rows.push(AgendaRow::Entry(i));
                        prev = Some(d);
                    }
                }
            }
        }
        i += 1;
    }
    rows
}

/// The event falls in the hour `hour` of `day`: it falls on the day, and the
/// hour lies between the hours of its start and its end, both included.
pub open spec fn in_hour_slot(e: Event, day: CivilDate, hour: u32) -> bool {
    e.occurs_on_spec(day) && match storage_timestamp(e.start_at@) {
        Some(s) => s.hour <= hour && match storage_timestamp(e.end_at@) {
            Some(t) => hour <= t.hour,
            None => hour <= s.hour + 1,
        },
        None => false,
    }
}

/// The indices, in order, of the first `n` events that fall in the slot.
pub open spec fn slot_prefix(evs: Seq<Event>, day: CivilDate, hour: u32, n: int) -> Seq<usize>
    decreases n,
{
    if n <= 0 {
        Seq::empty()
    } else if in_hour_slot(evs[n - 1], day, hour) {
        slot_prefix(evs, day, hour, n - 1).push((n - 1) as usize)
    } else {
        slot_prefix(evs, day, hour, n - 1)
    }
}

/// The indices, in order, of the events that fall in the hour `hour` of
/// `day`.
pub fn hour_slot_events(events: &[Event], day: CivilDate, hour: u32) -> (res: Vec<usize>)
    ensures
        res@ == slot_prefix(events@, day, hour, events@.len() as int),
{
    let mut out: Vec<usize> = Vec::new();
    let mut i: usize = 0;
    while i < events.len()
        invariant
            i <= events.len(),
            out@ == slot_prefix(events@, day, hour, i as int),
        decreases events.len() - i,
    {
        let e = &events[i];
        let fits = if e.occurs_on(day) {
            match e.start_dt() {
                Some(s) => s.hour <= hour && match e.end_dt() {
                    Some(t) => hour <= t.hour,
                    None => hour as u64 <= s.hour as u64 + 1,
                },
                None => false,
            }
        } else {
            false
        };
        if fits {
            out.push(i);
        }
        i += 1;
    }
    out
}

/// The indices, in order, of the first `n` events shown on `day`.
pub open spec fn day_prefix(evs: Seq<Event>, cals: Seq<Calendar>, day: CivilDate, n: int) -> Seq<usize>
    decreases n,
{
    if n <= 0 {
        Seq::empty()
    } else if is_shown(cals, evs[n - 1]) && evs[n - 1].occurs_on_spec(day) {
        day_prefix(evs, cals, day, n - 1).push((n - 1) as usize)
    } else {
        day_prefix(evs, cals, day, n - 1)
    }
}

/// The indices, in order, of the events of visible calendars, not deleted,
/// that fall on `day`.
pub fn day_events(events: &[Event], calendars: &[Calendar], day: CivilDate) -> (res: Vec<usize>)
    ensures
        res@ == day_prefix(events@, calendars@, day, events@.len() as int),
        forall|k: int| 0 <= k < res@.len() ==> #[trigger] res@[k] < events@.len(),
{
    let mut out: Vec<usize> = Vec::new();
    let mut i: usize = 0;
    while i < events.len()
        invariant
            i <= events.len(),
            out@ == day_prefix(events@, calendars@, day, i as int),
            forall|k: int| 0 <= k < out@.len() ==> #[trigger] out@[k] < i,
        decreases events.len() - i,
    {
        let e = &events[i];
        if shown_in(calendars, e) && e.occurs_on(day) {
            out.push(i);
        }
        i += 1;
    }
    out
}

/// The titles listed in the selected day's cell: the events of the day, in
/// order, at most `max_lines` of them, each with its index and its title cut
/// to `width` columns.
pub fn day_cell_titles(
    events: &[Event],
    calendars: &[Calendar],
    day: CivilDate,
    max_lines: usize,
    width: usize,
) -> (res: Vec<(usize, String)>)
    ensures
        res@.len() == if day_prefix(events@, calendars@, day, events@.len() as int).len()
            < max_lines {
            day_prefix(events@, calendars@, day, events@.len() as int).len()
        } else {
            max_lines as nat
        },
        forall|k: int|
            0 <= k < res@.len() ==> {
                let i = day_prefix(events@, calendars@, day, events@.len() as int)[k];
                &&& (#[trigger] res@[k]).0 == i
                &&& res@[k].1@ == truncated(events@[i as int].title@, width as int)
            },
{
    let days = day_events(events, calendars, day);
    let mut out: Vec<(usize, String)> = Vec::new();
    let mut k: usize = 0;
    while k < days.len() && k < max_lines
        invariant
            k <= days.len(),
            k <= max_lines,
            out@.len() == k,
            days@ == day_prefix(events@, calendars@, day, events@.len() as int),
            forall|j: int| 0 <= j < days@.len() ==> #[trigger] days@[j] < events@.len(),
            forall|j: int|
                0 <= j < k ==> (#[trigger] out@[j]).0 == days@[j] && out@[j].1@ == truncated(
                    events@[days@[j] as int].title@,
                    width as int,
                ),
        decreases days.len() - k,
    {
        let i = days[k];
        out.push((i, truncate(events[i].title.as_str(), width)));
        k += 1;
    }
    out
}

/// The entries of `idx`, among its first `n`, whose event's calendar does not
/// come up earlier in `idx`.
pub open spec fn first_per_calendar(evs: Seq<Event>, idx: Seq<usize>, n: int) -> Seq<usize>
    decreases n,
{
    if n <= 0 {
        Seq::empty()
    } else if (forall|j: int|
        0 <= j < n - 1 ==> evs[#[trigger] idx[j] as int].calendar_id@ != evs[idx[n - 1] as int].calendar_id@) {
        first_per_calendar(evs, idx, n - 1).push(idx[n - 1])
    } else {
        first_per_calendar(evs, idx, n - 1)
    }
}

/// The dots of a day cell: one event of each calendar of the day, in order of
/// first appearance, at most `max_dots` of them; and how many of the day's
/// events have no dot.
pub fn day_cell_dots(
    events: &[Event],
    calendars: &[Calendar],
    day: CivilDate,
    max_dots: usize,
) -> (res: (Vec<usize>, usize))
    ensures
        ({
            let days = day_prefix(events@, calendars@, day, events@.len() as int);
            let firsts = first_per_calendar(events@, days, days.len() as int);
            &&& res.0@ == firsts.take(
                if firsts.len() < max_dots {
                    firsts.len() as int
                } else {
                    max_dots as int
                },
            )
            &&& res.1 == days.len() - res.0@.len()
        }),
{
    let days = day_events(events, calendars, day);
    let mut seen: Vec<String> = Vec::new();
    let mut firsts: Vec<usize> = Vec::new();
    let mut k: usize = 0;
    while k < days.len()
        invariant
            k <= days.len(),
            days@ == day_prefix(events@, calendars@, day, events@.len() as int),
            forall|j: int| 0 <= j < days@.len() ==> #[trigger] days@[j] < events@.len(),
            firsts@ == first_per_calendar(events@, days@, k as int),
            firsts@.len() <= k,
            forall|x: Seq<char>|
                #[trigger] str_views(seen@).contains(x) <==> exists|j: int|
                    0 <= j < k && events@[days@[j] as int].calendar_id@ == x,
        decreases days.len() - k,
    {
        let i = days[k];
        let cal = &events[i].calendar_id;
        let ghost s0 = seen@;
        if !contains_str(&seen, cal) {
            proof {
                assert forall|j: int| 0 <= j < k implies events@[#[trigger] days@[j] as int].calendar_id@ != events@[
                    days@[k as int] as int].calendar_id@ by {
                    if events@[days@[j] as int].calendar_id@ == cal@ {
                        assert(str_views(s0).contains(cal@));
                    }
                }
            }
            firsts.push(i);
            seen.push(cal.clone());
            proof {
                assert(str_views(seen@) =~= str_views(s0).push(cal@));
                assert forall|x: Seq<char>|
                    #[trigger] str_views(seen@).contains(x) <==> exists|j: int|
                        0 <= j < k + 1 && events@[days@[j] as int].calendar_id@ == x by {
                    vstd::seq_lib::lemma_seq_contains_after_push(str_views(s0), cal@, x);
                    if x == cal@ {
                        assert(events@[days@[k as int] as int].calendar_id@ == x);
                    }
                    if exists|j: int| 0 <= j < k + 1 && events@[days@[j] as int].calendar_id@ == x {
                        let j = choose|j: int| 0 <= j < k + 1 && events@[days@[j] as int].calendar_id@ == x;
                        if j < k {
                            assert(str_views(s0).contains(x));
                        }
                    }
                }
            }
        } else {
            proof {
                let j0 = choose|j: int| 0 <= j < k && events@[days@[j] as int].calendar_id@ == cal@;
                assert(!(forall|j: int|
                    0 <= j < k ==> events@[#[trigger] days@[j] as int].calendar_id@ != events@[
                        days@[k as int] as int].calendar_id@));
                assert forall|x: Seq<char>|
                    #[trigger] str_views(seen@).contains(x) <==> exists|j: int|
                        0 <= j < k + 1 && events@[days@[j] as int].calendar_id@ == x by {
                    if exists|j: int| 0 <= j < k + 1 && events@[days@[j] as int].calendar_id@ == x {
                        let j = choose|j: int| 0 <= j < k + 1 && events@[days@[j] as int].calendar_id@ == x;
                        if j == k {
                            assert(events@[days@[j0] as int].calendar_id@ == x);
                        }
                    }
                }
            }
        }
        k += 1;
    }
    let count = if firsts.len() < max_dots {
        firsts.len()
    } else {
        max_dots
    };
    let mut dots: Vec<usize> = Vec::new();
    let mut j: usize = 0;
    while j < count
        invariant
            j <= count,
            count <= firsts.len(),
            dots@ == firsts@.take(j as int),
        decreases count - j,
    {
        dots.push(firsts[j]);
        assert(dots@ =~= firsts@.take(j as int + 1));
        j += 1;
    }
    let extra = days.len() - dots.len();
    (dots, extra)
}

} // verus!
