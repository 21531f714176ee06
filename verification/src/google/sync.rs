//! What a sync of one Google calendar does with the events the API reports.
use vstd::prelude::*;

use crate::google::types::{converted_event, google_event_id, google_event_to_local, google_time, no_end_text, no_start_text, GoogleEvent};
use crate::dag::{lemma_push_to_set, str_views};
use crate::models::{Calendar, Event};
use crate::google::percent::{percent_encode, percent_encoded};
use crate::text::str_eq;

verus! {

/// What a sync does with one reported event.
#[derive(Debug)]
pub enum SyncStep {
    /// A cancelled event: the local events of the calendar with this Google
    /// id are soft-deleted.
    SoftDelete(String),
    /// A cancelled event without an id: nothing happens.
    Ignore,
    /// The calendar's live event with the same Google id takes these fields.
    Update(Event),
    /// A new event.
    Insert(Event),
    /// An event that could not be read, with the reason.
    Skip(String),
}

/// The steps of a sync, one per reported event, with the numbers of events
/// added and updated and the sync token to keep.
#[derive(Debug)]
pub struct SyncPlan {
    pub steps: Vec<SyncStep>,
    pub added: usize,
    pub updated: usize,
    pub new_sync_token: Option<String>,
}

/// The API marks the event as cancelled.
pub open spec fn is_cancelled(gev: GoogleEvent) -> bool {
    gev.status matches Some(s) && s@ == "cancelled"@
}

/// The Google ids of the calendar's live events after one reported event.
pub open spec fn live_after_one(live: Set<Seq<char>>, gev: GoogleEvent) -> Set<Seq<char>> {
    if is_cancelled(gev) {
        match gev.id {
            Some(g) => live.remove(g@),
            None => live,
        }
    } else if google_time(gev.start) is None || google_time(gev.end) is None {
        live
    } else {
        live.insert(google_event_id(gev))
    }
}

/// The Google ids of the calendar's live events after the reported events
/// `evs`, starting from `live`.
pub open spec fn live_after(live: Set<Seq<char>>, evs: Seq<GoogleEvent>) -> Set<Seq<char>>
    decreases evs.len(),
{
    if evs.len() == 0 {
        live
    } else {
        live_after_one(live_after(live, evs.drop_last()), evs.last())
    }
}

/// `step` is what a sync of the calendar `calendar_id` does with `gev` while
/// the calendar's live events have the Google ids `live`.
pub open spec fn step_fits(calendar_id: Seq<char>, gev: GoogleEvent, live: Set<Seq<char>>, step: SyncStep) -> bool {
    if is_cancelled(gev) {
        match gev.id {
            Some(g) => step matches SyncStep::SoftDelete(x) && x@ == g@,
            None => step is Ignore,
        }
    } else if google_time(gev.start) is None {
        step matches SyncStep::Skip(m) && m@ == no_start_text()
    } else if google_time(gev.end) is None {
        step matches SyncStep::Skip(m) && m@ == no_end_text()
    } else if live.contains(google_event_id(gev)) {
        step matches SyncStep::Update(ev) && converted_event(calendar_id, gev, ev) && ev.id@.len() == 36
    } else {
        step matches SyncStep::Insert(ev) && converted_event(calendar_id, gev, ev) && ev.id@.len() == 36
    }
}

/// The number of steps of the kind `Insert` (`inserts`) or `Update`.
pub open spec fn count_steps(steps: Seq<SyncStep>, inserts: bool) -> nat
    decreases steps.len(),
{
    if steps.len() == 0 {
        0
    } else {
        count_steps(steps.drop_last(), inserts) + if (inserts && steps.last() is Insert) || (!inserts
            && steps.last() is Update) {
            1nat
        } else {
            0nat
        }
    }
}

fn is_cancelled_event(gev: &GoogleEvent) -> (res: bool)
    ensures
        res == is_cancelled(*gev),
{
    match &gev.status {
        Some(s) => str_eq(s.as_str(), "cancelled"),
        None => false,
    }
}

fn contains_id(live: &Vec<String>, id: &str) -> (res: bool)
    ensures
        res == str_views(live@).contains(id@),
{
    let mut i: usize = 0;
    while i < live.len()
        invariant
            i <= live.len(),
            forall|k: int| 0 <= k < i ==> live@[k]@ != id@,
        decreases live.len() - i,
    {
        if str_eq(live[i].as_str(), id) {
            assert(str_views(live@)[i as int] == id@);
            return true;
        }
        i += 1;
    }
    proof {
        if str_views(live@).contains(id@) {
            let k = choose|k: int|
                0 <= k < live@.len() && #[trigger] str_views(live@)[k] == id@;
            assert(live@[k]@ == id@);
        }
    }
    false
}

fn remove_id(live: &mut Vec<String>, id: &str)
    ensures
        str_views(final(live)@).to_set() == str_views(old(live)@).to_set().remove(id@),
{
    broadcast use vstd::seq_lib::lemma_seq_contains_after_push;
    let ghost all = str_views(live@);
    let mut out: Vec<String> = Vec::new();
    let mut i: usize = 0;
    while i < live.len()
        invariant
            i <= live.len(),
            all == str_views(live@),
            forall|x: Seq<char>|
                #[trigger] str_views(out@).contains(x) <==> (x != id@ && all.take(i as int).contains(
                    x,
                )),
        decreases live.len() - i,
    {
        assert(all.take(i as int + 1) =~= all.take(i as int).push(live@[i as int]@));
        if !str_eq(live[i].as_str(), id) {
            let ghost o0 = out@;
            out.push(live[i].clone());
            assert(str_views(out@) =~= str_views(o0).push(live@[i as int]@));
            assert forall|x: Seq<char>|
                #[trigger] str_views(out@).contains(x) <==> (x != id@ && all.take(i as int + 1).contains(
                    x,
                )) by {
                vstd::seq_lib::lemma_seq_contains_after_push(all.take(i as int), live@[i as int]@, x);
                vstd::seq_lib::lemma_seq_contains_after_push(str_views(o0), live@[i as int]@, x);
            }
        } else {
            assert forall|x: Seq<char>|
                #[trigger] str_views(out@).contains(x) <==> (x != id@ && all.take(i as int + 1).contains(
                    x,
                )) by {
                vstd::seq_lib::lemma_seq_contains_after_push(all.take(i as int), live@[i as int]@, x);
            }
        }
        i += 1;
    }
    assert(all.take(live.len() as int) =~= all);
    assert(str_views(out@).to_set() =~= all.to_set().remove(id@));
    *live = out;
}

/// The steps of a sync of `calendar` for the events the API reported, given
/// the Google ids of the calendar's live events before it. Each event is
/// judged against the live ids as the events before it left them.
pub fn plan_calendar_sync(
    calendar: &Calendar,
    events: &Vec<GoogleEvent>,
    live_google_ids: Vec<String>,
    new_sync_token: Option<String>,
) -> (res: SyncPlan)
    ensures
        res.steps@.len() == events@.len(),
        forall|i: int|
            0 <= i < events@.len() ==> step_fits(
                calendar.id@,
                events@[i],
                live_after(str_views(live_google_ids@).to_set(), events@.take(i)),
                #[trigger] res.steps@[i],
            ),
        res.added == count_steps(res.steps@, true),
        res.updated == count_steps(res.steps@, false),
        res.new_sync_token == new_sync_token,
{
    let ghost live0 = str_views(live_google_ids@).to_set();
    let mut live = live_google_ids;
    let mut steps: Vec<SyncStep> = Vec::new();
    let mut added: usize = 0;
    let mut updated: usize = 0;
    let mut i: usize = 0;
    while i < events.len()
        invariant
            i <= events.len(),
            steps@.len() == i,
            str_views(live@).to_set() == live_after(live0, events@.take(i as int)),
            forall|j: int|
                0 <= j < i ==> step_fits(
                    calendar.id@,
                    events@[j],
                    live_after(live0, events@.take(j)),
                    #[trigger] steps@[j],
                ),
            added == count_steps(steps@, true),
            updated == count_steps(steps@, false),
            added <= i,
            updated <= i,
        decreases events.len() - i,
    {
        let gev = &events[i];
        assert(events@.take(i as int + 1).drop_last() =~= events@.take(i as int));
        assert(events@.take(i as int + 1).last() == events@[i as int]);
        let ghost s0 = steps@;
        let step = if is_cancelled_event(gev) {
            match &gev.id {
                Some(g) => {
                    remove_id(&mut live, g.as_str());
                    SyncStep::SoftDelete(g.clone())
                },
                None => SyncStep::Ignore,
            }
        } else {
            match google_event_to_local(calendar.id.as_str(), gev) {
                Ok(event) => {
                    let gid = match &gev.id {
                        Some(g) => g.clone(),
                        None => String::new(),
                    };
                    if contains_id(&live, gid.as_str()) {
                        updated += 1;
                        SyncStep::Update(event)
                    } else {
                        let ghost l0 = live@;
                        live.push(gid);
                        proof {
                            assert(str_views(live@) =~= str_views(l0).push(google_event_id(*gev)));
                            lemma_push_to_set(str_views(l0), google_event_id(*gev));
                        }
                        added += 1;
                        SyncStep::Insert(event)
                    }
                },
                Err(m) => SyncStep::Skip(m),
            }
        };
        steps.push(step);
        assert(steps@.drop_last() =~= s0);
        assert forall|j: int|
            0 <= j < i + 1 implies step_fits(
                calendar.id@,
                events@[j],
                live_after(live0, events@.take(j)),
                #[trigger] steps@[j],
            ) by {
            if j < i {
                assert(steps@[j] == s0[j]);
            }
        }
        i += 1;
    }
    SyncPlan { steps, added, updated, new_sync_token }
}

/// Percent-encodes a calendar id for a URL path (`@` is kept).
pub fn urlenccode(s: &str) -> (res: String)
    ensures
        res@ == percent_encoded(s@, true),
{
    percent_encode(s, true)
}

/// The events endpoint of the Google calendar `google_cal_id`.
pub fn events_url(google_cal_id: &str) -> (res: String)
    ensures
        res@ == "https://www.googleapis.com/calendar/v3/calendars/"@ + percent_encoded(
            google_cal_id@,
            true,
        ) + "/events"@,
{
    let mut url = crate::text::to_owned_string("https://www.googleapis.com/calendar/v3/calendars/");
    let id = urlenccode(google_cal_id);
    url.append(id.as_str());
    url.append("/events");
    url
}

/// Takes one page of the events feed into what has been gathered: its items,
/// its sync token when it has one; gives the next page's token.
pub fn absorb_events_page(
    all_events: &mut Vec<GoogleEvent>,
    sync_token: &mut Option<String>,
    items: Vec<GoogleEvent>,
    next_sync_token: Option<String>,
    next_page_token: Option<String>,
) -> (res: Option<String>)
    ensures
        final(all_events)@ == old(all_events)@ + items@,
        *final(sync_token) == if next_sync_token is Some {
            next_sync_token
        } else {
            *old(sync_token)
        },
        res == next_page_token,
{
    let mut items = items;
    all_events.append(&mut items);
    if next_sync_token.is_some() {
        *sync_token = next_sync_token;
    }
    next_page_token
}

} // verus!
