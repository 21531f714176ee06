//! The project bar under the day view: how many of a project's events show
//! and how many of them are complete, which one comes next, and which events
//! block the selected one.
use vstd::prelude::*;

use crate::app::is_shown;
use crate::dag::{actionable_ids, str_views, EventDag};
use crate::reach::Edge;
use crate::models::{Calendar, Event};
use crate::text::str_eq;
use crate::ui::views::shown_in;

verus! {

/// The event shows (its calendar is visible and it is not deleted) and
/// belongs to the project `pid`.
pub open spec fn in_project(cals: Seq<Calendar>, e: Event, pid: Seq<char>) -> bool {
    &&& is_shown(cals, e)
    &&& match e.project_id {
        Some(p) => p@ == pid,
        None => false,
    }
}

/// The indices, in order, of the first `n` events that show in the project.
pub open spec fn project_prefix(evs: Seq<Event>, cals: Seq<Calendar>, pid: Seq<char>, n: int) -> Seq<usize>
    decreases n,
{
    if n <= 0 {
        Seq::empty()
    } else if in_project(cals, evs[n - 1], pid) {
        project_prefix(evs, cals, pid, n - 1).push((n - 1) as usize)
    } else {
        project_prefix(evs, cals, pid, n - 1)
    }
}

/// The ids of the events at the indices `idx`.
pub open spec fn ids_at(evs: Seq<Event>, idx: Seq<usize>) -> Seq<Seq<char>> {
    idx.map_values(|i: usize| evs[i as int].id@)
}

/// How many distinct entries of `done` occur in `ids`.
pub open spec fn distinct_among(done: Seq<Seq<char>>, ids: Seq<Seq<char>>) -> nat
    decreases done.len(),
{
    if done.len() == 0 {
        0
    } else {
        distinct_among(done.drop_last(), ids) + if ids.contains(done.last()) && !done.drop_last().contains(
            done.last(),
        ) {
            1nat
        } else {
            0nat
        }
    }
}

/// The first entry of `idx`, among its first `n`, whose event has the id `id`.
pub open spec fn first_with_id(evs: Seq<Event>, idx: Seq<usize>, id: Seq<char>, n: int) -> Option<usize>
    decreases n,
{
    if n <= 0 {
        None
    } else {
        match first_with_id(evs, idx, id, n - 1) {
            Some(i) => Some(i),
            None => if evs[idx[n - 1] as int].id@ == id {
                Some(idx[n - 1])
            } else {
                None
            },
        }
    }
}

/// The index of the first event, among the first `n`, with the id `id`.
pub open spec fn first_event_index(evs: Seq<Event>, id: Seq<char>, n: int) -> Option<usize>
    decreases n,
{
    if n <= 0 {
        None
    } else {
        match first_event_index(evs, id, n - 1) {
            Some(i) => Some(i),
            None => if evs[n - 1].id@ == id {
                Some((n - 1) as usize)
            } else {
                None
            },
        }
    }
}

/// The indices, in order, of the events that show in the project `project_id`.
pub fn project_events(events: &[Event], calendars: &[Calendar], project_id: &str) -> (res: Vec<usize>)
    ensures
        res@ == project_prefix(events@, calendars@, project_id@, events@.len() as int),
        forall|k: int| 0 <= k < res@.len() ==> #[trigger] res@[k] < events@.len(),
{
    let mut out: Vec<usize> = Vec::new();
    let mut i: usize = 0;
    while i < events.len()
        invariant
            i <= events.len(),
            out@ == project_prefix(events@, calendars@, project_id@, i as int),
            forall|k: int| 0 <= k < out@.len() ==> #[trigger] out@[k] < i,
        decreases events.len() - i,
    {
        let e = &events[i];
        let belongs = match &e.project_id {
            Some(p) => str_eq(p.as_str(), project_id),
            None => false,
        };
        if belongs && shown_in(calendars, e) {
            out.push(i);
        }
        i += 1;
    }
    out
}

fn id_listed(events: &[Event], idx: &Vec<usize>, id: &str) -> (res: bool)
    requires
        forall|k: int| 0 <= k < idx@.len() ==> #[trigger] idx@[k] < events@.len(),
    ensures
        res == ids_at(events@, idx@).contains(id@),
{
    let mut k: usize = 0;
    while k < idx.len()
        invariant
            k <= idx.len(),
            forall|j: int| 0 <= j < idx@.len() ==> #[trigger] idx@[j] < events@.len(),
            forall|j: int| 0 <= j < k ==> ids_at(events@, idx@)[j] != id@,
        decreases idx.len() - k,
    {
        if str_eq(events[idx[k]].id.as_str(), id) {
            assert(ids_at(events@, idx@)[k as int] == id@);
            return true;
        }
        k += 1;
    }
    false
}

fn listed_before(done: &Vec<String>, k: usize) -> (res: bool)
    requires
        k < done@.len(),
    ensures
        res == str_views(done@).take(k as int).contains(done@[k as int]@),
{
    let ghost d = str_views(done@).take(k as int);
    let mut j: usize = 0;
    while j < k
        invariant
            j <= k,
            k < done@.len(),
            d == str_views(done@).take(k as int),
            forall|m: int| 0 <= m < j ==> d[m] != done@[k as int]@,
        decreases k - j,
    {
        if str_eq(done[j].as_str(), done[k].as_str()) {
            assert(d[j as int] == done@[k as int]@);
            return true;
        }
        j += 1;
    }
    false
}

/// How many distinct ids of `done` are ids of the events at `idx`.
fn count_done(events: &[Event], idx: &Vec<usize>, done: &Vec<String>) -> (res: usize)
    requires
        forall|k: int| 0 <= k < idx@.len() ==> #[trigger] idx@[k] < events@.len(),
    ensures
        res == distinct_among(str_views(done@), ids_at(events@, idx@)),
{
    let ghost d = str_views(done@);
    let ghost ids = ids_at(events@, idx@);
    let mut n: usize = 0;
    let mut k: usize = 0;
    while k < done.len()
        invariant
            k <= done.len(),
            d == str_views(done@),
            ids == ids_at(events@, idx@),
            forall|j: int| 0 <= j < idx@.len() ==> #[trigger] idx@[j] < events@.len(),
            n <= k,
            n == distinct_among(d.take(k as int), ids),
        decreases done.len() - k,
    {
        assert(d.take(k as int + 1).drop_last() =~= d.take(k as int));
        assert(d.take(k as int + 1).last() == done@[k as int]@);
        if id_listed(events, idx, done[k].as_str()) && !listed_before(done, k) {
            n += 1;
        }
        k += 1;
    }
    assert(d.take(done.len() as int) =~= d);
    n
}

/// How many events show in the project `project_id`, and how many distinct
/// ids of `completed_ids` belong to them.
pub fn project_progress(
    events: &[Event],
    calendars: &[Calendar],
    completed_ids: &Vec<String>,
    project_id: &str,
) -> (res: (usize, usize))
    ensures
        ({
            let proj = project_prefix(events@, calendars@, project_id@, events@.len() as int);
            &&& res.0 == proj.len()
            &&& res.1 == distinct_among(str_views(completed_ids@), ids_at(events@, proj))
        }),
{
    let idx = project_events(events, calendars, project_id);
    let done = count_done(events, &idx, completed_ids);
    (idx.len(), done)
}

fn first_listed(events: &[Event], idx: &Vec<usize>, id: &str) -> (res: Option<usize>)
    requires
        forall|k: int| 0 <= k < idx@.len() ==> #[trigger] idx@[k] < events@.len(),
    ensures
        res == first_with_id(events@, idx@, id@, idx@.len() as int),
{
    let mut found: Option<usize> = None;
    let mut k: usize = 0;
    while k < idx.len()
        invariant
            k <= idx.len(),
            forall|j: int| 0 <= j < idx@.len() ==> #[trigger] idx@[j] < events@.len(),
            found == first_with_id(events@, idx@, id@, k as int),
        decreases idx.len() - k,
    {
        if found.is_none() && str_eq(events[idx[k]].id.as_str(), id) {
            found = Some(idx[k]);
        }
        k += 1;
    }
    found
}

fn first_index(events: &[Event], id: &str) -> (res: Option<usize>)
    ensures
        res == first_event_index(events@, id@, events@.len() as int),
        res matches Some(i) ==> i < events@.len() && events@[i as int].id@ == id@,
{
    let mut found: Option<usize> = None;
    let mut i: usize = 0;
    while i < events.len()
        invariant
            i <= events.len(),
            found == first_event_index(events@, id@, i as int),
            found matches Some(j) ==> j < i && events@[j as int].id@ == id@,
        decreases events.len() - i,
    {
        if found.is_none() && str_eq(events[i].id.as_str(), id) {
            found = Some(i);
        }
        i += 1;
    }
    found
}

proof fn lemma_actionable_listed(g: Set<Edge>, ids: Seq<Seq<char>>, done: Set<Seq<char>>, x: Seq<char>)
    requires
        actionable_ids(g, ids, done).contains(x),
    ensures
        ids.contains(x),
    decreases ids.len(),
{
    let rest = actionable_ids(g, ids.drop_last(), done);
    if rest.contains(x) {
        lemma_actionable_listed(g, ids.drop_last(), done, x);
        let w = choose|w: int| 0 <= w < ids.drop_last().len() && ids.drop_last()[w] == x;
        assert(ids[w] == x);
    } else {
        assert(x == ids.last());
        assert(ids[ids.len() - 1] == x);
    }
}

proof fn lemma_first_found(evs: Seq<Event>, idx: Seq<usize>, id: Seq<char>, n: int, j: int)
    requires
        0 <= j < n <= idx.len(),
        evs[idx[j] as int].id@ == id,
    ensures
        first_with_id(evs, idx, id, n) is Some,
    decreases n,
{
    if j < n - 1 {
        lemma_first_found(evs, idx, id, n - 1, j);
    }
}

/// What the project bar shows for the selected event.
pub struct ProjectContext {
    /// How many of the project's events show.
    pub total: usize,
    /// How many distinct completed ids belong to them.
    pub completed: usize,
    /// The event to do next: the first of the project's shown events with the
    /// id of the first of them that is not complete and whose blockers all are.
    pub next: Option<usize>,
    /// For each event that blocks the selected one, the index of the first
    /// event with its id, where some event has it.
    pub blockers: Vec<usize>,
}

/// The first id of `ids` that is actionable in `g` once `done` are complete.
pub open spec fn next_in_project(g: Set<Edge>, ids: Seq<Seq<char>>, done: Set<Seq<char>>) -> Option<Seq<char>> {
    let act = actionable_ids(g, ids, done);
    if act.len() == 0 {
        None
    } else {
        Some(act[0])
    }
}

/// The project bar for the event `event_id` of the project `project_id`: the
/// progress of the project's shown events, the next of them to do, and the
/// events that block `event_id`, each found by its id among all events.
pub fn project_context(
    events: &[Event],
    calendars: &[Calendar],
    dag: &EventDag,
    completed_ids: &Vec<String>,
    event_id: &str,
    project_id: &str,
) -> (res: ProjectContext)
    requires
        dag.well_formed(),
    ensures
        ({
            let proj = project_prefix(events@, calendars@, project_id@, events@.len() as int);
            let done = str_views(completed_ids@);
            &&& res.total == proj.len()
            &&& res.completed == distinct_among(done, ids_at(events@, proj))
            &&& res.next == match next_in_project(dag@, ids_at(events@, proj), done.to_set()) {
                Some(id) => first_with_id(events@, proj, id, proj.len() as int),
                None => None,
            }
            &&& next_in_project(dag@, ids_at(events@, proj), done.to_set()) is Some ==> res.next is Some
        }),
        res.blockers@.no_duplicates(),
        forall|k: int|
            0 <= k < res.blockers@.len() ==> {
                let i = #[trigger] res.blockers@[k];
                &&& i < events@.len()
                &&& dag@.contains((events@[i as int].id@, event_id@))
                &&& first_event_index(events@, events@[i as int].id@, events@.len() as int) == Some(i)
            },
        forall|b: Seq<char>|
            #[trigger] dag@.contains((b, event_id@)) ==> match first_event_index(
                events@,
                b,
                events@.len() as int,
            ) {
                Some(i) => res.blockers@.contains(i),
                None => true,
            },
{
    let idx = project_events(events, calendars, project_id);
    let completed = count_done(events, &idx, completed_ids);
    let ghost ids = ids_at(events@, idx@);
    let mut proj_ids: Vec<&str> = Vec::new();
    let mut k: usize = 0;
    while k < idx.len()
        invariant
            k <= idx.len(),
            forall|j: int| 0 <= j < idx@.len() ==> #[trigger] idx@[j] < events@.len(),
            ids == ids_at(events@, idx@),
            proj_ids@.map_values(|s: &str| s@) == ids.take(k as int),
        decreases idx.len() - k,
    {
        let ghost p0 = proj_ids@;
        proj_ids.push(events[idx[k]].id.as_str());
        assert(proj_ids@.map_values(|s: &str| s@) =~= p0.map_values(|s: &str| s@).push(ids[k as int]));
        assert(ids.take(k as int + 1) =~= ids.take(k as int).push(ids[k as int]));
        k += 1;
    }
    assert(ids.take(idx.len() as int) =~= ids);
    let act = dag.next_actionable(proj_ids.as_slice(), completed_ids);
    let next = if act.len() > 0 {
        proof {
            let done = str_views(completed_ids@).to_set();
            assert(str_views(act@)[0] == act@[0]@);
            lemma_actionable_listed(dag@, ids, done, act@[0]@);
            let j = choose|j: int| 0 <= j < ids.len() && ids[j] == act@[0]@;
            lemma_first_found(events@, idx@, act@[0]@, idx@.len() as int, j);
        }
        first_listed(events, &idx, act[0].as_str())
    } else {
        None
    };
    let bs = dag.direct_blockers(event_id);
    let ghost bv = str_views(bs@);
    let mut blockers: Vec<usize> = Vec::new();
    let mut m: usize = 0;
    while m < bs.len()
        invariant
            m <= bs.len(),
            bv == str_views(bs@),
            bv.no_duplicates(),
            forall|b: Seq<char>| bv.contains(b) <==> dag@.contains((b, event_id@)),
            blockers@.no_duplicates(),
            forall|j: int|
                0 <= j < blockers@.len() ==> {
                    let i = #[trigger] blockers@[j];
                    &&& i < events@.len()
                    &&& bv.take(m as int).contains(events@[i as int].id@)
                    &&& first_event_index(events@, events@[i as int].id@, events@.len() as int) == Some(i)
                },
            forall|q: int|
                0 <= q < m ==> match first_event_index(events@, #[trigger] bv[q], events@.len() as int) {
                    Some(i) => blockers@.contains(i),
                    None => true,
                },
        decreases bs.len() - m,
    {
        assert(bv.take(m as int + 1) =~= bv.take(m as int).push(bv[m as int]));
        match first_index(events, bs[m].as_str()) {
            Some(i) => {
                let ghost b0 = blockers@;
                proof {
                    assert(bv[m as int] == bs@[m as int]@);
                    assert(!bv.take(m as int).contains(bv[m as int])) by {
                        if bv.take(m as int).contains(bv[m as int]) {
                            let w = choose|w: int| 0 <= w < m && bv.take(m as int)[w] == bv[m as int];
                            assert(bv[w] == bv[m as int]);
                        }
                    }
                    assert(!b0.contains(i)) by {
                        if b0.contains(i) {
                            let w = choose|w: int| 0 <= w < b0.len() && b0[w] == i;
                            assert(bv.take(m as int).contains(events@[b0[w] as int].id@));
                        }
                    }
                }
                blockers.push(i);
                proof {
                    assert(blockers@.last() == i);
                    assert forall|j: int| 0 <= j < blockers@.len() implies {
                        let x = #[trigger] blockers@[j];
                        &&& x < events@.len()
                        &&& bv.take(m as int + 1).contains(events@[x as int].id@)
                        &&& first_event_index(events@, events@[x as int].id@, events@.len() as int) == Some(x)
                    } by {
                        if j < b0.len() {
                            assert(blockers@[j] == b0[j]);
                            let x = b0[j];
                            let w = choose|w: int| 0 <= w < m && bv.take(m as int)[w] == events@[x as int].id@;
                            assert(bv.take(m as int + 1)[w] == events@[x as int].id@);
                        } else {
                            assert(bv.take(m as int + 1)[m as int] == bv[m as int]);
                        }
                    }
                    assert forall|q: int| 0 <= q < m + 1 implies match first_event_index(
                        events@,
                        #[trigger] bv[q],
                        events@.len() as int,
                    ) {
                        Some(x) => blockers@.contains(x),
                        None => true,
                    } by {
                        if q < m {
                            if let Some(x) = first_event_index(events@, bv[q], events@.len() as int) {
                                let w = choose|w: int| 0 <= w < b0.len() && b0[w] == x;
                                assert(blockers@[w] == x);
                            }
                        } else {
                            assert(blockers@[b0.len() as int] == i);
                        }
                    }
                }
            },
            None => {
                proof {
                    assert(bv[m as int] == bs@[m as int]@);
                    assert forall|j: int| 0 <= j < blockers@.len() implies bv.take(m as int + 1).contains(
                        events@[#[trigger] blockers@[j] as int].id@,
                    ) by {
                        let x = blockers@[j];
                        let w = choose|w: int| 0 <= w < m && bv.take(m as int)[w] == events@[x as int].id@;
                        assert(bv.take(m as int + 1)[w] == events@[x as int].id@);
                    }
                }
            },
        }
        m += 1;
    }
    proof {
        assert forall|b: Seq<char>| #[trigger] dag@.contains((b, event_id@)) implies match first_event_index(
            events@,
            b,
            events@.len() as int,
        ) {
            Some(i) => blockers@.contains(i),
            None => true,
        } by {
            assert(bv.contains(b));
            let q = choose|q: int| 0 <= q < bv.len() && bv[q] == b;
            assert(first_event_index(events@, bv[q], events@.len() as int) == first_event_index(events@, b, events@.len() as int));
        }
        assert forall|k: int| 0 <= k < blockers@.len() implies dag@.contains((events@[#[trigger] blockers@[k] as int].id@, event_id@)) by {
            let x = blockers@[k];
            assert(bv.take(bs.len() as int) =~= bv);
            assert(bv.contains(events@[x as int].id@));
        }
    }
    ProjectContext { total: idx.len(), completed, next, blockers }
}

} // verus!
