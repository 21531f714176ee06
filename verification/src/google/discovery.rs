//! The calendars of a Google account, as the calendar-list endpoint reports
//! them.
use vstd::prelude::*;

use crate::text::{dec_seq, push_dec, to_owned_string, trim, trim_seq};

verus! {

/// The colour given to a calendar that reports none.
pub const DEFAULT_CALENDAR_COLOR: &'static str = "#82FB9C";

/// A calendar of the Google account that can be imported.
#[derive(Debug, Clone, PartialEq, Eq)]
pub struct DiscoveredGoogleCalendar {
    pub google_id: String,
    pub name: String,
    pub color: String,
    pub primary: bool,
}

/// The fields of one `items` entry of a calendar-list page that the
/// discovery reads; a field that is absent or of another JSON type is `None`.
#[derive(Debug, Clone)]
pub struct CalendarListItem {
    pub id: Option<String>,
    pub summary: Option<String>,
    pub background_color: Option<String>,
    pub primary: Option<bool>,
    pub deleted: Option<bool>,
}

/// Id, name, colour and primary flag of a discovered calendar.
pub open spec fn discovered_view(d: DiscoveredGoogleCalendar) -> (Seq<char>, Seq<char>, Seq<char>, bool) {
    (d.google_id@, d.name@, d.color@, d.primary)
}

/// The trimmed value when it is present and not blank, else `fallback`.
pub open spec fn trimmed_or(value: Option<String>, fallback: Seq<char>) -> Seq<char> {
    match value {
        Some(v) => if trim_seq(v@).len() > 0 {
            trim_seq(v@)
        } else {
            fallback
        },
        None => fallback,
    }
}

/// What one list entry becomes: nothing when it is deleted or has no usable
/// id; otherwise its trimmed id, its name (the id when blank), its colour (the
/// default when blank) and whether it is the primary calendar.
pub open spec fn parsed_item(item: CalendarListItem) -> Option<(Seq<char>, Seq<char>, Seq<char>, bool)> {
    if item.deleted == Some(true) {
        None
    } else {
        match item.id {
            None => None,
            Some(id) => {
                let g = trim_seq(id@);
                if g.len() == 0 {
                    None
                } else {
                    Some(
                        (
                            g,
                            trimmed_or(item.summary, g),
                            trimmed_or(item.background_color, DEFAULT_CALENDAR_COLOR@),
                            item.primary == Some(true),
                        ),
                    )
                }
            },
        }
    }
}

fn trimmed_or_else(value: &Option<String>, fallback: &String) -> (res: String)
    ensures
        res@ == trimmed_or(*value, fallback@),
{
    match value {
        Some(v) => {
            let t = trim(v.as_str());
            if t.as_str().is_empty() {
                fallback.clone()
            } else {
                t
            }
        },
        None => fallback.clone(),
    }
}

/// Reads one list entry.
pub fn parse_calendar_item(item: &CalendarListItem) -> (res: Option<DiscoveredGoogleCalendar>)
    ensures
        match parsed_item(*item) {
            None => res is None,
            Some(t) => res matches Some(d) && discovered_view(d) == t,
        },
{
    if let Some(true) = item.deleted {
        return None;
    }
    let id = match &item.id {
        Some(id) => id,
        None => return None,
    };
    let google_id = trim(id.as_str());
    if google_id.as_str().is_empty() {
        return None;
    }
    let name = trimmed_or_else(&item.summary, &google_id);
    let default_color = to_owned_string(DEFAULT_CALENDAR_COLOR);
    let color = trimmed_or_else(&item.background_color, &default_color);
    let primary = match item.primary {
        Some(p) => p,
        None => false,
    };
    Some(DiscoveredGoogleCalendar { google_id, name, color, primary })
}

/// The discovered calendars of one page, in the page's order.
pub open spec fn parsed_page(items: Seq<CalendarListItem>) -> Seq<(Seq<char>, Seq<char>, Seq<char>, bool)> {
    items.filter_map(|it: CalendarListItem| parsed_item(it))
}

/// Reads every entry of a page and keeps those that name a calendar.
pub fn parse_calendar_list_page(items: &Vec<CalendarListItem>) -> (res: Vec<DiscoveredGoogleCalendar>)
    ensures
        res@.map_values(|d: DiscoveredGoogleCalendar| discovered_view(d)) == parsed_page(items@),
{
    let mut out: Vec<DiscoveredGoogleCalendar> = Vec::new();
    let mut i: usize = 0;
    while i < items.len()
        invariant
            i <= items.len(),
            out@.map_values(|d: DiscoveredGoogleCalendar| discovered_view(d)) == items@.take(
                i as int,
            ).filter_map(|it: CalendarListItem| parsed_item(it)),
        decreases items.len() - i,
    {
        proof {
            items@.lemma_filter_map_take_succ(|it: CalendarListItem| parsed_item(it), i as int);
        }
        let ghost before = out@;
        match parse_calendar_item(&items[i]) {
            Some(d) => {
                out.push(d);
                assert(out@.map_values(|d: DiscoveredGoogleCalendar| discovered_view(d)) =~= before.map_values(
                    |d: DiscoveredGoogleCalendar| discovered_view(d),
                ) + seq![discovered_view(d)]);
            },
            None => {},
        }
        i += 1;
    }
    assert(items@.take(items.len() as int) =~= items@);
    out
}

/// What `str::to_lowercase` gives for `s`.
pub uninterp spec fn lowercase(s: Seq<char>) -> Seq<char>;

/// Calls `str::to_lowercase`; the result is named by `lowercase`.
#[verifier::external_body]
fn to_lowercase(s: &str) -> (res: String)
    ensures
        res@ == lowercase(s@),
{
    s.to_lowercase()
}

/// `a` comes before `b` in the order of `String`'s `cmp`: character by
/// character by code point, a proper prefix first.
pub open spec fn text_less(a: Seq<char>, b: Seq<char>) -> bool
    decreases a.len(),
{
    if a.len() == 0 {
        b.len() > 0
    } else if b.len() == 0 {
        false
    } else if a[0] != b[0] {
        a[0] < b[0]
    } else {
        text_less(a.drop_first(), b.drop_first())
    }
}

proof fn lemma_text_less_trans(a: Seq<char>, b: Seq<char>, c: Seq<char>)
    requires
        text_less(a, b),
        text_less(b, c),
    ensures
        text_less(a, c),
    decreases a.len(),
{
    if a.len() > 0 && b.len() > 0 && c.len() > 0 && a[0] == b[0] && b[0] == c[0] {
        lemma_text_less_trans(a.drop_first(), b.drop_first(), c.drop_first());
    }
}

proof fn lemma_text_less_asym(a: Seq<char>, b: Seq<char>)
    requires
        text_less(a, b),
    ensures
        !text_less(b, a),
        a != b,
    decreases a.len(),
{
    if a.len() > 0 && b.len() > 0 && a[0] == b[0] {
        lemma_text_less_asym(a.drop_first(), b.drop_first());
        if a == b {
            assert(a.drop_first() == b.drop_first());
        }
    }
}

fn text_lt(a: &str, b: &str) -> (res: bool)
    ensures
        res == text_less(a@, b@),
{
    let n = a.unicode_len();
    let m = b.unicode_len();
    let mut i: usize = 0;
    assert(a@.skip(0) =~= a@);
    assert(b@.skip(0) =~= b@);
    while i < n && i < m
        invariant
            n == a@.len(),
            m == b@.len(),
            i <= n,
            i <= m,
            text_less(a@, b@) == text_less(a@.skip(i as int), b@.skip(i as int)),
        decreases n - i,
    {
        let x = a.get_char(i);
        let y = b.get_char(i);
        assert(a@.skip(i as int)[0] == x);
        assert(b@.skip(i as int)[0] == y);
        if x != y {
            return x < y;
        }
        assert(a@.skip(i as int).drop_first() =~= a@.skip(i as int + 1));
        assert(b@.skip(i as int).drop_first() =~= b@.skip(i as int + 1));
        i += 1;
    }
    i < m
}

/// The order of the calendar list: the primary calendar first, then by
/// lower-cased name, then by id.
pub open spec fn listed_before(a: DiscoveredGoogleCalendar, b: DiscoveredGoogleCalendar) -> bool {
    ||| a.primary && !b.primary
    ||| a.primary == b.primary && text_less(lowercase(a.name@), lowercase(b.name@))
    ||| a.primary == b.primary && lowercase(a.name@) == lowercase(b.name@) && text_less(
        a.google_id@,
        b.google_id@,
    )
}

proof fn lemma_listed_before_trans(a: DiscoveredGoogleCalendar, b: DiscoveredGoogleCalendar, c: DiscoveredGoogleCalendar)
    requires
        listed_before(a, b),
        listed_before(b, c),
    ensures
        listed_before(a, c),
{
    if text_less(lowercase(a.name@), lowercase(b.name@)) && text_less(lowercase(b.name@), lowercase(c.name@)) {
        lemma_text_less_trans(lowercase(a.name@), lowercase(b.name@), lowercase(c.name@));
    }
    if text_less(a.google_id@, b.google_id@) && text_less(b.google_id@, c.google_id@) {
        lemma_text_less_trans(a.google_id@, b.google_id@, c.google_id@);
    }
}

proof fn lemma_listed_before_asym(a: DiscoveredGoogleCalendar, b: DiscoveredGoogleCalendar)
    requires
        listed_before(a, b),
    ensures
        !listed_before(b, a),
{
    if text_less(lowercase(a.name@), lowercase(b.name@)) {
        lemma_text_less_asym(lowercase(a.name@), lowercase(b.name@));
    }
    if text_less(a.google_id@, b.google_id@) {
        lemma_text_less_asym(a.google_id@, b.google_id@);
    }
}

fn is_listed_before(a: &DiscoveredGoogleCalendar, b: &DiscoveredGoogleCalendar) -> (res: bool)
    ensures
        res == listed_before(*a, *b),
{
    if a.primary != b.primary {
        return a.primary;
    }
    let la = to_lowercase(a.name.as_str());
    let lb = to_lowercase(b.name.as_str());
    if text_lt(la.as_str(), lb.as_str()) {
        return true;
    }
    if la != lb {
        return false;
    }
    text_lt(a.google_id.as_str(), b.google_id.as_str())
}

proof fn lemma_text_less_total(a: Seq<char>, b: Seq<char>)
    requires
        a != b,
    ensures
        text_less(a, b) || text_less(b, a),
    decreases a.len(),
{
    if a.len() == 0 && b.len() == 0 {
        assert(a =~= b);
    }
    if a.len() > 0 && b.len() > 0 {
        if a[0] == b[0] {
            if a.drop_first() =~= b.drop_first() {
                assert forall|i: int| 0 <= i < a.len() implies a[i] == b[i] by {
                    if i > 0 {
                        assert(a[i] == a.drop_first()[i - 1]);
                        assert(b[i] == b.drop_first()[i - 1]);
                    }
                }
                assert(a =~= b);
            }
            lemma_text_less_total(a.drop_first(), b.drop_first());
        }
    }
}

/// Neither calendar is listed before the other.
pub open spec fn ties(a: DiscoveredGoogleCalendar, b: DiscoveredGoogleCalendar) -> bool {
    !listed_before(a, b) && !listed_before(b, a)
}

proof fn lemma_tie_before(x: DiscoveredGoogleCalendar, e: DiscoveredGoogleCalendar, y: DiscoveredGoogleCalendar)
    requires
        ties(x, e),
        listed_before(x, y),
    ensures
        listed_before(e, y),
{
    if lowercase(x.name@) != lowercase(e.name@) {
        lemma_text_less_total(lowercase(x.name@), lowercase(e.name@));
    }
    if x.google_id@ != e.google_id@ {
        lemma_text_less_total(x.google_id@, e.google_id@);
    }
}

/// `res` holds the calendars of `input` at the positions `idx` names, each
/// once, with calendars that tie in the order they had in `input`.
pub open spec fn stable_arrangement(
    input: Seq<DiscoveredGoogleCalendar>,
    res: Seq<DiscoveredGoogleCalendar>,
    idx: Seq<int>,
) -> bool {
    &&& res.len() == input.len()
    &&& idx.len() == res.len()
    &&& forall|k: int| 0 <= k < res.len() ==> 0 <= #[trigger] idx[k] < input.len() && res[k] == input[idx[k]]
    &&& forall|a: int, b: int| 0 <= a < b < res.len() ==> #[trigger] idx[a] != #[trigger] idx[b]
    &&& forall|a: int, b: int|
        0 <= a < b < res.len() && ties(#[trigger] res[a], #[trigger] res[b]) ==> idx[a] < idx[b]
}

/// No calendar of `s` is listed before one that precedes it.
pub open spec fn in_list_order(s: Seq<DiscoveredGoogleCalendar>) -> bool {
    forall|i: int, j: int| 0 <= i < j < s.len() ==> !listed_before(#[trigger] s[j], #[trigger] s[i])
}

/// The calendars in list order: primary first, then by lower-cased name, then
/// by id; calendars that tie keep their order.
pub fn sort_discovered_calendars(calendars: Vec<DiscoveredGoogleCalendar>) -> (res: Vec<DiscoveredGoogleCalendar>)
    ensures
        res@.to_multiset() == calendars@.to_multiset(),
        in_list_order(res@),
        exists|idx: Seq<int>| stable_arrangement(calendars@, res@, idx),
{
    broadcast use vstd::seq_lib::group_to_multiset_ensures;
    let mut out: Vec<DiscoveredGoogleCalendar> = Vec::new();
    let mut rest = calendars;
    let ghost all = rest@;
    let n = rest.len();
    let mut i: usize = 0;
    let ghost mut idx: Seq<int> = Seq::empty();
    while i < n
        invariant
            n == all.len(),
            i <= n,
            rest@ == all.skip(i as int),
            out@.to_multiset() == all.take(i as int).to_multiset(),
            in_list_order(out@),
            out@.len() == i,
            idx.len() == i,
            forall|k: int| 0 <= k < i ==> 0 <= #[trigger] idx[k] < i && out@[k] == all[idx[k]],
            forall|a: int, b: int| 0 <= a < b < i ==> #[trigger] idx[a] != #[trigger] idx[b],
            forall|a: int, b: int|
                0 <= a < b < i && ties(#[trigger] out@[a], #[trigger] out@[b]) ==> idx[a] < idx[b],
        decreases n - i,
    {
        let x = rest.remove(0);
        assert(x == all[i as int]);
        assert(rest@ =~= all.skip(i as int + 1));
        assert(all.take(i as int + 1) =~= all.take(i as int).push(x));
        let mut p: usize = 0;
        while p < out.len() && !is_listed_before(&x, &out[p])
            invariant
                p <= out.len(),
                forall|q: int| 0 <= q < p ==> !listed_before(x, #[trigger] out@[q]),
            decreases out.len() - p,
        {
            p += 1;
        }
        let ghost o0 = out@;
        proof {
            assert forall|q: int| p <= q < o0.len() implies !listed_before(#[trigger] o0[q], x) by {
                if listed_before(o0[q], x) {
                    lemma_listed_before_trans(o0[q], x, o0[p as int]);
                    if q == p {
                        lemma_listed_before_asym(o0[q], o0[q]);
                    }
                }
            }
        }
        let ghost idx0 = idx;
        proof {
            assert forall|q: int| p <= q < o0.len() implies !ties(x, #[trigger] o0[q]) by {
                if ties(x, o0[q]) {
                    lemma_tie_before(x, o0[q], o0[p as int]);
                    if q == p {
                        lemma_listed_before_asym(o0[q], o0[q]);
                    }
                }
            }
            idx = idx0.insert(p as int, i as int);
        }
        out.insert(p, x);
        proof {
            assert forall|k: int| 0 <= k < i + 1 implies 0 <= #[trigger] idx[k] < i + 1 && out@[k] == all[idx[k]] by {
                if k < p {
                    assert(idx[k] == idx0[k]);
                } else if k > p {
                    assert(idx[k] == idx0[k - 1]);
                }
            }
            assert forall|a: int, b: int| 0 <= a < b < i + 1 implies #[trigger] idx[a] != #[trigger] idx[b] by {
                if a < p && b < p {
                } else if a < p && b == p {
                    assert(idx[a] == idx0[a]);
                } else if a < p {
                    assert(idx[a] == idx0[a] && idx[b] == idx0[b - 1]);
                } else if a == p {
                    assert(idx[b] == idx0[b - 1]);
                } else {
                    assert(idx[a] == idx0[a - 1] && idx[b] == idx0[b - 1]);
                }
            }
            assert forall|a: int, b: int|
                0 <= a < b < i + 1 && ties(#[trigger] out@[a], #[trigger] out@[b]) implies idx[a] < idx[b] by {
                if a < p && b < p {
                    assert(out@[a] == o0[a] && out@[b] == o0[b]);
                    assert(idx[a] == idx0[a] && idx[b] == idx0[b]);
                } else if a < p && b == p {
                    assert(idx[a] == idx0[a]);
                } else if a < p {
                    assert(out@[a] == o0[a] && out@[b] == o0[b - 1]);
                    assert(idx[a] == idx0[a] && idx[b] == idx0[b - 1]);
                } else if a == p {
                    assert(out@[b] == o0[b - 1]);
                    assert(!ties(x, o0[b - 1]));
                } else {
                    assert(out@[a] == o0[a - 1] && out@[b] == o0[b - 1]);
                    assert(idx[a] == idx0[a - 1] && idx[b] == idx0[b - 1]);
                }
            }
        }
        proof {
            vstd::seq_lib::to_multiset_insert(o0, p as int, x);
            assert(out@ == o0.insert(p as int, x));
            all.take(i as int).to_multiset_ensures();
            assert(all.take(i as int + 1).to_multiset() == all.take(i as int).to_multiset().insert(x));
            assert forall|a: int, b: int| 0 <= a < b < out@.len() implies !listed_before(
                #[trigger] out@[b],
                #[trigger] out@[a],
            ) by {
                if a < p && b < p {
                    assert(out@[a] == o0[a] && out@[b] == o0[b]);
                } else if a < p && b == p {
                    assert(out@[a] == o0[a]);
                } else if a < p {
                    assert(out@[a] == o0[a] && out@[b] == o0[b - 1]);
                } else if a == p {
                    assert(out@[b] == o0[b - 1]);
                } else {
                    assert(out@[a] == o0[a - 1] && out@[b] == o0[b - 1]);
                }
            }
        }
        i += 1;
    }
    assert(all.take(n as int) =~= all);
    assert(stable_arrangement(all, out@, idx));
    out
}

/// One page of the calendar list: its calendars and the token of the next
/// page.
#[derive(Debug)]
pub struct CalendarListPage {
    pub calendars: Vec<DiscoveredGoogleCalendar>,
    pub next_page_token: Option<String>,
}

/// What `http::StatusCode::canonical_reason` gives for the code `code`.
pub uninterp spec fn canonical_reason(code: u16) -> Option<Seq<char>>;

/// Calls `reqwest::StatusCode::from_u16` and `canonical_reason`; the result
/// is named by `canonical_reason`.
#[verifier::external_body]
fn status_reason(code: u16) -> (res: Option<&'static str>)
    requires
        100 <= code <= 999,
    ensures
        match canonical_reason(code) {
            Some(r) => res matches Some(s) && s@ == r,
            None => res is None,
        },
{
    reqwest::StatusCode::from_u16(code).ok().and_then(|s| s.canonical_reason())
}

/// A status as `StatusCode`'s `Display` writes it: the code, then its reason.
pub open spec fn status_text(code: u16) -> Seq<char> {
    dec_seq(code as nat) + " "@ + match canonical_reason(code) {
        Some(r) => r,
        None => "<unknown status code>"@,
    }
}

/// Reads a calendar-list response: the page when the status is a success,
/// else the error naming the status and the body.
pub fn parse_calendar_list_response(
    status: u16,
    body: &str,
    items: &Vec<CalendarListItem>,
    next_page_token: Option<String>,
) -> (res: Result<CalendarListPage, String>)
    requires
        100 <= status <= 999,
    ensures
        !(200 <= status <= 299) ==> (res matches Err(m) && m@
            == "Google Calendar calendar-list request returned "@ + status_text(status) + ": "@
            + body@),
        200 <= status <= 299 ==> (res matches Ok(page) && page.calendars@.map_values(
            |d: DiscoveredGoogleCalendar| discovered_view(d),
        ) == parsed_page(items@) && page.next_page_token == next_page_token),
{
    if !(200 <= status && status <= 299) {
        let mut m = to_owned_string("Google Calendar calendar-list request returned ");
        push_dec(&mut m, status as u64);
        m.append(" ");
        match status_reason(status) {
            Some(r) => m.append(r),
            None => m.append("<unknown status code>"),
        }
        m.append(": ");
        m.append(body);
        return Err(m);
    }
    Ok(CalendarListPage { calendars: parse_calendar_list_page(items), next_page_token })
}

} // verus!
