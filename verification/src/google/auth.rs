//! Google credentials and the pieces of the OAuth flow that are computed: the
//! authorization URL and the code in the browser's callback request.
use vstd::prelude::*;

use crate::google::percent::{percent_encode, percent_encoded, url_decoded, urldecode};
use crate::text::{is_whitespace, is_ws, str_eq, to_owned_string};

verus! {

/// The credentials needed to call the Google Calendar API.
#[derive(Debug, Clone)]
pub struct GoogleClient {
    pub client_id: String,
    pub client_secret: String,
    pub refresh_token: String,
}

impl GoogleClient {
    /// A client from the three stored credentials; `None` unless all three are
    /// stored.
    pub fn from_parts(
        client_id: Option<String>,
        client_secret: Option<String>,
        refresh_token: Option<String>,
    ) -> (res: Option<GoogleClient>)
        ensures
            match (client_id, client_secret, refresh_token) {
                (Some(a), Some(b), Some(c)) => res matches Some(g) && g.client_id == a
                    && g.client_secret == b && g.refresh_token == c,
                _ => res is None,
            },
    {
        match (client_id, client_secret, refresh_token) {
            (Some(client_id), Some(client_secret), Some(refresh_token)) => Some(
                GoogleClient { client_id, client_secret, refresh_token },
            ),
            _ => None,
        }
    }
}

/// The service name under which the credentials are kept in the keyring.
pub const KEYRING_SERVICE: &'static str = "solverforge-calendar";

pub const KEYRING_CLIENT_ID_KEY: &'static str = "google_client_id";

pub const KEYRING_CLIENT_SECRET_KEY: &'static str = "google_client_secret";

pub const KEYRING_REFRESH_TOKEN_KEY: &'static str = "google_refresh_token";

/// Where the browser is sent back after consent.
pub const REDIRECT_URI: &'static str = "http://127.0.0.1:8989/oauth/callback";

/// The access asked for: the user's calendars.
pub const SCOPE: &'static str = "https://www.googleapis.com/auth/calendar";

/// Percent-encodes a query value (`@` included).
pub fn urlenccode(s: &str) -> (res: String)
    ensures
        res@ == percent_encoded(s@, false),
{
    percent_encode(s, false)
}

/// The consent page's URL for `client_id`, asking for offline access.
pub open spec fn authorization_url_text(client_id: Seq<char>) -> Seq<char> {
    "https://accounts.google.com/o/oauth2/v2/auth?client_id="@ + percent_encoded(client_id, false)
        + "&redirect_uri="@ + percent_encoded(REDIRECT_URI@, false) + "&response_type=code&scope="@
        + percent_encoded(SCOPE@, false) + "&access_type=offline&prompt=consent"@
}

/// The URL of Google's consent page for `client_id`.
pub fn authorization_url(client_id: &str) -> (res: String)
    ensures
        res@ == authorization_url_text(client_id@),
{
    let mut url = to_owned_string("https://accounts.google.com/o/oauth2/v2/auth?client_id=");
    let id = urlenccode(client_id);
    url.append(id.as_str());
    url.append("&redirect_uri=");
    let redirect = urlenccode(REDIRECT_URI);
    url.append(redirect.as_str());
    url.append("&response_type=code&scope=");
    let scope = urlenccode(SCOPE);
    url.append(scope.as_str());
    url.append("&access_type=offline&prompt=consent");
    url
}

/// The length of the run of non-white-space characters at the start of `s`.
pub open spec fn word_len(s: Seq<char>) -> nat
    decreases s.len(),
{
    if s.len() == 0 || is_ws(s[0]) {
        0
    } else {
        1 + word_len(s.drop_first())
    }
}

/// The white-space separated words of `s` (`str::split_whitespace`).
pub open spec fn ws_words(s: Seq<char>) -> Seq<Seq<char>>
    decreases s.len(),
{
    if s.len() == 0 {
        Seq::empty()
    } else if is_ws(s[0]) {
        ws_words(s.drop_first())
    } else {
        let w = word_len(s);
        if 0 < w <= s.len() {
            seq![s.take(w as int)] + ws_words(s.skip(w as int))
        } else {
            Seq::empty()
        }
    }
}

proof fn lemma_word_len(s: Seq<char>, k: int)
    requires
        0 <= k <= s.len(),
        forall|m: int| 0 <= m < k ==> !is_ws(s[m]),
        k == s.len() || is_ws(s[k]),
    ensures
        word_len(s) == k,
    decreases k,
{
    if k > 0 {
        lemma_word_len(s.drop_first(), k - 1);
    }
}

/// The position of the first `c` in `s`, or -1.
pub open spec fn index_of(s: Seq<char>, c: char) -> int
    decreases s.len(),
{
    if s.len() == 0 {
        -1
    } else if s[0] == c {
        0
    } else {
        let r = index_of(s.drop_first(), c);
        if r < 0 {
            -1
        } else {
            r + 1
        }
    }
}

proof fn lemma_index_of(s: Seq<char>, c: char, k: int)
    requires
        0 <= k <= s.len(),
        forall|m: int| 0 <= m < k ==> s[m] != c,
    ensures
        k == s.len() ==> index_of(s, c) == -1,
        k < s.len() && s[k] == c ==> index_of(s, c) == k,
    decreases k,
{
    if k > 0 {
        lemma_index_of(s.drop_first(), c, k - 1);
    }
}

/// The pieces of `s` between the occurrences of `c` (`str::split`).
pub open spec fn split_on(s: Seq<char>, c: char) -> Seq<Seq<char>>
    decreases s.len(),
{
    let i = index_of(s, c);
    if 0 <= i < s.len() {
        seq![s.take(i)] + split_on(s.skip(i + 1), c)
    } else {
        seq![s]
    }
}

/// `p` begins with `code=`.
pub open spec fn is_code_pair(p: Seq<char>) -> bool {
    p.len() >= 5 && p.take(5) == "code="@
}

/// The decoded value of the first `code=` pair.
pub open spec fn first_code(pairs: Seq<Seq<char>>) -> Option<Seq<char>>
    decreases pairs.len(),
{
    if pairs.len() == 0 {
        None
    } else if is_code_pair(pairs[0]) {
        Some(url_decoded(pairs[0].skip(5)))
    } else {
        first_code(pairs.drop_first())
    }
}

/// The authorization code in the request line of the OAuth callback
/// (`GET /oauth/callback?code=...&... HTTP/1.1`): the first `code` value of the
/// query of the second word, decoded.
pub open spec fn oauth_code(line: Seq<char>) -> Option<Seq<char>> {
    let words = ws_words(line);
    if words.len() < 2 {
        None
    } else {
        let parts = split_on(words[1], '?');
        if parts.len() < 2 {
            None
        } else {
            first_code(split_on(parts[1], '&'))
        }
    }
}

proof fn lemma_words_step(t: Seq<char>, w: int)
    requires
        0 < w <= t.len(),
        forall|m: int| 0 <= m < w ==> !is_ws(t[m]),
        w == t.len() || is_ws(t[w]),
    ensures
        ws_words(t) == seq![t.take(w)] + ws_words(t.skip(w)),
{
    lemma_word_len(t, w);
}

proof fn lemma_split_step(t: Seq<char>, c: char, k: int)
    requires
        0 <= k <= t.len(),
        forall|m: int| 0 <= m < k ==> t[m] != c,
        k == t.len() || t[k] == c,
    ensures
        k == t.len() ==> split_on(t, c) == seq![t],
        k < t.len() ==> split_on(t, c) == seq![t.take(k)] + split_on(t.skip(k + 1), c),
{
    lemma_index_of(t, c, k);
}

/// The `n`-th white-space separated word of `s`.
fn nth_word(s: &str, n: usize) -> (res: Option<String>)
    ensures
        n < ws_words(s@).len() ==> (res matches Some(w) && w@ == ws_words(s@)[n as int]),
        n >= ws_words(s@).len() ==> res is None,
{
    let len = s.unicode_len();
    let mut i: usize = 0;
    let mut seen: usize = 0;
    assert(s@.skip(0) =~= s@);
    while i < len
        invariant
            len == s@.len(),
            i <= len,
            seen <= n,
            ws_words(s@).len() == seen + ws_words(s@.skip(i as int)).len(),
            forall|k: int|
                0 <= k < ws_words(s@.skip(i as int)).len() ==> ws_words(s@)[seen + k] == ws_words(
                    s@.skip(i as int),
                )[k],
        decreases len - i,
    {
        let ghost t = s@.skip(i as int);
        let c = s.get_char(i);
        assert(t[0] == c);
        if is_whitespace(c) {
            assert(t.drop_first() =~= s@.skip(i as int + 1));
            assert(ws_words(t) == ws_words(t.drop_first()));
            i += 1;
        } else {
            let mut j: usize = i + 1;
            while j < len && !is_whitespace(s.get_char(j))
                invariant
                    len == s@.len(),
                    i < j <= len,
                    forall|m: int| i <= m < j ==> !is_ws(s@[m]),
                decreases len - j,
            {
                j += 1;
            }
            let ghost w = j - i;
            proof {
                lemma_words_step(t, w);
                assert(t.skip(w) =~= s@.skip(j as int));
                assert(t.take(w) =~= s@.subrange(i as int, j as int));
                assert(ws_words(t)[0] == t.take(w));
            }
            if seen == n {
                assert(ws_words(s@)[seen as int] == ws_words(t)[0]);
                return Some(to_owned_string(s.substring_char(i, j)));
            }
            assert forall|k: int| 0 <= k < ws_words(s@.skip(j as int)).len() implies ws_words(s@)[seen
                + 1 + k] == ws_words(s@.skip(j as int))[k] by {
                assert(ws_words(s@)[seen + (k + 1)] == ws_words(t)[k + 1]);
            }
            seen += 1;
            i = j;
        }
    }
    None
}

/// The `n`-th piece of `s` split on `c`.
fn nth_piece(s: &str, c: char, n: usize) -> (res: Option<String>)
    ensures
        n < split_on(s@, c).len() ==> (res matches Some(w) && w@ == split_on(s@, c)[n as int]),
        n >= split_on(s@, c).len() ==> res is None,
{
    let len = s.unicode_len();
    let mut i: usize = 0;
    let mut seen: usize = 0;
    assert(s@.skip(0) =~= s@);
    loop
        invariant
            len == s@.len(),
            i <= len,
            seen <= n,
            split_on(s@, c).len() == seen + split_on(s@.skip(i as int), c).len(),
            forall|k: int|
                0 <= k < split_on(s@.skip(i as int), c).len() ==> split_on(s@, c)[seen + k]
                    == split_on(s@.skip(i as int), c)[k],
        decreases len - i,
    {
        let ghost t = s@.skip(i as int);
        let mut j: usize = i;
        while j < len && s.get_char(j) != c
            invariant
                len == s@.len(),
                i <= j <= len,
                forall|m: int| i <= m < j ==> s@[m] != c,
            decreases len - j,
        {
            j += 1;
        }
        let ghost k0 = j - i;
        proof {
            lemma_split_step(t, c, k0);
            assert(t.take(k0) =~= s@.subrange(i as int, j as int));
        }
        if j == len {
            assert(t =~= s@.subrange(i as int, j as int));
            if seen == n {
                assert(split_on(s@, c)[seen as int] == split_on(t, c)[0]);
                return Some(to_owned_string(s.substring_char(i, j)));
            }
            return None;
        }
        assert(t.skip(k0 + 1) =~= s@.skip(j as int + 1));
        if seen == n {
            assert(split_on(s@, c)[seen as int] == split_on(t, c)[0]);
            return Some(to_owned_string(s.substring_char(i, j)));
        }
        assert forall|k: int| 0 <= k < split_on(s@.skip(j as int + 1), c).len() implies split_on(
            s@,
            c,
        )[seen + 1 + k] == #[trigger] split_on(s@.skip(j as int + 1), c)[k] by {
            assert(split_on(s@, c)[seen + (k + 1)] == split_on(t, c)[k + 1]);
        }
        seen += 1;
        i = j + 1;
    }
}

/// The decoded value of the first `code=` piece of `query` split on `&`.
fn first_code_in(query: &str) -> (res: Option<String>)
    ensures
        match first_code(split_on(query@, '&')) {
            Some(code) => res matches Some(r) && r@ == code,
            None => res is None,
        },
{
    let len = query.unicode_len();
    let mut i: usize = 0;
    assert(query@.skip(0) =~= query@);
    loop
        invariant
            len == query@.len(),
            i <= len,
            first_code(split_on(query@, '&')) == first_code(split_on(query@.skip(i as int), '&')),
        decreases len - i,
    {
        let ghost t = query@.skip(i as int);
        let mut j: usize = i;
        while j < len && query.get_char(j) != '&'
            invariant
                len == query@.len(),
                i <= j <= len,
                forall|m: int| i <= m < j ==> query@[m] != '&',
            decreases len - j,
        {
            j += 1;
        }
        let ghost k0 = j - i;
        proof {
            lemma_split_step(t, '&', k0);
            assert(t.take(k0) =~= query@.subrange(i as int, j as int));
        }
        let pair = query.substring_char(i, j);
        let n = pair.unicode_len();
        let is_code = if n >= 5 {
            let head = pair.substring_char(0, 5);
            assert(head@ =~= pair@.take(5));
            str_eq(head, "code=")
        } else {
            false
        };
        assert(is_code == is_code_pair(pair@));
        assert(split_on(t, '&')[0] == pair@);
        if is_code {
            let value = pair.substring_char(5, n);
            assert(value@ =~= pair@.skip(5));
            assert(split_on(t, '&')[0] == pair@);
            return Some(urldecode(value));
        }
        if j == len {
            assert(t =~= query@.subrange(i as int, j as int));
            assert(split_on(t, '&').drop_first().len() == 0);
            assert(first_code(split_on(t, '&').drop_first()) is None);
            assert(first_code(split_on(t, '&')) == first_code(split_on(t, '&').drop_first()));
            return None;
        }
        assert(t.skip(k0 + 1) =~= query@.skip(j as int + 1));
        assert(split_on(t, '&').drop_first() =~= split_on(query@.skip(j as int + 1), '&'));
        i = j + 1;
    }
}

/// The authorization code in the callback's request line, decoded.
pub fn extract_oauth_code(request_line: &str) -> (res: Option<String>)
    ensures
        match oauth_code(request_line@) {
            Some(code) => res matches Some(r) && r@ == code,
            None => res is None,
        },
{
    let path = match nth_word(request_line, 1) {
        Some(p) => p,
        None => return None,
    };
    let query = match nth_piece(path.as_str(), '?', 1) {
        Some(q) => q,
        None => return None,
    };
    first_code_in(query.as_str())
}

} // verus!
