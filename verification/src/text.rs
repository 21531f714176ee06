//! Text helpers: Unicode white space, trimming and decimal rendering.
use vstd::prelude::*;

verus! {

/// The Unicode `White_Space` property, as `char::is_whitespace` defines it.
pub open spec fn is_ws(c: char) -> bool {
    let u = c as u32;
    ||| 0x09 <= u <= 0x0d
    ||| u == 0x20
    ||| u == 0x85
    ||| u == 0xa0
    ||| u == 0x1680
    ||| 0x2000 <= u <= 0x200a
    ||| u == 0x2028
    ||| u == 0x2029
    ||| u == 0x202f
    ||| u == 0x205f
    ||| u == 0x3000
}

/// True for Unicode white space (the same set as `char::is_whitespace`).
pub fn is_whitespace(c: char) -> (res: bool)
    ensures
        res == is_ws(c),
{
    let u = c as u32;
    (0x09 <= u && u <= 0x0d) || u == 0x20 || u == 0x85 || u == 0xa0 || u == 0x1680 || (0x2000
        <= u && u <= 0x200a) || u == 0x2028 || u == 0x2029 || u == 0x202f || u == 0x205f || u
        == 0x3000
}

/// `s` without its leading white space.
pub open spec fn trim_start_seq(s: Seq<char>) -> Seq<char>
    decreases s.len(),
{
    if s.len() > 0 && is_ws(s[0]) {
        trim_start_seq(s.drop_first())
    } else {
        s
    }
}

/// `s` without its trailing white space.
pub open spec fn trim_end_seq(s: Seq<char>) -> Seq<char>
    decreases s.len(),
{
    if s.len() > 0 && is_ws(s.last()) {
        trim_end_seq(s.drop_last())
    } else {
        s
    }
}

/// `s` without leading and trailing white space, as `str::trim` gives it.
pub open spec fn trim_seq(s: Seq<char>) -> Seq<char> {
    trim_end_seq(trim_start_seq(s))
}

/// Appends one character: calls `String::push`, which std documents as adding
/// `c` to the end.
#[verifier::external_body]
pub(crate) fn push_char(s: &mut String, c: char)
    ensures
        final(s)@ == old(s)@.push(c),
{
    s.push(c)
}

/// A copy of `s` (`str::to_string`).
pub fn to_owned_string(s: &str) -> (res: String)
    ensures
        res@ == s@,
{
    s.to_owned()
}

/// `s` without leading and trailing white space.
pub fn trim(s: &str) -> (res: String)
    ensures
        res@ == trim_seq(s@),
{
    let n = s.unicode_len();
    let mut a: usize = 0;
    assert(s@.subrange(0, n as int) =~= s@);
    while a < n && is_whitespace(s.get_char(a))
        invariant
            n == s@.len(),
            a <= n,
            trim_start_seq(s@) == trim_start_seq(s@.subrange(a as int, n as int)),
        decreases n - a,
    {
        assert(s@.subrange(a as int, n as int).drop_first() =~= s@.subrange(a as int + 1, n as int));
        a += 1;
    }
    let ghost t = s@.subrange(a as int, n as int);
    assert(trim_start_seq(s@) == t);
    let mut b: usize = n;
    while b > a && is_whitespace(s.get_char(b - 1))
        invariant
            n == s@.len(),
            a <= b <= n,
            t == s@.subrange(a as int, n as int),
            trim_end_seq(t) == trim_end_seq(s@.subrange(a as int, b as int)),
        decreases b - a,
    {
        assert(s@.subrange(a as int, b as int).drop_last() =~= s@.subrange(a as int, b as int - 1));
        b -= 1;
    }
    let piece = s.substring_char(a, b);
    piece.to_owned()
}

/// True when `s` holds only white space.
pub fn is_blank(s: &str) -> (res: bool)
    ensures
        res == (trim_seq(s@).len() == 0),
{
    let t = trim(s);
    t.as_str().is_empty()
}

/// The decimal digit for `d` (`d < 10`).
pub open spec fn digit_char(d: nat) -> char {
    if d == 0 {
        '0'
    } else if d == 1 {
        '1'
    } else if d == 2 {
        '2'
    } else if d == 3 {
        '3'
    } else if d == 4 {
        '4'
    } else if d == 5 {
        '5'
    } else if d == 6 {
        '6'
    } else if d == 7 {
        '7'
    } else if d == 8 {
        '8'
    } else {
        '9'
    }
}

/// The decimal rendering of `n`, without leading zeros.
pub open spec fn dec_seq(n: nat) -> Seq<char>
    decreases n,
{
    if n < 10 {
        seq![digit_char(n)]
    } else {
        dec_seq(n / 10).push(digit_char(n % 10))
    }
}

/// The decimal rendering of `n`, with a leading `-` when negative.
pub open spec fn int_dec_seq(n: int) -> Seq<char> {
    if n < 0 {
        seq!['-'] + dec_seq((-n) as nat)
    } else {
        dec_seq(n as nat)
    }
}

/// The decimal rendering of `n`, zero-padded on the left to at least two digits.
pub open spec fn dec2_seq(n: nat) -> Seq<char> {
    if n < 10 {
        seq!['0', digit_char(n)]
    } else {
        dec_seq(n)
    }
}

fn digit(d: u64) -> (res: char)
    requires
        d < 10,
    ensures
        res == digit_char(d as nat),
{
    if d == 0 {
        '0'
    } else if d == 1 {
        '1'
    } else if d == 2 {
        '2'
    } else if d == 3 {
        '3'
    } else if d == 4 {
        '4'
    } else if d == 5 {
        '5'
    } else if d == 6 {
        '6'
    } else if d == 7 {
        '7'
    } else if d == 8 {
        '8'
    } else {
        '9'
    }
}

/// Appends the decimal rendering of `n` to `out`.
pub fn push_dec(out: &mut String, n: u64)
    ensures
        final(out)@ == old(out)@ + dec_seq(n as nat),
{
    let mut rev: Vec<char> = Vec::new();
    let mut m: u64 = n;
    while m >= 10
        invariant
            dec_seq(n as nat) == dec_seq(m as nat) + rev@.reverse(),
        decreases m,
    {
        let ghost r0 = rev@;
        rev.push(digit(m % 10));
        assert(rev@.reverse() =~= seq![digit_char((m % 10) as nat)] + r0.reverse());
        assert(dec_seq(m as nat) == dec_seq((m / 10) as nat).push(digit_char((m % 10) as nat)));
        assert(dec_seq((m / 10) as nat).push(digit_char((m % 10) as nat)) + r0.reverse() =~= dec_seq(
            (m / 10) as nat,
        ) + (seq![digit_char((m % 10) as nat)] + r0.reverse()));
        m = m / 10;
    }
    let ghost r0 = rev@;
    rev.push(digit(m));
    assert(rev@.reverse() =~= seq![digit_char(m as nat)] + r0.reverse());
    let ghost target = dec_seq(n as nat);
    assert(target =~= rev@.reverse());
    let ghost start = out@;
    let mut i: usize = rev.len();
    while i > 0
        invariant
            i <= rev.len(),
            target == rev@.reverse(),
            out@ == start + target.take((rev.len() - i) as int),
        decreases i,
    {
        let c = rev[i - 1];
        assert(target[(rev.len() - i) as int] == c);
        push_char(out, c);
        assert(target.take((rev.len() - i) as int).push(c) =~= target.take((rev.len() - i + 1) as int));
        i -= 1;
    }
    assert(target.take(rev.len() as int) =~= target);
}

/// Appends the decimal rendering of `n` (with `-` when negative) to `out`.
pub fn push_int_dec(out: &mut String, n: i64)
    ensures
        final(out)@ == old(out)@ + int_dec_seq(n as int),
{
    if n < 0 {
        push_char(out, '-');
        let m: u64 = (0i128 - n as i128) as u64;
        let ghost mid = out@;
        push_dec(out, m);
        assert(out@ =~= old(out)@ + (seq!['-'] + dec_seq(m as nat)));
    } else {
        push_dec(out, n as u64);
    }
}

/// Appends `n` rendered with at least two digits (`{:02}`).
pub fn push_dec2(out: &mut String, n: u64)
    ensures
        final(out)@ == old(out)@ + dec2_seq(n as nat),
{
    if n < 10 {
        push_char(out, '0');
        push_char(out, digit(n));
        assert(out@ =~= old(out)@ + dec2_seq(n as nat));
    } else {
        push_dec(out, n);
    }
}

/// True when `a` and `b` hold the same characters.
pub fn str_eq(a: &str, b: &str) -> (res: bool)
    ensures
        res == (a@ == b@),
{
    let n = a.unicode_len();
    if n != b.unicode_len() {
        return false;
    }
    let mut i: usize = 0;
    while i < n
        invariant
            n == a@.len(),
            n == b@.len(),
            i <= n,
            forall|k: int| 0 <= k < i ==> a@[k] == b@[k],
        decreases n - i,
    {
        if a.get_char(i) != b.get_char(i) {
            return false;
        }
        i += 1;
    }
    assert(a@ =~= b@);
    true
}

/// `needle` occurs in `hay` at position `i`.
pub open spec fn occurs_at(hay: Seq<char>, needle: Seq<char>, i: int) -> bool {
    0 <= i && i + needle.len() <= hay.len() && hay.subrange(i, i + needle.len()) == needle
}

/// `needle` occurs somewhere in `hay` (`str::contains`).
pub open spec fn contains_seq(hay: Seq<char>, needle: Seq<char>) -> bool {
    exists|i: int| #[trigger] occurs_at(hay, needle, i)
}

fn matches_at(hay: &str, needle: &str, i: usize) -> (res: bool)
    requires
        i + needle@.len() <= hay@.len(),
    ensures
        res == occurs_at(hay@, needle@, i as int),
{
    let m = needle.unicode_len();
    let n = hay.unicode_len();
    let mut k: usize = 0;
    while k < m
        invariant
            m == needle@.len(),
            n == hay@.len(),
            i + m <= hay@.len(),
            k <= m,
            forall|j: int| 0 <= j < k ==> hay@[i + j] == needle@[j],
        decreases m - k,
    {
        if hay.get_char(i + k) != needle.get_char(k) {
            assert(hay@.subrange(i as int, i + m)[k as int] != needle@[k as int]);
            return false;
        }
        k += 1;
    }
    assert(hay@.subrange(i as int, i + m) =~= needle@);
    true
}

/// True when `needle` occurs in `hay`.
pub fn str_contains(hay: &str, needle: &str) -> (res: bool)
    ensures
        res == contains_seq(hay@, needle@),
{
    let n = hay.unicode_len();
    let m = needle.unicode_len();
    if m > n {
        return false;
    }
    if m == 0 {
        assert(hay@.subrange(0, 0) =~= needle@);
        assert(occurs_at(hay@, needle@, 0));
        return true;
    }
    let mut i: usize = 0;
    while i <= n - m
        invariant
            n == hay@.len(),
            m == needle@.len(),
            0 < m <= n,
            forall|j: int| 0 <= j < i ==> !occurs_at(hay@, needle@, j),
        decreases n - m + 1 - i,
    {
        if matches_at(hay, needle, i) {
            return true;
        }
        i += 1;
    }
    false
}

/// The number of UTF-8 bytes of `c`.
pub open spec fn utf8_width(c: char) -> nat {
    let u = c as u32;
    if u < 0x80 {
        1
    } else if u < 0x800 {
        2
    } else if u < 0x10000 {
        3
    } else {
        4
    }
}

/// The number of UTF-8 bytes of `s` (`str::len`).
pub open spec fn utf8_len(s: Seq<char>) -> nat
    decreases s.len(),
{
    if s.len() == 0 {
        0
    } else {
        utf8_len(s.drop_last()) + utf8_width(s.last())
    }
}

/// Byte offset `b` of `s` falls between two characters.
pub open spec fn on_char_boundary(s: Seq<char>, b: nat) -> bool {
    exists|k: int| 0 <= k <= s.len() && #[trigger] utf8_len(s.take(k)) == b
}

pub proof fn lemma_utf8_len_mono(s: Seq<char>, i: int, k: int)
    requires
        0 <= i <= k <= s.len(),
    ensures
        utf8_len(s.take(i)) + (k - i) <= utf8_len(s.take(k)),
    decreases k - i,
{
    if i < k {
        lemma_utf8_len_mono(s, i, k - 1);
        assert(s.take(k).drop_last() =~= s.take(k - 1));
    }
}


/// The character index at which byte offset `b` of `s` falls, when it falls
/// between two characters.
pub open spec fn char_index_at(s: Seq<char>, b: nat) -> int {
    choose|k: int| 0 <= k <= s.len() && #[trigger] utf8_len(s.take(k)) == b
}

/// The characters of `s` between byte offsets `a` and `b` (`&s[a..b]`).
pub open spec fn byte_slice(s: Seq<char>, a: nat, b: nat) -> Seq<char> {
    s.subrange(char_index_at(s, a), char_index_at(s, b))
}

proof fn lemma_char_index_unique(s: Seq<char>, b: nat, k: int)
    requires
        0 <= k <= s.len(),
        utf8_len(s.take(k)) == b,
    ensures
        char_index_at(s, b) == k,
{
    let j = char_index_at(s, b);
    if j < k {
        lemma_utf8_len_mono(s, j, k);
    } else if k < j {
        lemma_utf8_len_mono(s, k, j);
    }
}

/// The character index of byte offset `b` of `s`; `None` when `b` falls
/// inside a character or past the end.
pub fn char_index_of_byte(s: &str, b: usize) -> (res: Option<usize>)
    ensures
        match res {
            Some(k) => k <= s@.len() && utf8_len(s@.take(k as int)) == b && char_index_at(s@, b as nat)
                == k,
            None => !on_char_boundary(s@, b as nat),
        },
{
    let n = s.unicode_len();
    let mut i: usize = 0;
    let mut total: usize = 0;
    assert(s@.take(0) =~= Seq::<char>::empty());
    while i < n && total < b
        invariant
            n == s@.len(),
            i <= n,
            total == utf8_len(s@.take(i as int)),
            total <= b,
            forall|k: int| 0 <= k < i ==> #[trigger] utf8_len(s@.take(k)) < b,
        decreases n - i,
    {
        let c = s.get_char(i);
        assert(s@.take(i as int + 1).drop_last() =~= s@.take(i as int));
        let u = c as u32;
        let w: usize = if u < 0x80 {
            1
        } else if u < 0x800 {
            2
        } else if u < 0x10000 {
            3
        } else {
            4
        };
        if w > b - total {
            proof {
                assert forall|k: int| 0 <= k <= n implies #[trigger] utf8_len(s@.take(k)) != b by {
                    if k > i {
                        lemma_utf8_len_mono(s@, i as int + 1, k);
                    }
                }
            }
            return None;
        }
        total = total + w;
        i += 1;
    }
    if total == b {
        proof {
            lemma_char_index_unique(s@, b as nat, i as int);
        }
        Some(i)
    } else {
        proof {
            assert(i == n);
            assert forall|k: int| 0 <= k <= n implies #[trigger] utf8_len(s@.take(k)) != b by {
                if k == n {
                    assert(utf8_len(s@.take(k)) == total);
                }
            }
        }
        None
    }
}

/// `&s[a..b]`, where both offsets fall between characters.
pub fn byte_slice_str(s: &str, a: usize, b: usize) -> (res: String)
    requires
        a <= b,
        on_char_boundary(s@, a as nat),
        on_char_boundary(s@, b as nat),
    ensures
        res@ == byte_slice(s@, a as nat, b as nat),
        utf8_len(res@) == b - a,
{
    let i = match char_index_of_byte(s, a) {
        Some(i) => i,
        None => 0,
    };
    let j = match char_index_of_byte(s, b) {
        Some(j) => j,
        None => 0,
    };
    proof {
        if j < i {
            lemma_utf8_len_mono(s@, j as int, i as int);
        }
        assert(s@.take(j as int) =~= s@.take(i as int) + s@.subrange(i as int, j as int));
        lemma_utf8_len_concat(s@.take(i as int), s@.subrange(i as int, j as int));
    }
    to_owned_string(s.substring_char(i, j))
}

/// Whether `s` has at least `b` UTF-8 bytes.
pub fn utf8_len_at_least(s: &str, b: usize) -> (res: bool)
    ensures
        res == (utf8_len(s@) >= b),
{
    let n = s.unicode_len();
    let mut i: usize = 0;
    let mut total: usize = 0;
    assert(s@.take(0) =~= Seq::<char>::empty());
    while i < n && total < b
        invariant
            n == s@.len(),
            i <= n,
            total == utf8_len(s@.take(i as int)),
            total < b || i > 0 || b == 0,
        decreases n - i,
    {
        let c = s.get_char(i);
        assert(s@.take(i as int + 1).drop_last() =~= s@.take(i as int));
        let u = c as u32;
        let w: usize = if u < 0x80 {
            1
        } else if u < 0x800 {
            2
        } else if u < 0x10000 {
            3
        } else {
            4
        };
        if w >= b - total {
            proof {
                lemma_utf8_len_mono(s@, i as int + 1, n as int);
                assert(s@.take(n as int) =~= s@);
            }
            return true;
        }
        total = total + w;
        i += 1;
    }
    proof {
        lemma_utf8_len_mono(s@, i as int, n as int);
        assert(s@.take(n as int) =~= s@);
    }
    total >= b
}

/// Byte offset 0 falls before the first character.
pub proof fn lemma_boundary_zero(s: Seq<char>)
    ensures
        on_char_boundary(s, 0),
{
    assert(s.take(0) =~= Seq::<char>::empty());
    assert(utf8_len(s.take(0)) == 0);
}

proof fn lemma_utf8_len_concat(x: Seq<char>, y: Seq<char>)
    ensures
        utf8_len(x + y) == utf8_len(x) + utf8_len(y),
    decreases y.len(),
{
    if y.len() > 0 {
        lemma_utf8_len_concat(x, y.drop_last());
        assert((x + y).drop_last() =~= x + y.drop_last());
    } else {
        assert(x + y =~= x);
    }
}

/// A whole string ends on a character boundary.
pub proof fn lemma_boundary_end(s: Seq<char>)
    ensures
        on_char_boundary(s, utf8_len(s)),
{
    assert(s.take(s.len() as int) =~= s);
}

/// The value of a string of decimal digits; `None` when a character is not a
/// digit.
pub open spec fn digits_value(s: Seq<char>) -> Option<int>
    decreases s.len(),
{
    if s.len() == 0 {
        Some(0)
    } else if '0' <= s.last() <= '9' {
        match digits_value(s.drop_last()) {
            Some(v) => Some(v * 10 + (s.last() as u32 - '0' as u32)),
            None => None,
        }
    } else {
        None
    }
}

/// What `str::parse::<i64>` gives: an optional `+` or `-` followed by at
/// least one digit, within the range of `i64`.
pub open spec fn parsed_i64(s: Seq<char>) -> Option<int> {
    let neg = s.len() > 0 && s[0] == '-';
    let body = if s.len() > 0 && (s[0] == '-' || s[0] == '+') {
        s.drop_first()
    } else {
        s
    };
    if body.len() == 0 {
        None
    } else {
        match digits_value(body) {
            Some(v) => {
                let x = if neg {
                    -v
                } else {
                    v
                };
                if i64::MIN <= x <= i64::MAX {
                    Some(x)
                } else {
                    None
                }
            },
            None => None,
        }
    }
}

proof fn lemma_digits_value_nonneg(s: Seq<char>)
    ensures
        digits_value(s) matches Some(v) ==> v >= 0,
    decreases s.len(),
{
    if s.len() > 0 {
        lemma_digits_value_nonneg(s.drop_last());
    }
}

proof fn lemma_digits_prefix_grows(s: Seq<char>, i: int)
    requires
        0 <= i <= s.len(),
        digits_value(s) is Some,
    ensures
        digits_value(s.take(i)) is Some,
        digits_value(s.take(i)).unwrap() <= digits_value(s).unwrap(),
    decreases s.len() - i,
{
    if i < s.len() {
        assert(s.drop_last().take(i) =~= s.take(i)) by {
            assert(i <= s.drop_last().len());
        }
        lemma_digits_value_nonneg(s.drop_last());
        lemma_digits_prefix_grows(s.drop_last(), i);
    } else {
        assert(s.take(i) =~= s);
    }
}

/// Parses a decimal `i64` as `str::parse` does.
pub fn parse_i64(s: &str) -> (res: Option<i64>)
    ensures
        match parsed_i64(s@) {
            Some(v) => res == Some(v as i64),
            None => res is None,
        },
{
    let n = s.unicode_len();
    if n == 0 {
        return None;
    }
    let first = s.get_char(0);
    let neg = first == '-';
    let start: usize = if first == '-' || first == '+' {
        1
    } else {
        0
    };
    if start == n {
        return None;
    }
    let ghost body = s@.subrange(start as int, n as int);
    assert(body =~= (if s@.len() > 0 && (s@[0] == '-' || s@[0] == '+') {
        s@.drop_first()
    } else {
        s@
    }));
    let mut acc: i64 = 0;
    let mut i: usize = start;
    assert(body.take(0) =~= Seq::<char>::empty());
    while i < n
        invariant
            n == s@.len(),
            start <= i <= n,
            body == s@.subrange(start as int, n as int),
            body == (if s@.len() > 0 && (s@[0] == '-' || s@[0] == '+') {
                s@.drop_first()
            } else {
                s@
            }),
            body.len() > 0,
            neg == (s@.len() > 0 && s@[0] == '-'),
            digits_value(body.take(i - start)) == Some(if neg {
                -(acc as int)
            } else {
                acc as int
            }),
            neg ==> acc <= 0,
            !neg ==> acc >= 0,
        decreases n - i,
    {
        let c = s.get_char(i);
        let ghost k = i - start;
        assert(body.take(k + 1).drop_last() =~= body.take(k));
        assert(body.take(k + 1).last() == c);
        if !('0' <= c && c <= '9') {
            proof {
                assert(digits_value(body.take(k + 1)) is None);
                if digits_value(body) is Some {
                    lemma_digits_prefix_grows(body, k + 1);
                }
            }
            return None;
        }
        let d = (c as u32 - '0' as u32) as i128;
        let next: i128 = if neg {
            acc as i128 * 10 - d
        } else {
            acc as i128 * 10 + d
        };
        assert(digits_value(body.take(k + 1)) == Some(if neg {
            -(next as int)
        } else {
            next as int
        }));
        if next < i64::MIN as i128 || next > i64::MAX as i128 {
            proof {
                if digits_value(body) is Some {
                    lemma_digits_prefix_grows(body, k + 1);
                }
            }
            return None;
        }
        acc = next as i64;
        i += 1;
    }
    assert(body.take(n - start) =~= body);
    Some(acc)
}

} // verus!
