//! Percent-encoding of URL parts and the decoding of query values.
use vstd::prelude::*;

use crate::text::push_char;

verus! {

/// The upper-case hexadecimal digit for `d` (`d < 16`).
pub open spec fn hex_digit_char(d: nat) -> char {
    if d < 10 {
        crate::text::digit_char(d)
    } else if d == 10 {
        'A'
    } else if d == 11 {
        'B'
    } else if d == 12 {
        'C'
    } else if d == 13 {
        'D'
    } else if d == 14 {
        'E'
    } else {
        'F'
    }
}

/// `n` in upper-case hexadecimal, without leading zeros.
pub open spec fn hex_seq(n: nat) -> Seq<char>
    decreases n,
{
    if n < 16 {
        seq![hex_digit_char(n)]
    } else {
        hex_seq(n / 16).push(hex_digit_char(n % 16))
    }
}

/// `n` in upper-case hexadecimal with at least two digits (`{:02X}`).
pub open spec fn hex2_seq(n: nat) -> Seq<char> {
    if n < 16 {
        seq!['0', hex_digit_char(n)]
    } else {
        hex_seq(n)
    }
}

fn hex_digit(d: u32) -> (res: char)
    requires
        d < 16,
    ensures
        res == hex_digit_char(d as nat),
{
    if d < 10 {
        if d == 0 {
            '0'
        } else if d == 1 {
            '1'
        } else if d == 2 {
            '2'
        } else if d == 3 {
            '3'
        } else if d == 4 {
            '4'
        } else if d == 5 {
            '5'
        } else if d == 6 {
            '6'
        } else if d == 7 {
            '7'
        } else if d == 8 {
            '8'
        } else {
            '9'
        }
    } else if d == 10 {
        'A'
    } else if d == 11 {
        'B'
    } else if d == 12 {
        'C'
    } else if d == 13 {
        'D'
    } else if d == 14 {
        'E'
    } else {
        'F'
    }
}

/// Appends `n` in hexadecimal with at least two digits.
fn push_hex2(out: &mut String, n: u32)
    ensures
        final(out)@ == old(out)@ + hex2_seq(n as nat),
{
    if n < 16 {
        push_char(out, '0');
        push_char(out, hex_digit(n));
        assert(out@ =~= old(out)@ + hex2_seq(n as nat));
        return;
    }
    let mut rev: Vec<char> = Vec::new();
    let mut m: u32 = n;
    while m >= 16
        invariant
            hex_seq(n as nat) == hex_seq(m as nat) + rev@.reverse(),
        decreases m,
    {
        let ghost r0 = rev@;
        rev.push(hex_digit(m % 16));
        assert(rev@.reverse() =~= seq![hex_digit_char((m % 16) as nat)] + r0.reverse());
        assert(hex_seq(m as nat) == hex_seq((m / 16) as nat).push(hex_digit_char((m % 16) as nat)));
        assert(hex_seq((m / 16) as nat).push(hex_digit_char((m % 16) as nat)) + r0.reverse() =~= hex_seq(
            (m / 16) as nat,
        ) + (seq![hex_digit_char((m % 16) as nat)] + r0.reverse()));
        m = m / 16;
    }
    let ghost r0 = rev@;
    rev.push(hex_digit(m));
    assert(rev@.reverse() =~= seq![hex_digit_char(m as nat)] + r0.reverse());
    let ghost target = hex_seq(n as nat);
    assert(target =~= rev@.reverse());
    let ghost start = out@;
    let mut i: usize = rev.len();
    while i > 0
        invariant
            i <= rev.len(),
            target == rev@.reverse(),
            out@ == start + target.take((rev.len() - i) as int),
        decreases i,
    {
        let c = rev[i - 1];
        assert(target[(rev.len() - i) as int] == c);
        push_char(out, c);
        assert(target.take((rev.len() - i) as int).push(c) =~= target.take((rev.len() - i + 1) as int));
        i -= 1;
    }
    assert(target.take(rev.len() as int) =~= target);
}

pub open spec fn is_ascii_alphanumeric(c: char) -> bool {
    ('0' <= c <= '9') || ('a' <= c <= 'z') || ('A' <= c <= 'Z')
}

/// Characters left as they are: ASCII letters and digits, `-`, `_`, `.`,
/// `~`, and `@` where `keep_at` is set.
pub open spec fn url_safe(c: char, keep_at: bool) -> bool {
    is_ascii_alphanumeric(c) || c == '-' || c == '_' || c == '.' || c == '~' || (keep_at && c == '@')
}

/// `s` with every other character written as `%` and its code point in
/// hexadecimal.
pub open spec fn percent_encoded(s: Seq<char>, keep_at: bool) -> Seq<char>
    decreases s.len(),
{
    if s.len() == 0 {
        Seq::empty()
    } else {
        percent_encoded(s.drop_last(), keep_at) + if url_safe(s.last(), keep_at) {
            seq![s.last()]
        } else {
            seq!['%'] + hex2_seq(s.last() as u32 as nat)
        }
    }
}

/// Percent-encodes `s`.
pub fn percent_encode(s: &str, keep_at: bool) -> (res: String)
    ensures
        res@ == percent_encoded(s@, keep_at),
{
    let n = s.unicode_len();
    let mut out = String::new();
    let mut i: usize = 0;
    while i < n
        invariant
            n == s@.len(),
            i <= n,
            out@ == percent_encoded(s@.take(i as int), keep_at),
        decreases n - i,
    {
        let c = s.get_char(i);
        assert(s@.take(i as int + 1).drop_last() =~= s@.take(i as int));
        assert(s@.take(i as int + 1).last() == c);
        let safe = ('0' <= c && c <= '9') || ('a' <= c && c <= 'z') || ('A' <= c && c <= 'Z') || c
            == '-' || c == '_' || c == '.' || c == '~' || (keep_at && c == '@');
        let ghost o0 = out@;
        if safe {
            push_char(&mut out, c);
            assert(out@ =~= o0 + seq![c]);
        } else {
            push_char(&mut out, '%');
            push_hex2(&mut out, c as u32);
            assert(out@ =~= o0 + (seq!['%'] + hex2_seq(c as u32 as nat)));
        }
        i += 1;
    }
    assert(s@.take(n as int) =~= s@);
    out
}

/// The value of a hexadecimal digit of either case.
pub open spec fn hex_value(c: char) -> Option<nat> {
    if '0' <= c <= '9' {
        Some((c as u32 - '0' as u32) as nat)
    } else if 'a' <= c <= 'f' {
        Some((c as u32 - 'a' as u32 + 10) as nat)
    } else if 'A' <= c <= 'F' {
        Some((c as u32 - 'A' as u32 + 10) as nat)
    } else {
        None
    }
}

/// What `u8::from_str_radix` gives for the two characters `h1 h2` in base 16:
/// two hex digits, or a `+` sign and one digit; `None` otherwise.
pub open spec fn hex_byte(h1: char, h2: char) -> Option<nat> {
    match (hex_value(h1), hex_value(h2)) {
        (Some(a), Some(b)) => Some(a * 16 + b),
        (None, Some(b)) => if h1 == '+' {
            Some(b)
        } else {
            None
        },
        _ => None,
    }
}

/// The decoded form of a query value: `+` is a space, `%` and the next two
/// characters (`0` for each that is missing) are the byte they spell, read as
/// a Latin-1 character, or nothing when they spell none.
pub open spec fn url_decoded(s: Seq<char>) -> Seq<char>
    decreases s.len(),
{
    if s.len() == 0 {
        Seq::empty()
    } else if s[0] == '%' {
        let h1 = if s.len() > 1 {
            s[1]
        } else {
            '0'
        };
        let h2 = if s.len() > 2 {
            s[2]
        } else {
            '0'
        };
        let rest = if s.len() > 3 {
            s.subrange(3, s.len() as int)
        } else {
            Seq::empty()
        };
        match hex_byte(h1, h2) {
            Some(b) => seq![char_of(b)] + url_decoded(rest),
            None => url_decoded(rest),
        }
    } else if s[0] == '+' {
        seq![' '] + url_decoded(s.drop_first())
    } else {
        seq![s[0]] + url_decoded(s.drop_first())
    }
}

/// The character whose code point is `b` (`b < 256`).
pub open spec fn char_of(b: nat) -> char {
    choose|c: char| #[trigger] code_point(c) == b
}

/// The code point of `c`.
pub open spec fn code_point(c: char) -> nat {
    c as u32 as nat
}

/// The Latin-1 character of a byte: calls `char::from(u8)`, which std
/// documents as the character whose code point is the byte's value.
#[verifier::external_body]
fn latin1_char(b: u8) -> (res: char)
    ensures
        res as u32 == b as u32,
{
    char::from(b)
}

fn hex_value_of(c: char) -> (res: Option<u32>)
    ensures
        match hex_value(c) {
            Some(v) => res == Some(v as u32),
            None => res is None,
        },
{
    if '0' <= c && c <= '9' {
        Some(c as u32 - '0' as u32)
    } else if 'a' <= c && c <= 'f' {
        Some(c as u32 - 'a' as u32 + 10)
    } else if 'A' <= c && c <= 'F' {
        Some(c as u32 - 'A' as u32 + 10)
    } else {
        None
    }
}

/// Decodes a query value.
pub fn urldecode(s: &str) -> (res: String)
    ensures
        res@ == url_decoded(s@),
{
    let n = s.unicode_len();
    let mut out = String::new();
    let mut i: usize = 0;
    assert(s@.subrange(0, n as int) =~= s@);
    while i < n
        invariant
            n == s@.len(),
            i <= n,
            url_decoded(s@) == out@ + url_decoded(s@.subrange(i as int, n as int)),
        decreases n - i,
    {
        let ghost t = s@.subrange(i as int, n as int);
        let ghost o0 = out@;
        let c = s.get_char(i);
        assert(t[0] == c);
        if c == '%' {
            let h1 = if n - i > 1 {
                s.get_char(i + 1)
            } else {
                '0'
            };
            let h2 = if n - i > 2 {
                s.get_char(i + 2)
            } else {
                '0'
            };
            let next: usize = if n - i > 3 {
                i + 3
            } else {
                n
            };
            assert(s@.subrange(next as int, n as int) =~= if t.len() > 3 {
                t.subrange(3, t.len() as int)
            } else {
                Seq::<char>::empty()
            });
            match (hex_value_of(h1), hex_value_of(h2)) {
                (Some(a), Some(b)) => {
                    let byte: u8 = (a * 16 + b) as u8;
                    let ch = latin1_char(byte);
                    assert(code_point(ch) == (a * 16 + b) as nat);
                    assert(ch == char_of((a * 16 + b) as nat));
                    push_char(&mut out, ch);
                    assert(o0 + (seq![ch] + url_decoded(s@.subrange(next as int, n as int))) =~= out@
                        + url_decoded(s@.subrange(next as int, n as int)));
                },
                (None, Some(b)) => {
                    if h1 == '+' {
                        let ch = latin1_char(b as u8);
                        assert(code_point(ch) == b as nat);
                        assert(ch == char_of(b as nat));
                        push_char(&mut out, ch);
                        assert(o0 + (seq![ch] + url_decoded(s@.subrange(next as int, n as int)))
                            =~= out@ + url_decoded(s@.subrange(next as int, n as int)));
                    }
                },
                _ => {},
            }
            i = next;
        } else {
            assert(t.drop_first() =~= s@.subrange(i as int + 1, n as int));
            let d = if c == '+' {
                ' '
            } else {
                c
            };
            push_char(&mut out, d);
            assert(o0 + (seq![d] + url_decoded(s@.subrange(i as int + 1, n as int))) =~= out@
                + url_decoded(s@.subrange(i as int + 1, n as int)));
            i += 1;
        }
    }
    assert(s@.subrange(n as int, n as int) =~= Seq::<char>::empty());
    out
}

/// What percent-encoding writes for one character.
pub open spec fn encoded_char(c: char, keep_at: bool) -> Seq<char> {
    if url_safe(c, keep_at) {
        seq![c]
    } else {
        seq!['%'] + hex2_seq(c as u32 as nat)
    }
}

proof fn lemma_hex_digit_value(d: nat)
    requires
        d < 16,
    ensures
        hex_value(hex_digit_char(d)) == Some(d),
{
    if d < 10 {
        assert(crate::text::digit_char(d) as u32 == '0' as u32 + d) by {
            if d == 0 {} else if d == 1 {} else if d == 2 {} else if d == 3 {} else if d == 4 {}
            else if d == 5 {} else if d == 6 {} else if d == 7 {} else if d == 8 {} else {}
        }
    }
}

proof fn lemma_decode_chunk(c: char, keep_at: bool, rest: Seq<char>)
    requires
        (c as u32) <= 0xFF,
    ensures
        url_decoded(encoded_char(c, keep_at) + rest) == seq![c] + url_decoded(rest),
{
    let s = encoded_char(c, keep_at) + rest;
    if url_safe(c, keep_at) {
        assert(s[0] == c);
        assert(c != '%' && c != '+');
        assert(s.drop_first() =~= rest);
        assert(url_decoded(s) == seq![c] + url_decoded(s.drop_first()));
    } else {
        let n = c as u32 as nat;
        let (h1, h2) = if n < 16 {
            ('0', hex_digit_char(n))
        } else {
            (hex_digit_char(n / 16), hex_digit_char(n % 16))
        };
        if n < 16 {
            assert(hex2_seq(n) =~= seq![h1, h2]);
            lemma_hex_digit_value(0);
            lemma_hex_digit_value(n);
            assert(hex_digit_char(0) == '0');
        } else {
            assert(hex_seq(n / 16) == seq![hex_digit_char(n / 16)]);
            assert(hex2_seq(n) =~= seq![h1, h2]);
            lemma_hex_digit_value(n / 16);
            lemma_hex_digit_value(n % 16);
        }
        assert(hex_byte(h1, h2) == Some(n));
        assert(s =~= seq!['%', h1, h2] + rest);
        assert(s.subrange(3, s.len() as int) =~= rest);
        assert(code_point(c) == n);
        assert(char_of(n) == c);
        assert(s[0] == '%' && s[1] == h1 && s[2] == h2 && s.len() >= 3);
        let tail = if s.len() > 3 {
            s.subrange(3, s.len() as int)
        } else {
            Seq::<char>::empty()
        };
        assert(tail =~= rest);
        assert(url_decoded(s) == seq![char_of(n)] + url_decoded(tail));
    }
}

proof fn lemma_decode_encoded_then(s: Seq<char>, keep_at: bool, rest: Seq<char>)
    requires
        forall|i: int| 0 <= i < s.len() ==> (#[trigger] s[i] as u32) <= 0xFF,
    ensures
        url_decoded(percent_encoded(s, keep_at) + rest) == s + url_decoded(rest),
    decreases s.len(),
{
    if s.len() == 0 {
        assert(percent_encoded(s, keep_at) + rest =~= rest);
        assert(s + url_decoded(rest) =~= url_decoded(rest));
    } else {
        let init = s.drop_last();
        let c = s.last();
        assert(percent_encoded(s, keep_at) == percent_encoded(init, keep_at) + encoded_char(c, keep_at));
        assert(percent_encoded(s, keep_at) + rest =~= percent_encoded(init, keep_at) + (encoded_char(
            c,
            keep_at,
        ) + rest));
        assert(forall|i: int| 0 <= i < init.len() ==> (#[trigger] init[i] as u32) <= 0xFF) by {
            assert forall|i: int| 0 <= i < init.len() implies (#[trigger] init[i] as u32) <= 0xFF by {
                assert(init[i] == s[i]);
            }
        }
        lemma_decode_encoded_then(init, keep_at, encoded_char(c, keep_at) + rest);
        assert(s[s.len() - 1] == c);
        lemma_decode_chunk(c, keep_at, rest);
        assert(init + (seq![c] + url_decoded(rest)) =~= s + url_decoded(rest));
    }
}

/// Decoding what percent-encoding wrote gives back the text, for text whose
/// characters are all Latin-1 (code points up to 0xFF).
pub proof fn law_decode_after_encode(s: Seq<char>, keep_at: bool)
    requires
        forall|i: int| 0 <= i < s.len() ==> (#[trigger] s[i] as u32) <= 0xFF,
    ensures
        url_decoded(percent_encoded(s, keep_at)) == s,
{
    lemma_decode_encoded_then(s, keep_at, Seq::empty());
    assert(percent_encoded(s, keep_at) + Seq::<char>::empty() =~= percent_encoded(s, keep_at));
    assert(url_decoded(Seq::<char>::empty()) == Seq::<char>::empty());
    assert(s + Seq::<char>::empty() =~= s);
}

} // verus!
