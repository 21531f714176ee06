//! The colour palette: read from a `colors.toml` of hex strings, with a
//! built-in palette when there is none.
use std::collections::HashMap;

use vstd::prelude::*;

use crate::google::percent::hex_byte;
use crate::text::{lemma_utf8_len_mono, on_char_boundary, to_owned_string, trim, trim_seq, utf8_len};

verus! {

/// A 24-bit colour.
#[derive(Debug, Clone, Copy, PartialEq, Eq, Structural)]
pub struct Rgb {
    pub r: u8,
    pub g: u8,
    pub b: u8,
}

/// The resolved colour palette used across the views.
#[derive(Debug, Clone, Copy, PartialEq, Eq, Structural)]
pub struct Theme {
    pub accent: Rgb,
    pub background: Rgb,
    pub foreground: Rgb,
    pub cursor: Rgb,
    pub selection_fg: Rgb,
    pub selection_bg: Rgb,
    pub color0: Rgb,
    pub color1: Rgb,
    pub color2: Rgb,
    pub color3: Rgb,
    pub color4: Rgb,
    pub color5: Rgb,
    pub color6: Rgb,
    pub color7: Rgb,
    pub color8: Rgb,
    pub color9: Rgb,
    pub color10: Rgb,
    pub color11: Rgb,
    pub color12: Rgb,
    pub color13: Rgb,
    pub color14: Rgb,
    pub color15: Rgb,
}

/// The number of distinct calendar colours; calendar `i` gets colour
/// `i % CALENDAR_COLORS`.
pub const CALENDAR_COLORS: usize = 8;

/// The palette colour of calendar number `index`.
pub open spec fn calendar_color_spec(t: Theme, index: usize) -> Rgb {
    let k = index % 8;
    if k == 0 {
        t.color1
    } else if k == 1 {
        t.color3
    } else if k == 2 {
        t.color6
    } else if k == 3 {
        t.color7
    } else if k == 4 {
        t.color4
    } else if k == 5 {
        t.color5
    } else if k == 6 {
        t.color9
    } else {
        t.accent
    }
}

impl Theme {
    /// The colour of calendar number `index`, cycling through eight palette
    /// colours.
    pub fn calendar_color(&self, index: usize) -> (res: Rgb)
        ensures
            res == calendar_color_spec(*self, index),
    {
        let k = index % CALENDAR_COLORS;
        if k == 0 {
            self.color1
        } else if k == 1 {
            self.color3
        } else if k == 2 {
            self.color6
        } else if k == 3 {
            self.color7
        } else if k == 4 {
            self.color4
        } else if k == 5 {
            self.color5
        } else if k == 6 {
            self.color9
        } else {
            self.accent
        }
    }
}

pub open spec fn rgb(r: u8, g: u8, b: u8) -> Rgb {
    Rgb { r, g, b }
}

/// The built-in palette.
pub fn fallback_theme() -> (res: Theme)
    ensures
        res.accent == rgb(130, 251, 156),
        res.background == rgb(11, 12, 22),
        res.foreground == rgb(221, 247, 255),
        res.cursor == rgb(221, 247, 255),
        res.selection_fg == rgb(11, 12, 22),
        res.selection_bg == rgb(221, 247, 255),
        res.color0 == rgb(11, 12, 22),
        res.color1 == rgb(80, 248, 114),
        res.color2 == rgb(79, 232, 143),
        res.color3 == rgb(80, 247, 212),
        res.color4 == rgb(130, 157, 212),
        res.color5 == rgb(134, 167, 223),
        res.color6 == rgb(124, 248, 247),
        res.color7 == rgb(133, 225, 251),
        res.color8 == rgb(106, 110, 149),
        res.color9 == rgb(133, 255, 157),
        res.color10 == rgb(156, 247, 194),
        res.color11 == rgb(164, 255, 236),
        res.color12 == rgb(196, 210, 237),
        res.color13 == rgb(205, 219, 244),
        res.color14 == rgb(209, 255, 254),
        res.color15 == rgb(221, 247, 255),
{
    Theme {
        accent: Rgb { r: 130, g: 251, b: 156 },
        background: Rgb { r: 11, g: 12, b: 22 },
        foreground: Rgb { r: 221, g: 247, b: 255 },
        cursor: Rgb { r: 221, g: 247, b: 255 },
        selection_fg: Rgb { r: 11, g: 12, b: 22 },
        selection_bg: Rgb { r: 221, g: 247, b: 255 },
        color0: Rgb { r: 11, g: 12, b: 22 },
        color1: Rgb { r: 80, g: 248, b: 114 },
        color2: Rgb { r: 79, g: 232, b: 143 },
        color3: Rgb { r: 80, g: 247, b: 212 },
        color4: Rgb { r: 130, g: 157, b: 212 },
        color5: Rgb { r: 134, g: 167, b: 223 },
        color6: Rgb { r: 124, g: 248, b: 247 },
        color7: Rgb { r: 133, g: 225, b: 251 },
        color8: Rgb { r: 106, g: 110, b: 149 },
        color9: Rgb { r: 133, g: 255, b: 157 },
        color10: Rgb { r: 156, g: 247, b: 194 },
        color11: Rgb { r: 164, g: 255, b: 236 },
        color12: Rgb { r: 196, g: 210, b: 237 },
        color13: Rgb { r: 205, g: 219, b: 244 },
        color14: Rgb { r: 209, g: 255, b: 254 },
        color15: Rgb { r: 221, g: 247, b: 255 },
    }
}

/// `s` without any leading `#`.
pub open spec fn strip_hashes(s: Seq<char>) -> Seq<char>
    decreases s.len(),
{
    if s.len() > 0 && s[0] == '#' {
        strip_hashes(s.drop_first())
    } else {
        s
    }
}

/// The text that is read as six hex digits.
pub open spec fn hex_body(hex: Seq<char>) -> Seq<char> {
    strip_hashes(trim_seq(hex))
}

/// The text `std` shows for a failed integer parse on a bad digit.
pub open spec fn invalid_digit_text() -> Seq<char> {
    "invalid digit found in string"@
}

/// What a hex colour reads as: `#RRGGBB` with any number of leading `#` and
/// surrounding white space; each pair of digits is read as `u8::from_str_radix`
/// reads it in base 16. Fails when the text is not six bytes long, or when a
/// pair is not a number.
pub open spec fn hex_color(hex: Seq<char>) -> Result<Rgb, Seq<char>> {
    let h = hex_body(hex);
    if utf8_len(h) != 6 {
        Err("invalid hex color length: "@ + h)
    } else if h.len() != 6 {
        Err(invalid_digit_text())
    } else {
        match (hex_byte(h[0], h[1]), hex_byte(h[2], h[3]), hex_byte(h[4], h[5])) {
            (Some(r), Some(g), Some(b)) => Ok(Rgb { r: r as u8, g: g as u8, b: b as u8 }),
            _ => Err(invalid_digit_text()),
        }
    }
}

fn hex_pair(a: char, b: char) -> (res: Option<u8>)
    ensures
        match hex_byte(a, b) {
            Some(v) => res == Some(v as u8) && v < 256,
            None => res is None,
        },
{
    let va = hex_digit_value(a);
    let vb = hex_digit_value(b);
    match (va, vb) {
        (Some(x), Some(y)) => Some((x * 16 + y) as u8),
        (None, Some(y)) => if a == '+' {
            Some(y as u8)
        } else {
            None
        },
        _ => None,
    }
}

fn hex_digit_value(c: char) -> (res: Option<u32>)
    ensures
        match crate::google::percent::hex_value(c) {
            Some(v) => res == Some(v as u32) && v < 16,
            None => res is None,
        },
{
    if '0' <= c && c <= '9' {
        Some(c as u32 - '0' as u32)
    } else if 'a' <= c && c <= 'f' {
        Some(c as u32 - 'a' as u32 + 10)
    } else if 'A' <= c && c <= 'F' {
        Some(c as u32 - 'A' as u32 + 10)
    } else {
        None
    }
}

/// Whether `s` is six UTF-8 bytes long, and whether byte offsets 2 and 4
/// fall between its characters.
fn byte_layout(s: &str) -> (res: (bool, bool, bool))
    ensures
        res.0 == (utf8_len(s@) == 6),
        res.1 == on_char_boundary(s@, 2),
        res.2 == on_char_boundary(s@, 4),
{
    let n = s.unicode_len();
    let mut i: usize = 0;
    let mut total: usize = 0;
    let mut at2 = false;
    let mut at4 = false;
    assert(s@.take(0) =~= Seq::<char>::empty());
    while i < n && total <= 6
        invariant
            n == s@.len(),
            i <= n,
            total == utf8_len(s@.take(i as int)),
            total <= 10,
            at2 == exists|k: int| 0 <= k <= i && #[trigger] utf8_len(s@.take(k)) == 2,
            at4 == exists|k: int| 0 <= k <= i && #[trigger] utf8_len(s@.take(k)) == 4,
        decreases n - i,
    {
        let c = s.get_char(i);
        assert(s@.take(i as int + 1).drop_last() =~= s@.take(i as int));
        let u = c as u32;
        let w: usize = if u < 0x80 {
            1
        } else if u < 0x800 {
            2
        } else if u < 0x10000 {
            3
        } else {
            4
        };
        total = total + w;
        i += 1;
        assert(utf8_len(s@.take(i as int)) == total);
        at2 = at2 || total == 2;
        at4 = at4 || total == 4;
    }
    proof {
        if total > 6 {
            assert forall|k: int| i <= k <= n implies #[trigger] utf8_len(s@.take(k)) > 6 by {
                lemma_utf8_len_mono(s@, i as int, k);
            }
            assert(s@.take(n as int) =~= s@);
        } else {
            assert(i == n);
            assert(s@.take(n as int) =~= s@);
        }
    }
    (total == 6 && i == n, at2, at4)
}

/// The hex text can be read without slicing inside a character: when it is
/// six bytes long, bytes 2 and 4 start characters.
pub open spec fn hex_sliceable(hex: Seq<char>) -> bool {
    utf8_len(hex_body(hex)) == 6 ==> on_char_boundary(hex_body(hex), 2) && on_char_boundary(
        hex_body(hex),
        4,
    )
}

fn strip_leading_hashes(s: &str) -> (res: String)
    ensures
        res@ == strip_hashes(s@),
{
    let n = s.unicode_len();
    let mut i: usize = 0;
    assert(s@.subrange(0, n as int) =~= s@);
    while i < n && s.get_char(i) == '#'
        invariant
            n == s@.len(),
            i <= n,
            strip_hashes(s@) == strip_hashes(s@.subrange(i as int, n as int)),
        decreases n - i,
    {
        assert(s@.subrange(i as int, n as int).drop_first() =~= s@.subrange(i as int + 1, n as int));
        i += 1;
    }
    to_owned_string(s.substring_char(i, n))
}

/// Whether the text can be read without slicing inside a character.
pub fn is_hex_sliceable(hex: &str) -> (res: bool)
    ensures
        res == hex_sliceable(hex@),
{
    let t = trim(hex);
    let h = strip_leading_hashes(t.as_str());
    let (six, at2, at4) = byte_layout(h.as_str());
    !six || (at2 && at4)
}

/// Reads a hex colour such as `#50f872`.
pub fn parse_hex_color(hex: &str) -> (res: Result<Rgb, String>)
    requires
        hex_sliceable(hex@),
    ensures
        match hex_color(hex@) {
            Ok(c) => res == Ok::<Rgb, String>(c),
            Err(m) => res matches Err(e) && e@ == m,
        },
{
    let t = trim(hex);
    let h = strip_leading_hashes(t.as_str());
    let (six, _at2, _at4) = byte_layout(h.as_str());
    if !six {
        let mut m = to_owned_string("invalid hex color length: ");
        m.append(h.as_str());
        return Err(m);
    }
    let n = h.as_str().unicode_len();
    if n != 6 {
        return Err(to_owned_string("invalid digit found in string"));
    }
    let hs = h.as_str();
    let r = hex_pair(hs.get_char(0), hs.get_char(1));
    let g = hex_pair(hs.get_char(2), hs.get_char(3));
    let b = hex_pair(hs.get_char(4), hs.get_char(5));
    match (r, g, b) {
        (Some(r), Some(g), Some(b)) => Ok(Rgb { r, g, b }),
        _ => Err(to_owned_string("invalid digit found in string")),
    }
}

/// What `toml::from_str::<HashMap<String, String>>` gives for `content`: its
/// table of string values, or the text of the error it reports.
pub uninterp spec fn toml_string_table(content: Seq<char>) -> Result<Map<Seq<char>, Seq<char>>, Seq<char>>;

/// Parses `content` with `toml::from_str` into a `HashMap<String, String>` and
/// looks `key` up in it; a failed parse gives the error's text. The table is
/// named by `toml_string_table`.
#[verifier::external_body]
fn toml_lookup(content: &str, key: &str) -> (res: Result<Option<String>, String>)
    ensures
        match toml_string_table(content@) {
            Ok(m) => res matches Ok(v) && match v {
                Some(x) => m.contains_key(key@) && x@ == m[key@],
                None => !m.contains_key(key@),
            },
            Err(e) => res matches Err(x) && x@ == e,
        },
{
    match toml::from_str::<HashMap<String, String>>(content) {
        Ok(table) => Ok(table.get(key).cloned()),
        Err(e) => Err(e.to_string()),
    }
}

/// The keys of `colors.toml`, in the order the palette is read.
pub open spec fn color_keys() -> Seq<Seq<char>> {
    seq![
        "accent"@, "background"@, "foreground"@, "cursor"@, "selection_foreground"@,
        "selection_background"@, "color0"@, "color1"@, "color2"@, "color3"@, "color4"@,
        "color5"@, "color6"@, "color7"@, "color8"@, "color9"@, "color10"@, "color11"@,
        "color12"@, "color13"@, "color14"@, "color15"@,
    ]
}

/// The colours of `keys` in the table `m`, read in order; the first key that
/// is missing or whose value is not a colour gives the error.
pub open spec fn read_colors(m: Map<Seq<char>, Seq<char>>, keys: Seq<Seq<char>>) -> Result<Seq<Rgb>, Seq<char>>
    decreases keys.len(),
{
    if keys.len() == 0 {
        Ok(Seq::empty())
    } else if !m.contains_key(keys[0]) {
        Err("missing color: "@ + keys[0])
    } else {
        match hex_color(m[keys[0]]) {
            Err(e) => Err(e),
            Ok(c) => match read_colors(m, keys.drop_first()) {
                Ok(rest) => Ok(seq![c] + rest),
                Err(e) => Err(e),
            },
        }
    }
}

/// Reading `keys` in order never slices a value inside a character.
pub open spec fn colors_sliceable(m: Map<Seq<char>, Seq<char>>, keys: Seq<Seq<char>>) -> bool
    decreases keys.len(),
{
    if keys.len() == 0 || !m.contains_key(keys[0]) {
        true
    } else {
        hex_sliceable(m[keys[0]]) && (hex_color(m[keys[0]]) is Err || colors_sliceable(
            m,
            keys.drop_first(),
        ))
    }
}

/// The palette whose colours, in the order of `color_keys`, are `c`.
pub open spec fn theme_of(c: Seq<Rgb>) -> Theme {
    Theme {
        accent: c[0],
        background: c[1],
        foreground: c[2],
        cursor: c[3],
        selection_fg: c[4],
        selection_bg: c[5],
        color0: c[6],
        color1: c[7],
        color2: c[8],
        color3: c[9],
        color4: c[10],
        color5: c[11],
        color6: c[12],
        color7: c[13],
        color8: c[14],
        color9: c[15],
        color10: c[16],
        color11: c[17],
        color12: c[18],
        color13: c[19],
        color14: c[20],
        color15: c[21],
    }
}

/// The palette `content` describes, or the error that reading it gives.
pub open spec fn palette_of(content: Seq<char>) -> Result<Theme, Seq<char>> {
    match toml_string_table(content) {
        Err(e) => Err(e),
        Ok(m) => match read_colors(m, color_keys()) {
            Ok(c) => Ok(theme_of(c)),
            Err(e) => Err(e),
        },
    }
}

/// Reading the palette of `content` never slices a value inside a character.
pub open spec fn palette_sliceable(content: Seq<char>) -> bool {
    toml_string_table(content) matches Ok(m) ==> colors_sliceable(m, color_keys())
}

/// Reads the palette of a `colors.toml`; `None` when a value of six bytes
/// would have to be cut inside a character.
fn read_palette(content: &str) -> (res: Option<Result<Theme, String>>)
    ensures
        !palette_sliceable(content@) <==> res is None,
        palette_sliceable(content@) ==> match palette_of(content@) {
            Ok(t) => res == Some(Ok::<Theme, String>(t)),
            Err(e) => res matches Some(Err(x)) && x@ == e,
        },
{
    let keys: Vec<&str> = vec![
        "accent", "background", "foreground", "cursor", "selection_foreground",
        "selection_background", "color0", "color1", "color2", "color3", "color4", "color5",
        "color6", "color7", "color8", "color9", "color10", "color11", "color12", "color13",
        "color14", "color15",
    ];
    proof {
        reveal_strlit("accent");
        reveal_strlit("background");
        reveal_strlit("foreground");
        reveal_strlit("cursor");
        reveal_strlit("selection_foreground");
        reveal_strlit("selection_background");
        reveal_strlit("color0");
        reveal_strlit("color1");
        reveal_strlit("color2");
        reveal_strlit("color3");
        reveal_strlit("color4");
        reveal_strlit("color5");
        reveal_strlit("color6");
        reveal_strlit("color7");
        reveal_strlit("color8");
        reveal_strlit("color9");
        reveal_strlit("color10");
        reveal_strlit("color11");
        reveal_strlit("color12");
        reveal_strlit("color13");
        reveal_strlit("color14");
        reveal_strlit("color15");
    }
    let ghost kv = keys@.map_values(|k: &str| k@);
    assert(kv =~= color_keys());
    let mut colors: Vec<Rgb> = Vec::new();
    let mut i: usize = 0;
    proof {
        assert(kv.skip(0) =~= kv);
        if let Ok(m) = toml_string_table(content@) {
            if let Ok(r) = read_colors(m, kv) {
                assert(colors@ + r =~= r);
            }
        }
    }
    while i < keys.len()
        invariant
            i <= keys.len(),
            colors@.len() == i,
            kv == keys@.map_values(|k: &str| k@),
            kv == color_keys(),
            match toml_string_table(content@) {
                Err(_) => i == 0,
                Ok(m) => {
                    &&& colors_sliceable(m, kv) == colors_sliceable(m, kv.skip(i as int))
                    &&& read_colors(m, kv) == match read_colors(m, kv.skip(i as int)) {
                        Ok(rest) => Ok(colors@ + rest),
                        Err(e) => Err(e),
                    }
                },
            },
        decreases keys.len() - i,
    {
        let key = keys[i];
        let ghost rest = kv.skip(i as int);
        assert(rest[0] == key@);
        assert(rest.drop_first() =~= kv.skip(i as int + 1));
        let value = match toml_lookup(content, key) {
            Err(e) => return Some(Err(e)),
            Ok(None) => {
                let mut m = to_owned_string("missing color: ");
                m.append(key);
                return Some(Err(m));
            },
            Ok(Some(v)) => v,
        };
        if !is_hex_sliceable(value.as_str()) {
            return None;
        }
        let c = match parse_hex_color(value.as_str()) {
            Ok(c) => c,
            Err(e) => return Some(Err(e)),
        };
        let ghost c0 = colors@;
        colors.push(c);
        assert(c0 + (seq![c] + Seq::<Rgb>::empty()) =~= colors@ + Seq::<Rgb>::empty());
        proof {
            if let Ok(m) = toml_string_table(content@) {
                match read_colors(m, kv.skip(i as int + 1)) {
                    Ok(r) => {
                        assert(c0 + (seq![c] + r) =~= colors@ + r);
                    },
                    Err(_) => {},
                }
            }
        }
        i += 1;
    }
    proof {
        assert(kv.skip(22) =~= Seq::<Seq<char>>::empty());
        assert(colors@ + Seq::<Rgb>::empty() =~= colors@);
    }
    Some(
        Ok(
            Theme {
                accent: colors[0],
                background: colors[1],
                foreground: colors[2],
                cursor: colors[3],
                selection_fg: colors[4],
                selection_bg: colors[5],
                color0: colors[6],
                color1: colors[7],
                color2: colors[8],
                color3: colors[9],
                color4: colors[10],
                color5: colors[11],
                color6: colors[12],
                color7: colors[13],
                color8: colors[14],
                color9: colors[15],
                color10: colors[16],
                color11: colors[17],
                color12: colors[18],
                color13: colors[19],
                color14: colors[20],
                color15: colors[21],
            },
        ),
    )
}

/// Reads the palette of a `colors.toml`.
pub fn parse_colors_toml(content: &str) -> (res: Result<Theme, String>)
    requires
        palette_sliceable(content@),
    ensures
        match palette_of(content@) {
            Ok(t) => res == Ok::<Theme, String>(t),
            Err(e) => res matches Err(x) && x@ == e,
        },
{
    match read_palette(content) {
        Some(r) => r,
        None => Err(String::new()),
    }
}

/// As [`parse_colors_toml`], or `None` where a value of six bytes would have
/// to be cut inside a character.
pub fn try_parse_colors_toml(content: &str) -> (res: Option<Result<Theme, String>>)
    ensures
        !palette_sliceable(content@) <==> res is None,
        palette_sliceable(content@) ==> match palette_of(content@) {
            Ok(t) => res == Some(Ok::<Theme, String>(t)),
            Err(e) => res matches Some(Err(x)) && x@ == e,
        },
{
    match read_palette(content) {
        None => None,
        Some(_) => Some(parse_colors_toml(content)),
    }
}

/// Calendar colours repeat every eight calendars.
pub proof fn law_calendar_colors_cycle(t: Theme, index: usize)
    requires
        index + 8 <= usize::MAX,
    ensures
        calendar_color_spec(t, (index + 8) as usize) == calendar_color_spec(t, index),
{
}

} // verus!
