//! The keybinding reference shown in the help popup.
use vstd::prelude::*;

use crate::text::{push_char, to_owned_string};

verus! {

/// One line of the help popup.
#[derive(Debug, Clone, Copy, PartialEq, Eq)]
pub enum HelpLine {
    Blank,
    /// A section title.
    Heading(&'static str),
    /// A key and what it does.
    Binding(&'static str, &'static str),
}

/// The kind of a line (0 blank, 1 heading, 2 binding) and its texts.
pub open spec fn help_line_view(l: HelpLine) -> (int, Seq<char>, Seq<char>) {
    match l {
        HelpLine::Blank => (0int, Seq::<char>::empty(), Seq::<char>::empty()),
        HelpLine::Heading(t) => (1int, t@, Seq::<char>::empty()),
        HelpLine::Binding(k, d) => (2int, k@, d@),
    }
}

/// The lines of the help popup.
pub open spec fn help_table() -> Seq<(int, Seq<char>, Seq<char>)> {
    seq![
        (0int, Seq::<char>::empty(), Seq::<char>::empty()),
        (1int, "GLOBAL"@, Seq::<char>::empty()),
        (2int, "q / Ctrl+C"@, "Quit"@),
        (2int, "?"@, "Toggle this help"@),
        (2int, "1"@, "Month view"@),
        (2int, "2"@, "Week view"@),
        (2int, "3"@, "Day view"@),
        (2int, "4"@, "Agenda view"@),
        (2int, "Tab"@, "Focus calendar sidebar"@),
        (2int, "G / S"@, "Sync with Google Calendar"@),
        (2int, "i"@, "Import .ics file (quick-add)"@),
        (2int, "x"@, "Export .ics file"@),
        (0int, Seq::<char>::empty(), Seq::<char>::empty()),
        (1int, "MONTH VIEW"@, Seq::<char>::empty()),
        (2int, "h / l"@, "Previous / next day"@),
        (2int, "H / L"@, "Previous / next month"@),
        (2int, "j / k"@, "Row down / up (7 days)"@),
        (2int, "n"@, "Jump to today"@),
        (2int, "c"@, "Create event on selected day"@),
        (2int, "e"@, "Edit selected event"@),
        (2int, "d"@, "Delete selected event"@),
        (2int, "Enter"@, "Switch to day view"@),
        (2int, "/"@, "Quick-add event"@),
        (0int, Seq::<char>::empty(), Seq::<char>::empty()),
        (1int, "WEEK / DAY VIEW"@, Seq::<char>::empty()),
        (2int, "h / l"@, "Previous / next week (day)"@),
        (2int, "j / k"@, "Next / previous event"@),
        (2int, "n"@, "Jump to current time"@),
        (2int, "c"@, "Create event"@),
        (2int, "e"@, "Edit selected event"@),
        (2int, "d"@, "Delete event"@),
        (2int, "PgUp / PgDn"@, "Scroll time grid"@),
        (0int, Seq::<char>::empty(), Seq::<char>::empty()),
        (1int, "AGENDA VIEW"@, Seq::<char>::empty()),
        (2int, "j / k"@, "Scroll"@),
        (2int, "n"@, "Jump to today"@),
        (2int, "c"@, "Create event"@),
        (2int, "e"@, "Edit / Enter detail"@),
        (2int, "d"@, "Delete event"@),
        (0int, Seq::<char>::empty(), Seq::<char>::empty()),
        (1int, "CALENDAR SIDEBAR (Tab)"@, Seq::<char>::empty()),
        (2int, "j / k"@, "Navigate calendars"@),
        (2int, "Space"@, "Toggle calendar visibility"@),
        (2int, "Tab / Esc"@, "Return to main view"@),
        (0int, Seq::<char>::empty(), Seq::<char>::empty()),
        (1int, "EVENT FORM"@, Seq::<char>::empty()),
        (2int, "Tab / ↓"@, "Next field"@),
        (2int, "Shift+Tab / ↑"@, "Previous field"@),
        (2int, "h / l (on selects)"@, "Previous / next option"@),
        (2int, "Space (on All day)"@, "Toggle"@),
        (2int, "Enter"@, "Save event"@),
        (2int, "Esc"@, "Cancel"@),
        (0int, Seq::<char>::empty(), Seq::<char>::empty()),
        (1int, "QUICK-ADD BAR"@, Seq::<char>::empty()),
        (2int, "Type title"@, "Event title (uses focused date)"@),
        (2int, "Enter"@, "Create event"@),
        (2int, "Esc"@, "Cancel"@),
        (0int, Seq::<char>::empty(), Seq::<char>::empty()),
        (1int, "HELP"@, Seq::<char>::empty()),
        (2int, "j / k"@, "Scroll"@),
        (2int, "PgUp / PgDn"@, "Scroll page"@),
        (2int, "Esc / ?"@, "Close help"@),
        (0int, Seq::<char>::empty(), Seq::<char>::empty()),
    ]
}

/// The lines of the help popup, section by section.
pub fn build_help_lines() -> (res: Vec<HelpLine>)
    ensures
        res@.map_values(|l: HelpLine| help_line_view(l)) == help_table(),
{
    let v = vec![
        HelpLine::Blank,
        HelpLine::Heading("GLOBAL"),
        HelpLine::Binding("q / Ctrl+C", "Quit"),
        HelpLine::Binding("?", "Toggle this help"),
        HelpLine::Binding("1", "Month view"),
        HelpLine::Binding("2", "Week view"),
        HelpLine::Binding("3", "Day view"),
        HelpLine::Binding("4", "Agenda view"),
        HelpLine::Binding("Tab", "Focus calendar sidebar"),
        HelpLine::Binding("G / S", "Sync with Google Calendar"),
        HelpLine::Binding("i", "Import .ics file (quick-add)"),
        HelpLine::Binding("x", "Export .ics file"),
        HelpLine::Blank,
        HelpLine::Heading("MONTH VIEW"),
        HelpLine::Binding("h / l", "Previous / next day"),
        HelpLine::Binding("H / L", "Previous / next month"),
        HelpLine::Binding("j / k", "Row down / up (7 days)"),
        HelpLine::Binding("n", "Jump to today"),
        HelpLine::Binding("c", "Create event on selected day"),
        HelpLine::Binding("e", "Edit selected event"),
        HelpLine::Binding("d", "Delete selected event"),
        HelpLine::Binding("Enter", "Switch to day view"),
        HelpLine::Binding("/", "Quick-add event"),
        HelpLine::Blank,
        HelpLine::Heading("WEEK / DAY VIEW"),
        HelpLine::Binding("h / l", "Previous / next week (day)"),
        HelpLine::Binding("j / k", "Next / previous event"),
        HelpLine::Binding("n", "Jump to current time"),
        HelpLine::Binding("c", "Create event"),
        HelpLine::Binding("e", "Edit selected event"),
        HelpLine::Binding("d", "Delete event"),
        HelpLine::Binding("PgUp / PgDn", "Scroll time grid"),
        HelpLine::Blank,
        HelpLine::Heading("AGENDA VIEW"),
        HelpLine::Binding("j / k", "Scroll"),
        HelpLine::Binding("n", "Jump to today"),
        HelpLine::Binding("c", "Create event"),
        HelpLine::Binding("e", "Edit / Enter detail"),
        HelpLine::Binding("d", "Delete event"),
        HelpLine::Blank,
        HelpLine::Heading("CALENDAR SIDEBAR (Tab)"),
        HelpLine::Binding("j / k", "Navigate calendars"),
        HelpLine::Binding("Space", "Toggle calendar visibility"),
        HelpLine::Binding("Tab / Esc", "Return to main view"),
        HelpLine::Blank,
        HelpLine::Heading("EVENT FORM"),
        HelpLine::Binding("Tab / ↓", "Next field"),
        HelpLine::Binding("Shift+Tab / ↑", "Previous field"),
        HelpLine::Binding("h / l (on selects)", "Previous / next option"),
        HelpLine::Binding("Space (on All day)", "Toggle"),
        HelpLine::Binding("Enter", "Save event"),
        HelpLine::Binding("Esc", "Cancel"),
        HelpLine::Blank,
        HelpLine::Heading("QUICK-ADD BAR"),
        HelpLine::Binding("Type title", "Event title (uses focused date)"),
        HelpLine::Binding("Enter", "Create event"),
        HelpLine::Binding("Esc", "Cancel"),
        HelpLine::Blank,
        HelpLine::Heading("HELP"),
        HelpLine::Binding("j / k", "Scroll"),
        HelpLine::Binding("PgUp / PgDn", "Scroll page"),
        HelpLine::Binding("Esc / ?", "Close help"),
        HelpLine::Blank,
    ];
    assert(v@.map_values(|l: HelpLine| help_line_view(l)) =~= help_table());
    v
}

/// `s` padded with spaces on the right to `width` characters (`{:<width}`).
pub open spec fn padded(s: Seq<char>, width: int) -> Seq<char> {
    if s.len() >= width {
        s
    } else {
        s + Seq::new((width - s.len()) as nat, |i: int| ' ')
    }
}

/// The key column of a binding line: two spaces, then the key padded to 20
/// characters.
pub fn binding_key_text(key: &str) -> (res: String)
    ensures
        res@ == "  "@ + padded(key@, 20),
{
    let mut out = to_owned_string("  ");
    out.append(key);
    let n = key.unicode_len();
    let mut i: usize = n;
    let ghost start = "  "@ + key@;
    while i < 20
        invariant
            n == key@.len(),
            n <= i,
            i <= 20 || i == n,
            out@ == start + Seq::new((i - n) as nat, |j: int| ' '),
        decreases 20 - i,
    {
        let ghost o0 = out@;
        push_char(&mut out, ' ');
        assert(out@ =~= start + Seq::new((i + 1 - n) as nat, |j: int| ' '));
        i += 1;
    }
    assert(padded(key@, 20) =~= key@ + Seq::new((i - n) as nat, |j: int| ' '));
    assert(out@ =~= "  "@ + padded(key@, 20));
    out
}

} // verus!
