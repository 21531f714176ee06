//! Key bindings: which action a key press triggers in each view, and the key
//! hints shown in the status bar.
use vstd::prelude::*;
use vstd::view::View as _;

verus! {

/// The views the application can show.
#[derive(Debug, Clone, Copy, PartialEq, Eq, Structural)]
pub enum View {
    Month,
    Week,
    Day,
    Agenda,
    /// The sidebar has the focus.
    CalendarList,
    EventForm,
    QuickAdd,
    Help,
    GoogleAuth,
}

/// Every user-facing action.
#[derive(Debug, Clone, Copy, PartialEq, Eq, Structural)]
pub enum Action {
    Quit,
    Help,
    FocusSidebar,
    FocusMain,
    ViewMonth,
    ViewWeek,
    ViewDay,
    ViewAgenda,
    /// Previous month (month view), week (week view) or day (day view).
    PrevPeriod,
    NextPeriod,
    /// Up a row (month view) or to the previous event (week and day views).
    PrevUnit,
    NextUnit,
    PrevDay,
    NextDay,
    JumpToday,
    JumpToDate,
    CreateEvent,
    EditEvent,
    DeleteEvent,
    SelectEvent,
    FormNextField,
    FormPrevField,
    FormSubmit,
    FormCancel,
    ToggleCalendar,
    CalendarUp,
    CalendarDown,
    QuickAdd,
    InputChar(char),
    InputBackspace,
    InputSubmit,
    InputCancel,
    GoogleSync,
    /// Opens the form for the Google client credentials.
    GoogleAuthSetup,
    ImportIcal,
    ExportIcal,
    ScrollUp,
    ScrollDown,
    ScrollPageUp,
    ScrollPageDown,
    Escape,
    /// The key does nothing in this view.
    Nothing,
}

/// The key of a key press.
#[derive(Debug, Clone, Copy, PartialEq, Eq, Structural)]
pub enum KeyCode {
    Char(char),
    Enter,
    Esc,
    Tab,
    BackTab,
    Backspace,
    Up,
    Down,
    Left,
    Right,
    PageUp,
    PageDown,
    /// Any other key.
    Other,
}

/// A key press: the key, and whether Control was the only modifier held.
#[derive(Debug, Clone, Copy, PartialEq, Eq, Structural)]
pub struct KeyEvent {
    pub code: KeyCode,
    pub control: bool,
}

/// Keys in the month grid.
pub open spec fn month_action(code: KeyCode) -> Action {
    match code {
        KeyCode::Char(c) => if c == 'q' {
            Action::Quit
        } else if c == '?' {
            Action::Help
        } else if c == '1' {
            Action::ViewMonth
        } else if c == '2' {
            Action::ViewWeek
        } else if c == '3' {
            Action::ViewDay
        } else if c == '4' {
            Action::ViewAgenda
        } else if c == 'h' {
            Action::PrevDay
        } else if c == 'l' {
            Action::NextDay
        } else if c == 'k' {
            Action::PrevUnit
        } else if c == 'j' {
            Action::NextUnit
        } else if c == 'H' {
            Action::PrevPeriod
        } else if c == 'L' {
            Action::NextPeriod
        } else if c == 'n' {
            Action::JumpToday
        } else if c == 'g' {
            Action::JumpToDate
        } else if c == 'c' {
            Action::CreateEvent
        } else if c == 'e' {
            Action::EditEvent
        } else if c == 'd' {
            Action::DeleteEvent
        } else if c == '/' || c == 'a' {
            Action::QuickAdd
        } else if c == 'G' || c == 'S' {
            Action::GoogleSync
        } else if c == 'i' {
            Action::ImportIcal
        } else if c == 'x' {
            Action::ExportIcal
        } else {
            Action::Nothing
        },
        KeyCode::Tab => Action::FocusSidebar,
        KeyCode::Left => Action::PrevDay,
        KeyCode::Right => Action::NextDay,
        KeyCode::Up => Action::PrevUnit,
        KeyCode::Down => Action::NextUnit,
        KeyCode::Enter => Action::SelectEvent,
        KeyCode::Esc => Action::Escape,
        _ => Action::Nothing,
    }
}

/// Keys in the week and day time grids.
pub open spec fn time_grid_action(code: KeyCode) -> Action {
    match code {
        KeyCode::Char(c) => if c == 'q' {
            Action::Quit
        } else if c == '?' {
            Action::Help
        } else if c == '1' {
            Action::ViewMonth
        } else if c == '2' {
            Action::ViewWeek
        } else if c == '3' {
            Action::ViewDay
        } else if c == '4' {
            Action::ViewAgenda
        } else if c == 'h' {
            Action::PrevPeriod
        } else if c == 'l' {
            Action::NextPeriod
        } else if c == 'k' {
            Action::PrevUnit
        } else if c == 'j' {
            Action::NextUnit
        } else if c == 'n' {
            Action::JumpToday
        } else if c == 'c' {
            Action::CreateEvent
        } else if c == 'e' {
            Action::EditEvent
        } else if c == 'd' {
            Action::DeleteEvent
        } else if c == '/' || c == 'a' {
            Action::QuickAdd
        } else if c == 'G' || c == 'S' {
            Action::GoogleSync
        } else {
            Action::Nothing
        },
        KeyCode::Tab => Action::FocusSidebar,
        KeyCode::Left => Action::PrevPeriod,
        KeyCode::Right => Action::NextPeriod,
        KeyCode::Up => Action::PrevUnit,
        KeyCode::Down => Action::NextUnit,
        KeyCode::Enter => Action::SelectEvent,
        KeyCode::Esc => Action::Escape,
        KeyCode::PageUp => Action::ScrollPageUp,
        KeyCode::PageDown => Action::ScrollPageDown,
        _ => Action::Nothing,
    }
}

/// Keys in the agenda list.
pub open spec fn agenda_action(code: KeyCode) -> Action {
    match code {
        KeyCode::Char(c) => if c == 'q' {
            Action::Quit
        } else if c == '?' {
            Action::Help
        } else if c == '1' {
            Action::ViewMonth
        } else if c == '2' {
            Action::ViewWeek
        } else if c == '3' {
            Action::ViewDay
        } else if c == '4' {
            Action::ViewAgenda
        } else if c == 'k' {
            Action::ScrollUp
        } else if c == 'j' {
            Action::ScrollDown
        } else if c == 'n' {
            Action::JumpToday
        } else if c == 'c' {
            Action::CreateEvent
        } else if c == 'e' {
            Action::EditEvent
        } else if c == 'G' || c == 'S' {
            Action::GoogleSync
        } else if c == 'd' {
            Action::DeleteEvent
        } else if c == '/' || c == 'a' {
            Action::QuickAdd
        } else {
            Action::Nothing
        },
        KeyCode::Tab => Action::FocusSidebar,
        KeyCode::Up => Action::ScrollUp,
        KeyCode::Down => Action::ScrollDown,
        KeyCode::Enter => Action::SelectEvent,
        KeyCode::PageUp => Action::ScrollPageUp,
        KeyCode::PageDown => Action::ScrollPageDown,
        KeyCode::Esc => Action::Escape,
        _ => Action::Nothing,
    }
}

/// Keys while the sidebar has the focus.
pub open spec fn calendar_list_action(code: KeyCode) -> Action {
    match code {
        KeyCode::Char(c) => if c == 'q' {
            Action::Quit
        } else if c == 'k' {
            Action::CalendarUp
        } else if c == 'j' {
            Action::CalendarDown
        } else if c == ' ' {
            Action::ToggleCalendar
        } else if c == 'c' {
            Action::CreateEvent
        } else if c == 'G' || c == 'S' {
            Action::GoogleSync
        } else if c == '?' {
            Action::Help
        } else {
            Action::Nothing
        },
        KeyCode::Tab => Action::FocusMain,
        KeyCode::Esc => Action::FocusMain,
        KeyCode::Up => Action::CalendarUp,
        KeyCode::Down => Action::CalendarDown,
        _ => Action::Nothing,
    }
}

/// Keys in the event form.
pub open spec fn event_form_action(code: KeyCode) -> Action {
    match code {
        KeyCode::Esc => Action::FormCancel,
        KeyCode::Enter => Action::FormSubmit,
        KeyCode::Tab => Action::FormNextField,
        KeyCode::Down => Action::FormNextField,
        KeyCode::BackTab => Action::FormPrevField,
        KeyCode::Up => Action::FormPrevField,
        KeyCode::Char(c) => Action::InputChar(c),
        KeyCode::Backspace => Action::InputBackspace,
        _ => Action::Nothing,
    }
}

/// Keys in the quick-add bar.
pub open spec fn input_action(code: KeyCode) -> Action {
    match code {
        KeyCode::Esc => Action::InputCancel,
        KeyCode::Enter => Action::InputSubmit,
        KeyCode::Char(c) => Action::InputChar(c),
        KeyCode::Backspace => Action::InputBackspace,
        _ => Action::Nothing,
    }
}

/// Keys in the help popup.
pub open spec fn help_action(code: KeyCode) -> Action {
    match code {
        KeyCode::Char(c) => if c == 'q' || c == '?' {
            Action::Escape
        } else if c == 'k' {
            Action::ScrollUp
        } else if c == 'j' {
            Action::ScrollDown
        } else {
            Action::Nothing
        },
        KeyCode::Esc => Action::Escape,
        KeyCode::Up => Action::ScrollUp,
        KeyCode::Down => Action::ScrollDown,
        KeyCode::PageUp => Action::ScrollPageUp,
        KeyCode::PageDown => Action::ScrollPageDown,
        _ => Action::Nothing,
    }
}

/// Keys in the Google setup popup.
pub open spec fn google_auth_action(code: KeyCode) -> Action {
    match code {
        KeyCode::Esc => Action::Escape,
        KeyCode::Char(c) => if c == 'q' {
            Action::Escape
        } else {
            Action::InputChar(c)
        },
        KeyCode::Enter => Action::FormSubmit,
        KeyCode::Backspace => Action::InputBackspace,
        KeyCode::Tab => Action::FormNextField,
        KeyCode::Down => Action::FormNextField,
        KeyCode::BackTab => Action::FormPrevField,
        KeyCode::Up => Action::FormPrevField,
        _ => Action::Nothing,
    }
}

/// The action of a key press in a view. A Control chord quits on `c` or `q`
/// and does nothing otherwise, whatever the view.
pub open spec fn key_action(view: View, key: KeyEvent) -> Action {
    if key.control {
        if key.code == KeyCode::Char('c') || key.code == KeyCode::Char('q') {
            Action::Quit
        } else {
            Action::Nothing
        }
    } else {
        match view {
            View::Month => month_action(key.code),
            View::Week => time_grid_action(key.code),
            View::Day => time_grid_action(key.code),
            View::Agenda => agenda_action(key.code),
            View::CalendarList => calendar_list_action(key.code),
            View::EventForm => event_form_action(key.code),
            View::QuickAdd => input_action(key.code),
            View::Help => help_action(key.code),
            View::GoogleAuth => google_auth_action(key.code),
        }
    }
}

fn resolve_month(code: KeyCode) -> (res: Action)
    ensures
        res == month_action(code),
{
    match code {
        KeyCode::Char(c) => match c {
            'q' => Action::Quit,
            '?' => Action::Help,
            '1' => Action::ViewMonth,
            '2' => Action::ViewWeek,
            '3' => Action::ViewDay,
            '4' => Action::ViewAgenda,
            'h' => Action::PrevDay,
            'l' => Action::NextDay,
            'k' => Action::PrevUnit,
            'j' => Action::NextUnit,
            'H' => Action::PrevPeriod,
            'L' => Action::NextPeriod,
            'n' => Action::JumpToday,
            'g' => Action::JumpToDate,
            'c' => Action::CreateEvent,
            'e' => Action::EditEvent,
            'd' => Action::DeleteEvent,
            '/' | 'a' => Action::QuickAdd,
            'G' | 'S' => Action::GoogleSync,
            'i' => Action::ImportIcal,
            'x' => Action::ExportIcal,
            _ => Action::Nothing,
        },
        KeyCode::Tab => Action::FocusSidebar,
        KeyCode::Left => Action::PrevDay,
        KeyCode::Right => Action::NextDay,
        KeyCode::Up => Action::PrevUnit,
        KeyCode::Down => Action::NextUnit,
        KeyCode::Enter => Action::SelectEvent,
        KeyCode::Esc => Action::Escape,
        _ => Action::Nothing,
    }
}

fn resolve_time_grid(code: KeyCode) -> (res: Action)
    ensures
        res == time_grid_action(code),
{
    match code {
        KeyCode::Char(c) => match c {
            'q' => Action::Quit,
            '?' => Action::Help,
            '1' => Action::ViewMonth,
            '2' => Action::ViewWeek,
            '3' => Action::ViewDay,
            '4' => Action::ViewAgenda,
            'h' => Action::PrevPeriod,
            'l' => Action::NextPeriod,
            'k' => Action::PrevUnit,
            'j' => Action::NextUnit,
            'n' => Action::JumpToday,
            'c' => Action::CreateEvent,
            'e' => Action::EditEvent,
            'd' => Action::DeleteEvent,
            '/' | 'a' => Action::QuickAdd,
            'G' | 'S' => Action::GoogleSync,
            _ => Action::Nothing,
        },
        KeyCode::Tab => Action::FocusSidebar,
        KeyCode::Left => Action::PrevPeriod,
        KeyCode::Right => Action::NextPeriod,
        KeyCode::Up => Action::PrevUnit,
        KeyCode::Down => Action::NextUnit,
        KeyCode::Enter => Action::SelectEvent,
        KeyCode::Esc => Action::Escape,
        KeyCode::PageUp => Action::ScrollPageUp,
        KeyCode::PageDown => Action::ScrollPageDown,
        _ => Action::Nothing,
    }
}

fn resolve_agenda(code: KeyCode) -> (res: Action)
    ensures
        res == agenda_action(code),
{
    match code {
        KeyCode::Char(c) => match c {
            'q' => Action::Quit,
            '?' => Action::Help,
            '1' => Action::ViewMonth,
            '2' => Action::ViewWeek,
            '3' => Action::ViewDay,
            '4' => Action::ViewAgenda,
            'k' => Action::ScrollUp,
            'j' => Action::ScrollDown,
            'n' => Action::JumpToday,
            'c' => Action::CreateEvent,
            'e' => Action::EditEvent,
            'd' => Action::DeleteEvent,
            '/' | 'a' => Action::QuickAdd,
            'G' | 'S' => Action::GoogleSync,
            _ => Action::Nothing,
        },
        KeyCode::Tab => Action::FocusSidebar,
        KeyCode::Up => Action::ScrollUp,
        KeyCode::Down => Action::ScrollDown,
        KeyCode::Enter => Action::SelectEvent,
        KeyCode::PageUp => Action::ScrollPageUp,
        KeyCode::PageDown => Action::ScrollPageDown,
        KeyCode::Esc => Action::Escape,
        _ => Action::Nothing,
    }
}

fn resolve_calendar_list(code: KeyCode) -> (res: Action)
    ensures
        res == calendar_list_action(code),
{
    match code {
        KeyCode::Char(c) => match c {
            'q' => Action::Quit,
            'k' => Action::CalendarUp,
            'j' => Action::CalendarDown,
            ' ' => Action::ToggleCalendar,
            'c' => Action::CreateEvent,
            'G' | 'S' => Action::GoogleSync,
            '?' => Action::Help,
            _ => Action::Nothing,
        },
        KeyCode::Tab | KeyCode::Esc => Action::FocusMain,
        KeyCode::Up => Action::CalendarUp,
        KeyCode::Down => Action::CalendarDown,
        _ => Action::Nothing,
    }
}

fn resolve_event_form(code: KeyCode) -> (res: Action)
    ensures
        res == event_form_action(code),
{
    match code {
        KeyCode::Esc => Action::FormCancel,
        KeyCode::Enter => Action::FormSubmit,
        KeyCode::Tab | KeyCode::Down => Action::FormNextField,
        KeyCode::BackTab | KeyCode::Up => Action::FormPrevField,
        KeyCode::Char(c) => Action::InputChar(c),
        KeyCode::Backspace => Action::InputBackspace,
        _ => Action::Nothing,
    }
}

fn resolve_input(code: KeyCode) -> (res: Action)
    ensures
        res == input_action(code),
{
    match code {
        KeyCode::Esc => Action::InputCancel,
        KeyCode::Enter => Action::InputSubmit,
        KeyCode::Char(c) => Action::InputChar(c),
        KeyCode::Backspace => Action::InputBackspace,
        _ => Action::Nothing,
    }
}

fn resolve_help(code: KeyCode) -> (res: Action)
    ensures
        res == help_action(code),
{
    match code {
        KeyCode::Char('q') | KeyCode::Esc | KeyCode::Char('?') => Action::Escape,
        KeyCode::Char('k') | KeyCode::Up => Action::ScrollUp,
        KeyCode::Char('j') | KeyCode::Down => Action::ScrollDown,
        KeyCode::PageUp => Action::ScrollPageUp,
        KeyCode::PageDown => Action::ScrollPageDown,
        _ => Action::Nothing,
    }
}

fn resolve_google_auth(code: KeyCode) -> (res: Action)
    ensures
        res == google_auth_action(code),
{
    match code {
        KeyCode::Esc | KeyCode::Char('q') => Action::Escape,
        KeyCode::Enter => Action::FormSubmit,
        KeyCode::Char(c) => Action::InputChar(c),
        KeyCode::Backspace => Action::InputBackspace,
        KeyCode::Tab | KeyCode::Down => Action::FormNextField,
        KeyCode::BackTab | KeyCode::Up => Action::FormPrevField,
        _ => Action::Nothing,
    }
}

/// The action that a key press triggers in `view`.
pub fn resolve(view: &View, key: KeyEvent) -> (res: Action)
    ensures
        res == key_action(*view, key),
{
    if key.control {
        return match key.code {
            KeyCode::Char('c') | KeyCode::Char('q') => Action::Quit,
            _ => Action::Nothing,
        };
    }
    match view {
        View::Month => resolve_month(key.code),
        View::Week => resolve_time_grid(key.code),
        View::Day => resolve_time_grid(key.code),
        View::Agenda => resolve_agenda(key.code),
        View::CalendarList => resolve_calendar_list(key.code),
        View::EventForm => resolve_event_form(key.code),
        View::QuickAdd => resolve_input(key.code),
        View::Help => resolve_help(key.code),
        View::GoogleAuth => resolve_google_auth(key.code),
    }
}

/// Control-C and Control-Q quit from every view.
pub proof fn lemma_control_quits(view: View, c: char)
    requires
        c == 'c' || c == 'q',
    ensures
        key_action(view, KeyEvent { code: KeyCode::Char(c), control: true }) == Action::Quit,
{
}

/// In the views that edit text, every plain character key is typed into the
/// field, except `q`, which closes the Google setup popup.
pub proof fn lemma_text_views_type_characters(c: char)
    ensures
        key_action(View::EventForm, KeyEvent { code: KeyCode::Char(c), control: false })
            == Action::InputChar(c),
        key_action(View::QuickAdd, KeyEvent { code: KeyCode::Char(c), control: false })
            == Action::InputChar(c),
        c != 'q' ==> key_action(View::GoogleAuth, KeyEvent { code: KeyCode::Char(c), control: false })
            == Action::InputChar(c),
{
}

/// A move back: to an earlier period, row, day, line, page, calendar or field.
pub open spec fn backward_move(a: Action) -> bool {
    ||| a is PrevPeriod
    ||| a is PrevUnit
    ||| a is PrevDay
    ||| a is ScrollUp
    ||| a is ScrollPageUp
    ||| a is CalendarUp
    ||| a is FormPrevField
}

/// A move forward: to a later period, row, day, line, page, calendar or field.
pub open spec fn forward_move(a: Action) -> bool {
    ||| a is NextPeriod
    ||| a is NextUnit
    ||| a is NextDay
    ||| a is ScrollDown
    ||| a is ScrollPageDown
    ||| a is CalendarDown
    ||| a is FormNextField
}

/// The same step in the other direction.
pub open spec fn opposite_move(a: Action) -> Action {
    match a {
        Action::PrevPeriod => Action::NextPeriod,
        Action::NextPeriod => Action::PrevPeriod,
        Action::PrevUnit => Action::NextUnit,
        Action::NextUnit => Action::PrevUnit,
        Action::PrevDay => Action::NextDay,
        Action::NextDay => Action::PrevDay,
        Action::ScrollUp => Action::ScrollDown,
        Action::ScrollDown => Action::ScrollUp,
        Action::ScrollPageUp => Action::ScrollPageDown,
        Action::ScrollPageDown => Action::ScrollPageUp,
        Action::CalendarUp => Action::CalendarDown,
        Action::CalendarDown => Action::CalendarUp,
        Action::FormPrevField => Action::FormNextField,
        Action::FormNextField => Action::FormPrevField,
        other => other,
    }
}

/// The documented key pairs, backward key first: `h`/`l`, `H`/`L`, `k`/`j`,
/// the left and right arrows, the up and down arrows, and Page Up/Page Down.
pub open spec fn paired_keys(back: KeyCode, fwd: KeyCode) -> bool {
    ||| back == KeyCode::Char('h') && fwd == KeyCode::Char('l')
    ||| back == KeyCode::Char('H') && fwd == KeyCode::Char('L')
    ||| back == KeyCode::Char('k') && fwd == KeyCode::Char('j')
    ||| back == KeyCode::Left && fwd == KeyCode::Right
    ||| back == KeyCode::Up && fwd == KeyCode::Down
    ||| back == KeyCode::PageUp && fwd == KeyCode::PageDown
}

/// In every view, the two keys of a documented pair make opposite moves:
/// where either of them moves at all, the first moves back and the second
/// moves forward by the same step.
pub proof fn law_paired_keys_move_opposite(view: View, back: KeyCode, fwd: KeyCode)
    requires
        paired_keys(back, fwd),
    ensures
        ({
            let b = key_action(view, KeyEvent { code: back, control: false });
            let f = key_action(view, KeyEvent { code: fwd, control: false });
            (backward_move(b) || forward_move(b) || backward_move(f) || forward_move(f)) ==> (
            backward_move(b) && f == opposite_move(b))
        }),
{
}

/// The keys the help lists for moving: in the month view `H`/`L` go to the
/// previous and next month, `h`/`l` to the previous and next day and `k`/`j`
/// up and down a row; in the week and day views `h`/`l` go to the previous
/// and next week or day and `k`/`j` to the previous and next event.
pub proof fn law_navigation_keys(view: View)
    ensures
        key_action(View::Month, KeyEvent { code: KeyCode::Char('H'), control: false }) == Action::PrevPeriod,
        key_action(View::Month, KeyEvent { code: KeyCode::Char('L'), control: false }) == Action::NextPeriod,
        key_action(View::Month, KeyEvent { code: KeyCode::Char('h'), control: false }) == Action::PrevDay,
        key_action(View::Month, KeyEvent { code: KeyCode::Char('l'), control: false }) == Action::NextDay,
        key_action(View::Month, KeyEvent { code: KeyCode::Char('k'), control: false }) == Action::PrevUnit,
        key_action(View::Month, KeyEvent { code: KeyCode::Char('j'), control: false }) == Action::NextUnit,
        view == View::Week || view == View::Day ==> {
            &&& key_action(view, KeyEvent { code: KeyCode::Char('h'), control: false }) == Action::PrevPeriod
            &&& key_action(view, KeyEvent { code: KeyCode::Char('l'), control: false }) == Action::NextPeriod
            &&& key_action(view, KeyEvent { code: KeyCode::Char('k'), control: false }) == Action::PrevUnit
            &&& key_action(view, KeyEvent { code: KeyCode::Char('j'), control: false }) == Action::NextUnit
        },
{
}

/// A status-bar hint: the key label and what it does.
pub type Hint = (&'static str, &'static str);

/// The key hints of each view.
pub open spec fn view_hints(view: View) -> Seq<(Seq<char>, Seq<char>)> {
    match view {
        View::Month => seq![
            ("h/l"@, "day"@),
            ("H/L"@, "month"@),
            ("j/k"@, "row"@),
            ("n"@, "today"@),
            ("c"@, "create"@),
            ("e"@, "edit"@),
            ("d"@, "del"@),
            ("1-4"@, "view"@),
            ("Tab"@, "sidebar"@),
            ("?"@, "help"@),
        ],
        View::Week | View::Day => seq![
            ("h/l"@, "week"@),
            ("j/k"@, "event"@),
            ("n"@, "now"@),
            ("c"@, "create"@),
            ("e"@, "edit"@),
            ("d"@, "del"@),
            ("1-4"@, "view"@),
            ("Tab"@, "sidebar"@),
            ("?"@, "help"@),
        ],
        View::Agenda => seq![
            ("j/k"@, "scroll"@),
            ("n"@, "today"@),
            ("c"@, "create"@),
            ("e"@, "edit"@),
            ("d"@, "del"@),
            ("1-4"@, "view"@),
            ("?"@, "help"@),
        ],
        View::CalendarList => seq![
            ("j/k"@, "nav"@),
            ("Space"@, "toggle"@),
            ("Tab"@, "main"@),
            ("?"@, "help"@),
        ],
        View::EventForm => seq![
            ("Tab/\u{2191}\u{2193}"@, "field"@),
            ("Enter"@, "save"@),
            ("Esc"@, "cancel"@),
        ],
        View::QuickAdd => seq![("Enter"@, "add"@), ("Esc"@, "cancel"@)],
        View::Help => seq![("j/k"@, "scroll"@), ("Esc"@, "close"@)],
        View::GoogleAuth => seq![("Tab"@, "field"@), ("Enter"@, "confirm"@), ("Esc"@, "cancel"@)],
    }
}

/// The views of a list of hints.
pub open spec fn hint_views(hs: Seq<Hint>) -> Seq<(Seq<char>, Seq<char>)> {
    hs.map_values(|h: Hint| (h.0@, h.1@))
}

fn push_hint(v: &mut Vec<Hint>, key: &'static str, desc: &'static str)
    ensures
        hint_views(final(v)@) == hint_views(old(v)@).push((key@, desc@)),
{
    let ghost before = v@;
    v.push((key, desc));
    assert(hint_views(v@) =~= hint_views(before).push((key@, desc@)));
}

/// The status-bar key hints for `view`.
pub fn hints(view: &View) -> (res: Vec<Hint>)
    ensures
        hint_views(res@) == view_hints(*view),
{
    let mut v: Vec<Hint> = Vec::new();
    assert(hint_views(v@) =~= Seq::<(Seq<char>, Seq<char>)>::empty());
    match view {
        View::Month => {
            push_hint(&mut v, "h/l", "day");
            push_hint(&mut v, "H/L", "month");
            push_hint(&mut v, "j/k", "row");
            push_hint(&mut v, "n", "today");
            push_hint(&mut v, "c", "create");
            push_hint(&mut v, "e", "edit");
            push_hint(&mut v, "d", "del");
            push_hint(&mut v, "1-4", "view");
            push_hint(&mut v, "Tab", "sidebar");
            push_hint(&mut v, "?", "help");
        },
        View::Week | View::Day => {
            push_hint(&mut v, "h/l", "week");
            push_hint(&mut v, "j/k", "event");
            push_hint(&mut v, "n", "now");
            push_hint(&mut v, "c", "create");
            push_hint(&mut v, "e", "edit");
            push_hint(&mut v, "d", "del");
            push_hint(&mut v, "1-4", "view");
            push_hint(&mut v, "Tab", "sidebar");
            push_hint(&mut v, "?", "help");
        },
        View::Agenda => {
            push_hint(&mut v, "j/k", "scroll");
            push_hint(&mut v, "n", "today");
            push_hint(&mut v, "c", "create");
            push_hint(&mut v, "e", "edit");
            push_hint(&mut v, "d", "del");
            push_hint(&mut v, "1-4", "view");
            push_hint(&mut v, "?", "help");
        },
        View::CalendarList => {
            push_hint(&mut v, "j/k", "nav");
            push_hint(&mut v, "Space", "toggle");
            push_hint(&mut v, "Tab", "main");
            push_hint(&mut v, "?", "help");
        },
        View::EventForm => {
            push_hint(&mut v, "Tab/\u{2191}\u{2193}", "field");
            push_hint(&mut v, "Enter", "save");
            push_hint(&mut v, "Esc", "cancel");
        },
        View::QuickAdd => {
            push_hint(&mut v, "Enter", "add");
            push_hint(&mut v, "Esc", "cancel");
        },
        View::Help => {
            push_hint(&mut v, "j/k", "scroll");
            push_hint(&mut v, "Esc", "close");
        },
        View::GoogleAuth => {
            push_hint(&mut v, "Tab", "field");
            push_hint(&mut v, "Enter", "confirm");
            push_hint(&mut v, "Esc", "cancel");
        },
    }
    assert(hint_views(v@) =~= view_hints(*view));
    v
}

} // verus!
