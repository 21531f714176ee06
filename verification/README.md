# SolverForge Calendar

A terminal calendar with local SQLite storage, Google Calendar sync,
dependency-linked events (a DAG of "blocks" links), iCalendar import and
export, and a JSON-first command line for automation.

## Layout

- `src/` is the library, written in Verus. Its functions carry contracts and
  are proved against them, with one kind of exception: the small functions
  marked `#[verifier::external_body]` that call an outside crate (chrono,
  uuid, icalendar, toml, unicode-width, ratatui, http) or a std function that
  vstd does not specify. Verus believes their contracts without reading their
  bodies; each one's doc comment says which outside function it calls and what
  its contract claims of it. Everything built on them is proved.
  - `dag`, `reach`: the dependency graph, reachability, cycle rejection,
    topological order, critical paths and the next actionable events.
  - `cli`: every rule the command line applies before it touches the
    database (validation, not-found and conflict errors, updates).
  - `calendar_service`: creating, editing and importing calendars.
  - `app`: the state of the terminal interface and what each key action does
    to it; work that leaves the process comes back as an `AppEffect`.
  - `keys`: key bindings per view and the status-bar hints.
  - `google`: discovery and sorting of the account's calendars, conversion of
    API events, the plan of a sync, URL encoding and the OAuth callback.
  - `ical`, `theme`, `notifications`, `worker`, `timestamp`, `text`, `ui`:
    .ics reading and writing, the colour palette, reminders, the event window
    of a month, dates and times, string helpers, and what each view shows
    (agenda rows, time-grid slots, month cells, the project bar).
- `app/` is ordinary Rust around the library: the terminal loop and drawing
  (ratatui, crossterm), the SQLite database (rusqlite), the keyring, HTTP
  calls to Google, desktop notifications and the clap command line.
- `tests/` exercises the library on concrete values.
