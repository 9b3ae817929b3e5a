//! Text shown to the user: snapshot tables, list labels, titles and help
//! lines, and defaults of the command line.
use vstd::prelude::*;
use crate::config::Config;
use crate::snapshots::{Snapshot, Timestamp};
use crate::text::{decimal, decimal_string, pad_right, push_padded};
use crate::tui::{InputMode, TuiApp};

verus! {

/// Name for what chrono's `DateTime::<Utc>::format(pattern)` writes for the
/// time `secs`/`nanos` (the Unix epoch when chrono has no such time).
pub uninterp spec fn utc_text(secs: i64, nanos: u32, pattern: Seq<char>) -> Seq<char>;

/// The patterns that the snapshot lists use.
pub open spec fn known_pattern(p: Seq<char>) -> bool {
    p == "%Y-%m-%d"@ || p == "%H:%M:%S"@ || p == "%Y-%m-%d %H:%M:%S"@
}

/// chrono's `DateTime::<Utc>::from_timestamp(..).unwrap_or_default()`
/// formatted with `pattern`; the text depends on the time and the pattern
/// alone and is named `utc_text`. The patterns are limited to valid ones,
/// on which chrono's formatting does not fail.
#[verifier::external_body]
fn format_utc(t: Timestamp, pattern: &str) -> (s: String)
    requires
        known_pattern(pattern@),
    ensures
        s@ == utc_text(t.secs, t.nanos, pattern@),
{
    chrono::DateTime::from_timestamp(t.secs, t.nanos).unwrap_or_default().format(pattern).to_string()
}

/// The header of the snapshot table of `list`.
pub open spec fn table_header_text() -> Seq<char> {
    pad_right("ID"@, 5) + " "@ + pad_right("Date"@, 20) + " "@ + pad_right("Time"@, 30) + " "@
        + "Description"@
}

/// The header of the snapshot table: `{:<5} {:<20} {:<30} {}` of the
/// column names.
pub fn snapshot_table_header() -> (s: String)
    ensures
        s@ == table_header_text(),
{
    let mut s = String::new();
    push_padded(&mut s, "ID", 5);
    s.append(" ");
    push_padded(&mut s, "Date", 20);
    s.append(" ");
    push_padded(&mut s, "Time", 30);
    s.append(" ");
    s.append("Description");
    assert(s@ =~= table_header_text());
    s
}

/// The table row of a snapshot: id, date, time and description, in
/// columns of 5, 20 and 30 characters.
pub open spec fn table_row_text(s: Snapshot) -> Seq<char> {
    pad_right(decimal(s.id as nat), 5) + " "@ + pad_right(
        utc_text(s.timestamp.secs, s.timestamp.nanos, "%Y-%m-%d"@),
        20,
    ) + " "@ + pad_right(utc_text(s.timestamp.secs, s.timestamp.nanos, "%H:%M:%S"@), 30) + " "@
        + s.description@
}

/// The table row of a snapshot.
pub fn snapshot_table_row(snapshot: &Snapshot) -> (s: String)
    ensures
        s@ == table_row_text(*snapshot),
{
    let id = decimal_string(snapshot.id as u128);
    let date = format_utc(snapshot.timestamp, "%Y-%m-%d");
    let time = format_utc(snapshot.timestamp, "%H:%M:%S");
    let mut s = String::new();
    push_padded(&mut s, id.as_str(), 5);
    s.append(" ");
    push_padded(&mut s, date.as_str(), 20);
    s.append(" ");
    push_padded(&mut s, time.as_str(), 30);
    s.append(" ");
    s.append(snapshot.description.as_str());
    assert(s@ =~= table_row_text(*snapshot));
    s
}

/// The label of a configuration in the list: a folder and its name.
pub fn config_item_label(config: &Config) -> (s: String)
    ensures
        s@ == "📁 "@ + config.name@,
{
    let mut s = "📁 ".to_owned();
    s.append(config.name.as_str());
    s
}

/// The label of a snapshot in the list: `#`, the id in a column of 3, the
/// date and time, and the description.
pub open spec fn snapshot_label_text(s: Snapshot) -> Seq<char> {
    "#"@ + pad_right(decimal(s.id as nat), 3) + " "@ + utc_text(
        s.timestamp.secs,
        s.timestamp.nanos,
        "%Y-%m-%d %H:%M:%S"@,
    ) + " - "@ + s.description@
}

/// The label of a snapshot in the list.
pub fn snapshot_item_label(snapshot: &Snapshot) -> (s: String)
    ensures
        s@ == snapshot_label_text(*snapshot),
{
    let id = decimal_string(snapshot.id as u128);
    let when = format_utc(snapshot.timestamp, "%Y-%m-%d %H:%M:%S");
    let mut s = "#".to_owned();
    push_padded(&mut s, id.as_str(), 3);
    s.append(" ");
    s.append(when.as_str());
    s.append(" - ");
    s.append(snapshot.description.as_str());
    assert(s@ =~= snapshot_label_text(*snapshot));
    s
}

impl TuiApp {
    /// The title of the snapshot list: `Snapshots (<name>)` for the
    /// selected configuration, or `Snapshots`.
    pub fn snapshots_title(&self) -> (s: String)
        ensures
            s@ == match self.config_selected {
                Some(i) => if i < self.configs@.len() {
                    "Snapshots ("@ + self.configs@[i as int].name@ + ")"@
                } else {
                    "Snapshots"@
                },
                None => "Snapshots"@,
            },
    {
        if let Some(i) = self.config_selected {
            if i < self.configs.len() {
                let mut s = "Snapshots (".to_owned();
                s.append(self.configs[i].name.as_str());
                s.append(")");
                return s;
            }
        }
        "Snapshots".to_owned()
    }

    /// The key help of the footer for the current mode.
    pub fn help_text(&self) -> (s: String)
        ensures
            s@ == match self.input_mode {
                InputMode::Normal =>
                    "c: Create  r: Rollback  d: Delete  q: Quit  ↑/↓: Navigate  Tab: Switch Panel"@,
                InputMode::CreateSnapshot => "Enter: Confirm  Esc: Cancel"@,
                InputMode::ConfirmRollback => "y/Enter: Confirm rollback  Any other key: Cancel"@,
            },
    {
        match self.input_mode {
            InputMode::Normal =>
                "c: Create  r: Rollback  d: Delete  q: Quit  ↑/↓: Navigate  Tab: Switch Panel".to_owned(),
            InputMode::CreateSnapshot => "Enter: Confirm  Esc: Cancel".to_owned(),
            InputMode::ConfirmRollback => "y/Enter: Confirm rollback  Any other key: Cancel".to_owned(),
        }
    }
}

/// The description of a snapshot made from the command line:
/// `Manual snapshot` when none is given.
pub fn description_or_default(description: Option<String>) -> (s: String)
    ensures
        s@ == match description {
            Some(d) => d@,
            None => "Manual snapshot"@,
        },
{
    match description {
        Some(d) => d,
        None => "Manual snapshot".to_owned(),
    }
}

} // verus!
