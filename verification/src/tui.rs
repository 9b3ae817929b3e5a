//! The interactive interface as a state machine: the state of the screen
//! (lists, selections, focus, input mode, message), how each key changes
//! it, and which outside work a key asks for. Drawing, the text field and
//! the work itself are left to the caller, which reports back through the
//! `*_loaded`/`*_created`/`*_deleted`/`rolled_back` methods.
use vstd::prelude::*;
use crate::config::Config;
use crate::snapshots::Snapshot;
use crate::text::{decimal, push_decimal, push_padded, pad_right};

verus! {

/// Which list the arrow keys move in.
#[derive(Debug, Clone, Copy, PartialEq, Eq, Structural)]
pub enum Focus {
    Configs,
    Snapshots,
}

/// Whether keys drive the lists, go to the description field, or answer the
/// rollback question.
#[derive(Debug, Clone, Copy, PartialEq, Eq, Structural)]
pub enum InputMode {
    Normal,
    CreateSnapshot,
    /// A rollback of the selected snapshot waits for confirmation.
    ConfirmRollback,
}

/// A key press.
#[derive(Debug, Clone, Copy, PartialEq, Eq, Structural)]
pub enum Key {
    Char(char),
    Up,
    Down,
    Tab,
    Enter,
    Esc,
    Other,
}

/// Outside work that a key asks for.
#[derive(Debug, Clone)]
pub enum TuiAction {
    /// Nothing.
    Nothing,
    /// Empty the description field.
    ResetInput,
    /// Give the key to the description field.
    EditInput,
    /// Load the snapshots of configuration `config_index`, then call
    /// `snapshots_loaded`.
    LoadSnapshots { config_index: usize },
    /// Create a snapshot of configuration `config_index`, reload its
    /// snapshots, then call `snapshot_created`.
    CreateSnapshot { config_index: usize, description: String },
    /// Delete a snapshot, reload, then call `snapshot_deleted`.
    DeleteSnapshot { config_index: usize, snapshot_id: usize },
    /// Roll back to a snapshot, then call `rolled_back`.
    RollbackSnapshot { config_index: usize, snapshot_id: usize },
}

/// What the screen shows and where the user is.
pub struct TuiApp {
    pub configs: Vec<Config>,
    pub config_selected: Option<usize>,
    pub snapshots: Vec<Snapshot>,
    pub snapshot_selected: Option<usize>,
    pub focus: Focus,
    pub input_mode: InputMode,
    pub message: Option<String>,
    pub should_quit: bool,
}

/// `len - 1`, or 0 for an empty list.
pub open spec fn last_index(len: nat) -> nat {
    if len == 0 {
        0
    } else {
        (len - 1) as nat
    }
}

/// Moving a selection up: one step, wrapping from the top to the bottom;
/// nothing selected selects the top.
pub open spec fn nav_up(sel: Option<usize>, len: nat) -> Option<usize> {
    match sel {
        Some(i) => if i > 0 {
            Some((i - 1) as usize)
        } else {
            Some(last_index(len) as usize)
        },
        None => Some(0),
    }
}

/// Moving a selection down: one step, wrapping from the bottom to the top;
/// nothing selected selects the top.
pub open spec fn nav_down(sel: Option<usize>, len: nat) -> Option<usize> {
    match sel {
        Some(i) => if i >= last_index(len) {
            Some(0)
        } else {
            Some((i + 1) as usize)
        },
        None => Some(0),
    }
}

/// A selection points into its list, or is the top of an empty list (where
/// the arrow keys put it), or is empty.
pub open spec fn selection_ok(sel: Option<usize>, len: nat) -> bool {
    match sel {
        Some(i) => i < len || i == 0,
        None => true,
    }
}

/// The selection after a list of `len` entries has been loaded.
pub open spec fn fresh_selection(len: nat) -> Option<usize> {
    if len > 0 {
        Some(0)
    } else {
        None
    }
}

fn up(sel: Option<usize>, len: usize) -> (r: Option<usize>)
    ensures
        r == nav_up(sel, len as nat),
{
    match sel {
        Some(i) => if i > 0 {
            Some(i - 1)
        } else {
            Some(if len == 0 {
                0
            } else {
                len - 1
            })
        },
        None => Some(0),
    }
}

fn down(sel: Option<usize>, len: usize) -> (r: Option<usize>)
    ensures
        r == nav_down(sel, len as nat),
{
    match sel {
        Some(i) => {
            let last = if len == 0 {
                0
            } else {
                len - 1
            };
            if i >= last {
                Some(0)
            } else {
                Some(i + 1)
            }
        },
        None => Some(0),
    }
}

/// The message after a snapshot was created.
pub open spec fn created_text(description: Seq<char>) -> Seq<char> {
    "✓ Snapshot created: "@ + description
}

/// The message after a snapshot was deleted.
pub open spec fn deleted_text(id: nat) -> Seq<char> {
    "✓ Snapshot #"@ + decimal(id) + " deleted"@
}

/// The message after a rollback.
pub open spec fn rolled_back_text(id: nat) -> Seq<char> {
    "✓ Rolled back to snapshot #"@ + decimal(id) + ". Please reboot."@
}

/// One key in normal mode takes `before` to `after` and asks for `a`: `q`
/// quits, `c` opens the description field, `d` deletes the selected
/// snapshot and `r` asks to confirm rolling back to it, the arrows move the selection, tab switches
/// lists, enter shows the selected configuration's snapshots; other keys do
/// nothing.
pub open spec fn normal_step(before: TuiApp, after: TuiApp, key: Key, a: TuiAction) -> bool {
    match key {
        Key::Char('q') => after == (TuiApp { should_quit: true, ..before })
            && a == TuiAction::Nothing,
        Key::Char('c') => after == (TuiApp {
            input_mode: InputMode::CreateSnapshot,
            ..before
        }) && a == TuiAction::ResetInput,
        Key::Char('d') => after == before && a == match before.selected_pair() {
            Some((c, id)) => TuiAction::DeleteSnapshot { config_index: c, snapshot_id: id },
            None => TuiAction::Nothing,
        },
        Key::Char('r') => a == TuiAction::Nothing && after == if before.selected_pair() is Some {
            TuiApp { input_mode: InputMode::ConfirmRollback, ..before }
        } else {
            before
        },
        Key::Up => after == before.after_up() && a == TuiAction::Nothing,
        Key::Down => after == before.after_down() && a == TuiAction::Nothing,
        Key::Tab => after == before.after_switch() && a == TuiAction::Nothing,
        Key::Enter => after == before && a == match (
            before.focus,
            before.config_selected,
        ) {
            (Focus::Configs, Some(i)) => before.load_action(i),
            _ => TuiAction::Nothing,
        },
        _ => after == before && a == TuiAction::Nothing,
    }
}

/// One key with the description field open (holding `input`) takes `before`
/// to `after` and asks for `a`: enter asks to create the snapshot of the
/// selected configuration, the field staying open until `snapshot_created`
/// reports success (with no configuration selected it just closes);
/// escape closes it, other keys edit it.
pub open spec fn create_step(before: TuiApp, after: TuiApp, key: Key, input: Seq<char>, a: TuiAction) -> bool {
    match key {
        Key::Enter => match before.config_selected {
            Some(c) => if c < before.configs@.len() {
                after == before && (a matches TuiAction::CreateSnapshot {
                    config_index,
                    description: d,
                } && config_index == c && d@ == input)
            } else {
                after == (TuiApp { input_mode: InputMode::Normal, ..before }) && (a
                    matches TuiAction::Nothing)
            },
            None => after == (TuiApp { input_mode: InputMode::Normal, ..before }) && (a
                matches TuiAction::Nothing),
        },
        Key::Esc => after == (TuiApp { input_mode: InputMode::Normal, ..before })
            && a == TuiAction::Nothing,
        _ => after == before && a == TuiAction::EditInput,
    }
}

/// The keys that confirm a rollback.
pub open spec fn confirms(key: Key) -> bool {
    key == Key::Char('y') || key == Key::Enter
}

/// One key while a rollback waits for confirmation takes `before` to
/// `after` and asks for `a`: `y` or enter asks for the rollback of the
/// selected snapshot, the question staying until `rolled_back` reports it
/// done; any other key cancels.
pub open spec fn confirm_step(before: TuiApp, after: TuiApp, key: Key, a: TuiAction) -> bool {
    if confirms(key) {
        match before.selected_pair() {
            Some((c, id)) => after == before && a == TuiAction::RollbackSnapshot {
                config_index: c,
                snapshot_id: id,
            },
            None => after == (TuiApp { input_mode: InputMode::Normal, ..before }) && a
                == TuiAction::Nothing,
        }
    } else {
        after == (TuiApp { input_mode: InputMode::Normal, ..before }) && a == TuiAction::Nothing
    }
}

impl TuiApp {
    /// Both selections are in order.
    pub open spec fn wf(self) -> bool {
        &&& selection_ok(self.config_selected, self.configs@.len())
        &&& selection_ok(self.snapshot_selected, self.snapshots@.len())
    }

    /// The state after an up arrow in normal mode.
    pub open spec fn after_up(self) -> TuiApp {
        match self.focus {
            Focus::Configs => TuiApp {
                config_selected: nav_up(self.config_selected, self.configs@.len()),
                ..self
            },
            Focus::Snapshots => TuiApp {
                snapshot_selected: nav_up(self.snapshot_selected, self.snapshots@.len()),
                ..self
            },
        }
    }

    /// The state after a down arrow in normal mode.
    pub open spec fn after_down(self) -> TuiApp {
        match self.focus {
            Focus::Configs => TuiApp {
                config_selected: nav_down(self.config_selected, self.configs@.len()),
                ..self
            },
            Focus::Snapshots => TuiApp {
                snapshot_selected: nav_down(self.snapshot_selected, self.snapshots@.len()),
                ..self
            },
        }
    }

    /// The state after a tab: focus moves to the other list; entering a
    /// non-empty snapshot list with nothing selected selects its top.
    pub open spec fn after_switch(self) -> TuiApp {
        match self.focus {
            Focus::Configs => TuiApp {
                focus: Focus::Snapshots,
                snapshot_selected: if self.snapshots@.len() > 0 && self.snapshot_selected is None {
                    Some(0)
                } else {
                    self.snapshot_selected
                },
                ..self
            },
            Focus::Snapshots => TuiApp { focus: Focus::Configs, ..self },
        }
    }

    /// The load that showing configuration `index` asks for, if it exists.
    pub open spec fn load_action(self, index: usize) -> TuiAction {
        if index < self.configs@.len() {
            TuiAction::LoadSnapshots { config_index: index }
        } else {
            TuiAction::Nothing
        }
    }

    /// The selected snapshot and configuration, when both are in their
    /// lists.
    pub open spec fn selected_pair(self) -> Option<(usize, usize)> {
        match (self.snapshot_selected, self.config_selected) {
            (Some(s), Some(c)) => if s < self.snapshots@.len() && c < self.configs@.len() {
                Some((c, self.snapshots@[s as int].id))
            } else {
                None
            },
            _ => None,
        }
    }

    /// The screen at start: the configurations, the first one selected if
    /// there is one, focus on them, no snapshots yet.
    pub fn new(configs: Vec<Config>) -> (app: TuiApp)
        ensures
            app.configs == configs,
            app.config_selected == fresh_selection(configs@.len()),
            app.snapshots@ == Seq::<Snapshot>::empty(),
            app.snapshot_selected is None,
            app.focus == Focus::Configs,
            app.input_mode == InputMode::Normal,
            app.message is None,
            !app.should_quit,
            app.wf(),
    {
        let config_selected = if configs.len() > 0 {
            Some(0)
        } else {
            None
        };
        TuiApp {
            configs,
            config_selected,
            snapshots: Vec::new(),
            snapshot_selected: None,
            focus: Focus::Configs,
            input_mode: InputMode::Normal,
            message: None,
            should_quit: false,
        }
    }

    /// What starting the interface asks for: the snapshots of the selected
    /// configuration.
    pub fn startup_action(&self) -> (a: TuiAction)
        ensures
            a == match self.config_selected {
                Some(i) => self.load_action(i),
                None => TuiAction::Nothing,
            },
    {
        match self.config_selected {
            Some(i) => self.load_snapshots_for_config(i),
            None => TuiAction::Nothing,
        }
    }

    /// Showing configuration `index`: its snapshots are loaded if it exists.
    pub fn load_snapshots_for_config(&self, index: usize) -> (a: TuiAction)
        ensures
            a == self.load_action(index),
    {
        if index < self.configs.len() {
            TuiAction::LoadSnapshots { config_index: index }
        } else {
            TuiAction::Nothing
        }
    }

    /// The snapshots of a configuration arrived: they are shown, the first
    /// one selected.
    pub fn snapshots_loaded(&mut self, snapshots: Vec<Snapshot>)
        ensures
            *final(self) == (TuiApp {
                snapshots,
                snapshot_selected: fresh_selection(snapshots@.len()),
                ..*old(self)
            }),
            old(self).wf() ==> final(self).wf(),
    {
        let sel = if snapshots.len() > 0 {
            Some(0)
        } else {
            None
        };
        self.snapshots = snapshots;
        self.snapshot_selected = sel;
    }

    /// Up arrow.
    pub fn navigate_up(&mut self)
        ensures
            *final(self) == old(self).after_up(),
            old(self).wf() ==> final(self).wf(),
    {
        match self.focus {
            Focus::Configs => {
                self.config_selected = up(self.config_selected, self.configs.len());
            },
            Focus::Snapshots => {
                self.snapshot_selected = up(self.snapshot_selected, self.snapshots.len());
            },
        }
    }

    /// Down arrow.
    pub fn navigate_down(&mut self)
        ensures
            *final(self) == old(self).after_down(),
            old(self).wf() ==> final(self).wf(),
    {
        match self.focus {
            Focus::Configs => {
                self.config_selected = down(self.config_selected, self.configs.len());
            },
            Focus::Snapshots => {
                self.snapshot_selected = down(self.snapshot_selected, self.snapshots.len());
            },
        }
    }

    /// Tab.
    pub fn switch_focus(&mut self)
        ensures
            *final(self) == old(self).after_switch(),
            old(self).wf() ==> final(self).wf(),
    {
        match self.focus {
            Focus::Configs => {
                if self.snapshots.len() > 0 && self.snapshot_selected.is_none() {
                    self.snapshot_selected = Some(0);
                }
                self.focus = Focus::Snapshots;
            },
            Focus::Snapshots => {
                self.focus = Focus::Configs;
            },
        }
    }

    /// Creating a snapshot described `description` of the selected
    /// configuration, if one is selected.
    pub fn create_snapshot(&self, description: &str) -> (a: TuiAction)
        ensures
            match self.config_selected {
                Some(c) => if c < self.configs@.len() {
                    a matches TuiAction::CreateSnapshot { config_index, description: d }
                        && config_index == c && d@ == description@
                } else {
                    a matches TuiAction::Nothing
                },
                None => a matches TuiAction::Nothing,
            },
    {
        match self.config_selected {
            Some(c) => {
                if c < self.configs.len() {
                    TuiAction::CreateSnapshot { config_index: c, description: description.to_owned() }
                } else {
                    TuiAction::Nothing
                }
            },
            None => TuiAction::Nothing,
        }
    }

    /// Deleting the selected snapshot of the selected configuration.
    pub fn delete_selected_snapshot(&self) -> (a: TuiAction)
        ensures
            a == match self.selected_pair() {
                Some((c, id)) => TuiAction::DeleteSnapshot { config_index: c, snapshot_id: id },
                None => TuiAction::Nothing,
            },
    {
        if let Some(s) = self.snapshot_selected {
            if s < self.snapshots.len() {
                let id = self.snapshots[s].id;
                if let Some(c) = self.config_selected {
                    if c < self.configs.len() {
                        return TuiAction::DeleteSnapshot { config_index: c, snapshot_id: id };
                    }
                }
            }
        }
        TuiAction::Nothing
    }

    /// Rolling back to the selected snapshot of the selected configuration.
    pub fn rollback_selected_snapshot(&self) -> (a: TuiAction)
        ensures
            a == match self.selected_pair() {
                Some((c, id)) => TuiAction::RollbackSnapshot { config_index: c, snapshot_id: id },
                None => TuiAction::Nothing,
            },
    {
        if let Some(s) = self.snapshot_selected {
            if s < self.snapshots.len() {
                let id = self.snapshots[s].id;
                if let Some(c) = self.config_selected {
                    if c < self.configs.len() {
                        return TuiAction::RollbackSnapshot { config_index: c, snapshot_id: id };
                    }
                }
            }
        }
        TuiAction::Nothing
    }

    /// A key in normal mode: `q` quits, `c` opens the description field,
    /// `d` deletes and `r` rolls back the selected snapshot, the arrows move
    /// the selection, tab switches lists, enter shows the selected
    /// configuration's snapshots; other keys do nothing.
    pub fn handle_normal_input(&mut self, key: Key) -> (a: TuiAction)
        ensures
            old(self).wf() ==> final(self).wf(),
            normal_step(*old(self), *final(self), key, a),
    {
        match key {
            Key::Char('q') => {
                self.should_quit = true;
                TuiAction::Nothing
            },
            Key::Char('c') => {
                self.input_mode = InputMode::CreateSnapshot;
                TuiAction::ResetInput
            },
            Key::Char('d') => self.delete_selected_snapshot(),
            Key::Char('r') => {
                if let TuiAction::RollbackSnapshot { .. } = self.rollback_selected_snapshot() {
                    self.input_mode = InputMode::ConfirmRollback;
                }
                TuiAction::Nothing
            },
            Key::Up => {
                self.navigate_up();
                TuiAction::Nothing
            },
            Key::Down => {
                self.navigate_down();
                TuiAction::Nothing
            },
            Key::Tab => {
                self.switch_focus();
                TuiAction::Nothing
            },
            Key::Enter => {
                match (self.focus, self.config_selected) {
                    (Focus::Configs, Some(i)) => self.load_snapshots_for_config(i),
                    _ => TuiAction::Nothing,
                }
            },
            _ => TuiAction::Nothing,
        }
    }

    /// A key while the description field is open: enter creates the
    /// snapshot with the field's text `input_text` and closes the field,
    /// escape closes it, other keys edit it.
    pub fn handle_create_input(&mut self, key: Key, input_text: &str) -> (a: TuiAction)
        ensures
            old(self).wf() ==> final(self).wf(),
            create_step(*old(self), *final(self), key, input_text@, a),
    {
        match key {
            Key::Enter => {
                let a = self.create_snapshot(input_text);
                if let TuiAction::Nothing = a {
                    self.input_mode = InputMode::Normal;
                }
                a
            },
            Key::Esc => {
                self.input_mode = InputMode::Normal;
                TuiAction::Nothing
            },
            _ => TuiAction::EditInput,
        }
    }

    /// A key while a rollback waits for confirmation: `y` or enter asks for
    /// it, any other key cancels.
    pub fn handle_confirm_input(&mut self, key: Key) -> (a: TuiAction)
        ensures
            old(self).wf() ==> final(self).wf(),
            confirm_step(*old(self), *final(self), key, a),
    {
        let confirmed = match key {
            Key::Char('y') => true,
            Key::Enter => true,
            _ => false,
        };
        if confirmed {
            let a = self.rollback_selected_snapshot();
            if let TuiAction::Nothing = a {
                self.input_mode = InputMode::Normal;
            }
            a
        } else {
            self.input_mode = InputMode::Normal;
            TuiAction::Nothing
        }
    }

    /// A key, in whichever mode the interface is.
    pub fn handle_key(&mut self, key: Key, input_text: &str) -> (a: TuiAction)
        ensures
            old(self).wf() ==> final(self).wf(),
            old(self).input_mode == InputMode::Normal ==> normal_step(*old(self), *final(self), key, a),
            old(self).input_mode == InputMode::CreateSnapshot ==> create_step(
                *old(self),
                *final(self),
                key,
                input_text@,
                a,
            ),
            old(self).input_mode == InputMode::ConfirmRollback ==> confirm_step(
                *old(self),
                *final(self),
                key,
                a,
            ),
    {
        match self.input_mode {
            InputMode::Normal => self.handle_normal_input(key),
            InputMode::CreateSnapshot => self.handle_create_input(key, input_text),
            InputMode::ConfirmRollback => self.handle_confirm_input(key),
        }
    }

    /// A snapshot was created and the list reloaded; the description field
    /// closes.
    pub fn snapshot_created(&mut self, description: &str, snapshots: Vec<Snapshot>)
        ensures
            final(self).snapshots == snapshots,
            final(self).snapshot_selected == fresh_selection(snapshots@.len()),
            final(self).message matches Some(m) && m@ == created_text(description@),
            final(self).configs == old(self).configs,
            final(self).config_selected == old(self).config_selected,
            final(self).focus == old(self).focus,
            final(self).input_mode == InputMode::Normal,
            final(self).should_quit == old(self).should_quit,
            old(self).wf() ==> final(self).wf(),
    {
        self.snapshots_loaded(snapshots);
        self.input_mode = InputMode::Normal;
        let mut m = "✓ Snapshot created: ".to_owned();
        m.append(description);
        self.message = Some(m);
    }

    /// A snapshot was deleted and the list reloaded.
    pub fn snapshot_deleted(&mut self, snapshot_id: usize, snapshots: Vec<Snapshot>)
        ensures
            final(self).snapshots == snapshots,
            final(self).snapshot_selected == fresh_selection(snapshots@.len()),
            final(self).message matches Some(m) && m@ == deleted_text(snapshot_id as nat),
            final(self).configs == old(self).configs,
            final(self).config_selected == old(self).config_selected,
            final(self).focus == old(self).focus,
            final(self).input_mode == old(self).input_mode,
            final(self).should_quit == old(self).should_quit,
            old(self).wf() ==> final(self).wf(),
    {
        self.snapshots_loaded(snapshots);
        let mut m = "✓ Snapshot #".to_owned();
        push_decimal(&mut m, snapshot_id as u128);
        m.append(" deleted");
        self.message = Some(m);
    }

    /// A rollback finished; the question closes.
    pub fn rolled_back(&mut self, snapshot_id: usize)
        ensures
            final(self).message matches Some(m) && m@ == rolled_back_text(snapshot_id as nat),
            final(self).snapshots == old(self).snapshots,
            final(self).snapshot_selected == old(self).snapshot_selected,
            final(self).configs == old(self).configs,
            final(self).config_selected == old(self).config_selected,
            final(self).focus == old(self).focus,
            final(self).input_mode == InputMode::Normal,
            final(self).should_quit == old(self).should_quit,
            old(self).wf() ==> final(self).wf(),
    {
        self.input_mode = InputMode::Normal;
        let mut m = "✓ Rolled back to snapshot #".to_owned();
        push_decimal(&mut m, snapshot_id as u128);
        m.append(". Please reboot.");
        self.message = Some(m);
    }
}

/// Up then down, or down then up, returns a selection in its list to where
/// it was.
pub proof fn lemma_navigation_inverse(i: usize, len: nat)
    requires
        i < len <= usize::MAX,
    ensures
        nav_up(nav_down(Some(i), len), len) == Some(i),
        nav_down(nav_up(Some(i), len), len) == Some(i),
{
}

/// The selection after `k` down arrows in a list of `len` entries.
pub open spec fn downs(sel: Option<usize>, len: nat, k: nat) -> Option<usize>
    decreases k,
{
    if k == 0 {
        sel
    } else {
        nav_down(downs(sel, len, (k - 1) as nat), len)
    }
}

/// The selection after `k` up arrows in a list of `len` entries.
pub open spec fn ups(sel: Option<usize>, len: nat, k: nat) -> Option<usize>
    decreases k,
{
    if k == 0 {
        sel
    } else {
        nav_up(ups(sel, len, (k - 1) as nat), len)
    }
}

proof fn lemma_mod_step(x: int, len: int)
    requires
        len > 0,
    ensures
        (x + 1) % len == if x % len + 1 == len { 0 } else { x % len + 1 },
        (x - 1) % len == if x % len == 0 { len - 1 } else { x % len - 1 },
{
    let m = x % len;
    vstd::arithmetic::div_mod::lemma_add_mod_noop(x, 1, len);
    vstd::arithmetic::div_mod::lemma_sub_mod_noop(x, 1, len);
    if len == 1 {
        assert(1int % 1 == 0);
        assert(m == 0);
        assert((x + 1) % 1 == 0);
        assert((x - 1) % 1 == 0);
    } else {
        vstd::arithmetic::div_mod::lemma_small_mod(1, len as nat);
        if m + 1 < len {
            vstd::arithmetic::div_mod::lemma_small_mod((m + 1) as nat, len as nat);
        } else {
            vstd::arithmetic::div_mod::lemma_mod_self_0(len);
        }
        if m >= 1 {
            vstd::arithmetic::div_mod::lemma_small_mod((m - 1) as nat, len as nat);
        } else {
            vstd::arithmetic::div_mod::lemma_mod_add_multiples_vanish(-1, len);
            vstd::arithmetic::div_mod::lemma_small_mod((len - 1) as nat, len as nat);
        }
    }
}

proof fn lemma_navigation_steps(i: usize, len: nat, k: nat)
    requires
        i < len <= usize::MAX,
    ensures
        downs(Some(i), len, k) == Some(((i + k) % (len as int)) as usize),
        ups(Some(i), len, k) == Some(((i - k) % (len as int)) as usize),
    decreases k,
{
    let l = len as int;
    if k == 0 {
        vstd::arithmetic::div_mod::lemma_small_mod(i as nat, len);
    } else {
        lemma_navigation_steps(i, len, (k - 1) as nat);
        lemma_mod_step(i + k - 1, l);
        assert(i + k - 1 + 1 == i + k);
        assert(i - (k - 1) - 1 == i - k);
        lemma_mod_step(i - (k - 1), l);
    }
}

/// The arrows cycle through a list: `k` down arrows from entry `i` select
/// entry `(i + k) mod len`, `k` up arrows entry `(i - k) mod len`, and
/// `len` arrows either way come back to `i`.
pub proof fn lemma_navigation_cycle(i: usize, len: nat, k: nat)
    requires
        i < len <= usize::MAX,
    ensures
        downs(Some(i), len, k) == Some(((i + k) % (len as int)) as usize),
        ups(Some(i), len, k) == Some(((i - k) % (len as int)) as usize),
        downs(Some(i), len, len) == Some(i),
        ups(Some(i), len, len) == Some(i),
{
    let l = len as int;
    lemma_navigation_steps(i, len, k);
    lemma_navigation_steps(i, len, len);
    vstd::arithmetic::div_mod::lemma_small_mod(i as nat, len);
    vstd::arithmetic::div_mod::lemma_mod_add_multiples_vanish(i as int, l);
    vstd::arithmetic::div_mod::lemma_mod_add_multiples_vanish(i - l, l);
    assert(l + (i - l) == i);
    assert(l + i == i + l);
}

/// Arrow keys keep a selection of a non-empty list inside it.
pub proof fn lemma_navigation_in_range(sel: Option<usize>, len: nat)
    requires
        len > 0,
        selection_ok(sel, len),
    ensures
        nav_up(sel, len) matches Some(j) && j < len,
        nav_down(sel, len) matches Some(j) && j < len,
{
}

/// Two tabs bring the focus back; from the configuration list, the second
/// tab changes nothing but the focus.
pub proof fn lemma_switch_twice(app: TuiApp)
    ensures
        app.after_switch().after_switch().focus == app.focus,
        app.focus == Focus::Configs ==> app.after_switch().after_switch() == (TuiApp {
            focus: Focus::Configs,
            ..app.after_switch()
        }),
{
}

/// An up arrow moves the selection of the focused list one entry towards
/// the top: entry `i > 0` to `i - 1`, the top entry to the bottom one,
/// nothing selected to the top. The other list, the focus and everything
/// else stay as they were.
pub proof fn lemma_up_moves_towards_top(app: TuiApp)
    ensures
        ({
            let after = app.after_up();
            let (sel, len, new_sel) = match app.focus {
                Focus::Configs => (app.config_selected, app.configs@.len(), after.config_selected),
                Focus::Snapshots => (app.snapshot_selected, app.snapshots@.len(), after.snapshot_selected),
            };
            &&& (sel is Some && sel->0 > 0 ==> new_sel == Some((sel->0 - 1) as usize))
            &&& (sel == Some(0usize) && len > 0 ==> new_sel == Some((len - 1) as usize))
            &&& (sel == Some(0usize) && len == 0 ==> new_sel == Some(0usize))
            &&& (sel is None ==> new_sel == Some(0usize))
            &&& after.focus == app.focus
            &&& after.configs == app.configs
            &&& after.snapshots == app.snapshots
            &&& after.input_mode == app.input_mode
            &&& after.message == app.message
            &&& after.should_quit == app.should_quit
            &&& (app.focus == Focus::Configs ==> after.snapshot_selected == app.snapshot_selected)
            &&& (app.focus == Focus::Snapshots ==> after.config_selected == app.config_selected)
        }),
{
}

/// A down arrow moves the selection of the focused list one entry towards
/// the bottom: entry `i` to `i + 1` while that is in the list, the bottom
/// entry to the top one, nothing selected to the top. The other list, the
/// focus and everything else stay as they were.
pub proof fn lemma_down_moves_towards_bottom(app: TuiApp)
    ensures
        ({
            let after = app.after_down();
            let (sel, len, new_sel) = match app.focus {
                Focus::Configs => (app.config_selected, app.configs@.len(), after.config_selected),
                Focus::Snapshots => (app.snapshot_selected, app.snapshots@.len(), after.snapshot_selected),
            };
            &&& (sel is Some && sel->0 + 1 < len ==> new_sel == Some((sel->0 + 1) as usize))
            &&& (sel is Some && sel->0 + 1 >= len ==> new_sel == Some(0usize))
            &&& (sel is None ==> new_sel == Some(0usize))
            &&& after.focus == app.focus
            &&& after.configs == app.configs
            &&& after.snapshots == app.snapshots
            &&& after.input_mode == app.input_mode
            &&& after.message == app.message
            &&& after.should_quit == app.should_quit
            &&& (app.focus == Focus::Configs ==> after.snapshot_selected == app.snapshot_selected)
            &&& (app.focus == Focus::Snapshots ==> after.config_selected == app.config_selected)
        }),
{
}

/// On either list, an up arrow after a down arrow, or a down arrow after an
/// up arrow, brings back a selection that points into the list.
pub proof fn lemma_arrows_undo_each_other(app: TuiApp)
    requires
        match app.focus {
            Focus::Configs => app.config_selected matches Some(i) && i < app.configs@.len(),
            Focus::Snapshots => app.snapshot_selected matches Some(i) && i < app.snapshots@.len(),
        },
    ensures
        app.after_down().after_up() == app,
        app.after_up().after_down() == app,
{
    match app.focus {
        Focus::Configs => {
            assert(app.configs@.len() == app.configs.len());
            lemma_navigation_inverse(app.config_selected->0, app.configs@.len());
            assert(app.after_down().after_up() == app);
            assert(app.after_up().after_down() == app);
        },
        Focus::Snapshots => {
            assert(app.snapshots@.len() == app.snapshots.len());
            lemma_navigation_inverse(app.snapshot_selected->0, app.snapshots@.len());
            assert(app.after_down().after_up() == app);
            assert(app.after_up().after_down() == app);
        },
    }
}

/// Enter on the configuration list asks for the snapshots of exactly the
/// selected configuration, when it is in the list; showing configuration
/// `index` asks for that configuration's snapshots and no other.
pub proof fn lemma_enter_loads_selected_config(before: TuiApp, after: TuiApp, a: TuiAction, index: usize)
    ensures
        index < before.configs@.len() ==> before.load_action(index) == (TuiAction::LoadSnapshots {
            config_index: index,
        }),
        index >= before.configs@.len() ==> before.load_action(index) == TuiAction::Nothing,
        normal_step(before, after, Key::Enter, a) && before.focus == Focus::Configs
            && before.config_selected == Some(index) && index < before.configs@.len() ==> (a
            == (TuiAction::LoadSnapshots { config_index: index }) && after == before),
{
}

/// Enter in the description field of a selected configuration asks to
/// create a snapshot of that configuration with the field's text as its
/// description, whatever the text, the empty text included; the field
/// stays open.
pub proof fn lemma_enter_creates_with_any_description(
    before: TuiApp,
    after: TuiApp,
    input: Seq<char>,
    a: TuiAction,
    c: usize,
)
    requires
        create_step(before, after, Key::Enter, input, a),
        before.config_selected == Some(c),
        c < before.configs@.len(),
    ensures
        a matches TuiAction::CreateSnapshot { config_index, description } && config_index == c
            && description@ == input,
        after == before,
{
}

/// Tab from the configuration list moves the focus to the snapshots and
/// keeps the snapshot that was selected; only when none was selected is
/// the top of a non-empty list selected. Tab from the snapshot list
/// changes nothing but the focus.
pub proof fn lemma_tab_keeps_snapshot_selection(app: TuiApp)
    ensures
        app.focus == Focus::Configs ==> app.after_switch().focus == Focus::Snapshots,
        app.focus == Focus::Configs && app.snapshot_selected is Some ==> app.after_switch()
            == (TuiApp { focus: Focus::Snapshots, ..app }),
        app.focus == Focus::Configs && app.snapshot_selected is None && app.snapshots@.len() > 0
            ==> app.after_switch().snapshot_selected == Some(0usize),
        app.focus == Focus::Configs && app.snapshot_selected is None && app.snapshots@.len() == 0
            ==> app.after_switch().snapshot_selected is None,
        app.focus == Focus::Snapshots ==> app.after_switch() == (TuiApp {
            focus: Focus::Configs,
            ..app
        }),
{
}

/// What the keys of normal mode do, told by the entries they act on: the
/// arrows move the focused selection by one entry (up towards the top,
/// down towards the bottom), tab from the configurations keeps the
/// snapshot selection, enter on configuration `i` loads configuration
/// `i`, and `d` deletes the selected snapshot of the selected
/// configuration, by its id.
pub proof fn lemma_normal_keys_act_on_selection(before: TuiApp, after: TuiApp, key: Key, a: TuiAction)
    requires
        normal_step(before, after, key, a),
    ensures
        key == Key::Up && before.focus == Focus::Snapshots && before.snapshot_selected is Some
            && before.snapshot_selected->0 > 0 ==> after.snapshot_selected == Some(
            (before.snapshot_selected->0 - 1) as usize,
        ),
        key == Key::Up && before.focus == Focus::Configs && before.config_selected is Some
            && before.config_selected->0 > 0 ==> after.config_selected == Some(
            (before.config_selected->0 - 1) as usize,
        ),
        key == Key::Down && before.focus == Focus::Snapshots && before.snapshot_selected is Some
            && before.snapshot_selected->0 + 1 < before.snapshots@.len() ==> after.snapshot_selected
            == Some((before.snapshot_selected->0 + 1) as usize),
        key == Key::Down && before.focus == Focus::Configs && before.config_selected is Some
            && before.config_selected->0 + 1 < before.configs@.len() ==> after.config_selected
            == Some((before.config_selected->0 + 1) as usize),
        (key == Key::Up || key == Key::Down) ==> a == TuiAction::Nothing && after.focus
            == before.focus,
        key == Key::Tab && before.focus == Focus::Configs && before.snapshot_selected is Some
            ==> after.snapshot_selected == before.snapshot_selected && after.focus
            == Focus::Snapshots,
        key == Key::Enter && before.focus == Focus::Configs && before.config_selected is Some
            && before.config_selected->0 < before.configs@.len() ==> a == (TuiAction::LoadSnapshots {
            config_index: before.config_selected->0,
        }),
        key == Key::Char('d') && before.snapshot_selected is Some && before.config_selected is Some
            && before.snapshot_selected->0 < before.snapshots@.len()
            && before.config_selected->0 < before.configs@.len() ==> a == (TuiAction::DeleteSnapshot {
            config_index: before.config_selected->0,
            snapshot_id: before.snapshots@[before.snapshot_selected->0 as int].id,
        }),
{
    lemma_up_moves_towards_top(before);
    lemma_down_moves_towards_bottom(before);
    lemma_tab_keeps_snapshot_selection(before);
}

/// Confirming a waiting rollback asks to roll back the selected snapshot
/// of the selected configuration, by its id; any key that does not
/// confirm asks for nothing and ends the question.
pub proof fn lemma_confirm_rolls_back_selection(before: TuiApp, after: TuiApp, key: Key, a: TuiAction)
    requires
        confirm_step(before, after, key, a),
    ensures
        (key == Key::Char('y') || key == Key::Enter) && before.snapshot_selected is Some
            && before.config_selected is Some && before.snapshot_selected->0 < before.snapshots@.len()
            && before.config_selected->0 < before.configs@.len() ==> a == (TuiAction::RollbackSnapshot {
            config_index: before.config_selected->0,
            snapshot_id: before.snapshots@[before.snapshot_selected->0 as int].id,
        }),
        !(key == Key::Char('y') || key == Key::Enter) ==> a == TuiAction::Nothing
            && after.input_mode == InputMode::Normal,
{
}

/// A list that has just been loaded has its top entry selected, or nothing
/// when it is empty; the selection then points into the list.
pub proof fn lemma_loaded_list_selects_top(len: nat)
    ensures
        len > 0 ==> fresh_selection(len) == Some(0usize),
        len == 0 ==> fresh_selection(len) is None,
        selection_ok(fresh_selection(len), len),
{
}

} // verus!
