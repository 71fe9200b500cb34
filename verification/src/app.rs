//! The application state and the key intents that drive it.
//!
//! The state is one value, an [`App`]. A front end reads a key, turns it into
//! an [`Intent`], and hands it to [`App::handle_intent`], which performs one
//! transition. The transitions are written down twice: as specification
//! functions on [`AppModel`], which say what each intent does in each mode,
//! and as the executable methods of [`App`], which are proved to do exactly
//! that.

use crate::input::{InputBuffer, InputField, InputMode, InputModel};
use crate::csv_io::{csv_bytes, csv_records};
use crate::persist::{fault_text, first_fault, load, loaded_store, save, table_of, LoadError};
use crate::series::SeriesModel;
use crate::selection::{
    clamp_row, next_row, previous_row, row_after_delete, select_next_row, select_previous_row,
    selection_fits,
};
use crate::series::{inserted, DataSeries, StoreError};
use crate::status::{Status, StatusModel};
use crate::store::{Store, StoreModel};
use vstd::prelude::*;

verus! {

/// The view that the program shows.
#[derive(Clone, Copy, Debug, PartialEq, Eq, Structural)]
pub enum ViewMode {
    Graph,
    Table,
    Menu,
    Help,
}

/// The answer that is highlighted while a deletion waits to be confirmed.
#[derive(Clone, Copy, Debug, PartialEq, Eq, Structural)]
pub enum ConfirmChoice {
    Delete,
    Cancel,
}

/// Whether a deletion waits to be confirmed, and the highlighted answer.
#[derive(Clone, Copy, Debug, PartialEq, Eq, Structural)]
pub struct ConfirmState {
    pub pending: bool,
    pub choice: ConfirmChoice,
}

/// A key press, as far as the program tells keys apart.
#[derive(Clone, Copy, Debug, PartialEq, Eq, Structural)]
pub enum Intent {
    /// A character key.
    Char(char),
    Backspace,
    /// The tab key: cycle.
    Cycle,
    /// The enter key: commit or confirm.
    Commit,
    Escape,
    Left,
    Right,
    Up,
    Down,
    /// Any other key.
    Other,
}

/// The whole state of the program.
pub struct App {
    mode: ViewMode,
    store: Store,
    input_mode: InputMode,
    input: InputBuffer,
    status: Status,
    selected_row: Option<usize>,
    confirm: ConfirmState,
    exit: bool,
}

/// What the state of the program is, to a specification.
pub struct AppModel {
    pub mode: ViewMode,
    pub store: StoreModel,
    pub input_mode: InputMode,
    pub input: InputModel,
    pub status: StatusModel,
    pub selected_row: Option<usize>,
    pub confirm: ConfirmState,
    pub exit: bool,
}

/// The other answer.
pub open spec fn other_choice(choice: ConfirmChoice) -> ConfirmChoice {
    match choice {
        ConfirmChoice::Delete => ConfirmChoice::Cancel,
        ConfirmChoice::Cancel => ConfirmChoice::Delete,
    }
}

impl AppModel {
    /// The store is well formed, the fields hold field texts, the selected
    /// row is a row of the selected series, a deletion waits only in the
    /// table view and only for a selected row, and a point is typed in only
    /// in the graph view.
    pub open spec fn wf(self) -> bool {
        &&& self.store.wf()
        &&& self.input.wf()
        &&& selection_fits(self.selected_row, self.store.active().points.len())
        &&& self.confirm.pending ==> self.mode == ViewMode::Table && self.selected_row is Some
        &&& self.input_mode == InputMode::Insert ==> self.mode == ViewMode::Graph
    }

    /// The state in which a program with the given store starts: the graph
    /// view, nothing being typed, nothing selected, nothing to confirm.
    pub open spec fn starting(store: StoreModel, status: StatusModel) -> AppModel {
        AppModel {
            mode: ViewMode::Graph,
            store,
            input_mode: InputMode::Normal,
            input: InputModel::cleared(),
            status,
            selected_row: None,
            confirm: ConfirmState { pending: false, choice: ConfirmChoice::Delete },
            exit: false,
        }
    }

    /// The state with another view.
    pub open spec fn switched(self, mode: ViewMode) -> AppModel {
        AppModel { mode, ..self }
    }

    /// The state with the exit flag set.
    pub open spec fn quitting(self) -> AppModel {
        AppModel { exit: true, ..self }
    }

    /// The state with other field contents.
    pub open spec fn with_input(self, input: InputModel) -> AppModel {
        AppModel { input, ..self }
    }

    /// The state with another selected row.
    pub open spec fn with_row(self, selected_row: Option<usize>) -> AppModel {
        AppModel { selected_row, ..self }
    }

    /// The state with another confirmation state.
    pub open spec fn with_confirm(self, confirm: ConfirmState) -> AppModel {
        AppModel { confirm, ..self }
    }

    /// Entering a point begins: both fields empty, the X field active, the
    /// status cleared.
    pub open spec fn insert_started(self) -> AppModel {
        AppModel {
            input_mode: InputMode::Insert,
            input: InputModel::cleared(),
            status: StatusModel::Idle,
            ..self
        }
    }

    /// Entering a point is given up: both fields empty, the status cleared.
    pub open spec fn insert_cancelled(self) -> AppModel {
        AppModel {
            input_mode: InputMode::Normal,
            input: InputModel::cleared(),
            status: StatusModel::Idle,
            ..self
        }
    }

    /// The two fields are committed. Where both hold a number, the point
    /// goes into the selected series, the fields are emptied, entering ends
    /// and the status reports the point. Where one does not, only the status
    /// changes: it reports the error.
    pub open spec fn committed(self) -> AppModel {
        match self.input.point() {
            Some(p) => AppModel {
                store: self.store.with_points(
                    self.store.selected as int,
                    inserted(self.store.active().points, p),
                ),
                input_mode: InputMode::Normal,
                input: InputModel::cleared(),
                status: StatusModel::Inserted(p),
                ..self
            },
            None => AppModel { status: StatusModel::InvalidInput, ..self },
        }
    }

    /// The selection moves to the next row of the selected series.
    pub open spec fn moved_next(self) -> AppModel {
        self.with_row(next_row(self.selected_row, self.store.active().points.len()))
    }

    /// The selection moves to the previous row of the selected series.
    pub open spec fn moved_previous(self) -> AppModel {
        self.with_row(previous_row(self.selected_row, self.store.active().points.len()))
    }

    /// A deletion is asked for: where a row is selected it now waits to be
    /// confirmed, with `Delete` highlighted; where none is, nothing changes.
    pub open spec fn delete_requested(self) -> AppModel {
        if self.selected_row is Some {
            self.with_confirm(ConfirmState { pending: true, choice: ConfirmChoice::Delete })
        } else {
            self
        }
    }

    /// The highlighted answer is set.
    pub open spec fn chosen(self, choice: ConfirmChoice) -> AppModel {
        self.with_confirm(ConfirmState { choice, ..self.confirm })
    }

    /// The confirmation is left without deleting.
    pub open spec fn confirm_closed(self) -> AppModel {
        self.with_confirm(ConfirmState { pending: false, ..self.confirm })
    }

    /// The highlighted answer is confirmed. Where it is `Delete` and the
    /// selected row exists, the row leaves the selected series and the
    /// selection is fitted to the rows that are left. In every case the
    /// confirmation is over.
    pub open spec fn confirmed(self) -> AppModel {
        let points = self.store.active().points;
        match self.selected_row {
            Some(row) if self.confirm.choice == ConfirmChoice::Delete && row < points.len() =>
            AppModel {
                store: self.store.with_points(self.store.selected as int, points.remove(row as int)),
                selected_row: row_after_delete(Some(row), (points.len() - 1) as nat),
                ..self.confirm_closed()
            },
            _ => self.confirm_closed(),
        }
    }

    /// What an intent does in the graph view.
    pub open spec fn graph_step(self, intent: Intent) -> AppModel {
        match self.input_mode {
            InputMode::Normal => match intent {
                Intent::Char(c) => if c == 'q' {
                    self.quitting()
                } else if c == 'h' {
                    self.switched(ViewMode::Help)
                } else if c == 'm' {
                    self.switched(ViewMode::Menu)
                } else if c == 't' {
                    self.switched(ViewMode::Table)
                } else if c == 'i' {
                    self.insert_started()
                } else {
                    self
                },
                Intent::Escape => self.switched(ViewMode::Menu),
                _ => self,
            },
            InputMode::Insert => match intent {
                Intent::Char(c) => self.with_input(self.input.typed(c)),
                Intent::Backspace => self.with_input(self.input.erased()),
                Intent::Cycle => self.with_input(self.input.cycled()),
                Intent::Commit => self.committed(),
                Intent::Left => self.with_input(self.input.focused(InputField::X)),
                Intent::Right => self.with_input(self.input.focused(InputField::Y)),
                Intent::Escape => self.insert_cancelled(),
                _ => self,
            },
        }
    }

    /// What an intent does in the table view.
    pub open spec fn table_step(self, intent: Intent) -> AppModel {
        if self.confirm.pending {
            match intent {
                Intent::Escape => self.confirm_closed(),
                Intent::Left => self.chosen(ConfirmChoice::Delete),
                Intent::Right => self.chosen(ConfirmChoice::Cancel),
                Intent::Cycle => self.chosen(other_choice(self.confirm.choice)),
                Intent::Commit => self.confirmed(),
                _ => self,
            }
        } else {
            match intent {
                Intent::Char(c) => if c == 'q' {
                    self.quitting()
                } else if c == 'g' {
                    self.switched(ViewMode::Graph)
                } else if c == 'm' {
                    self.switched(ViewMode::Menu)
                } else if c == 'h' {
                    self.switched(ViewMode::Help)
                } else if c == 'k' {
                    self.moved_previous()
                } else if c == 'j' {
                    self.moved_next()
                } else if c == 'd' {
                    self.delete_requested()
                } else {
                    self
                },
                Intent::Up => self.moved_previous(),
                Intent::Down => self.moved_next(),
                Intent::Escape => self.switched(ViewMode::Menu),
                _ => self,
            }
        }
    }

    /// What an intent does in the help view.
    pub open spec fn help_step(self, intent: Intent) -> AppModel {
        match intent {
            Intent::Char(c) => if c == 'q' {
                self.quitting()
            } else if c == 'g' {
                self.switched(ViewMode::Graph)
            } else if c == 'm' {
                self.switched(ViewMode::Menu)
            } else if c == 't' {
                self.switched(ViewMode::Table)
            } else {
                self
            },
            Intent::Escape => self.switched(ViewMode::Menu),
            _ => self,
        }
    }

    /// What an intent does in the menu.
    pub open spec fn menu_step(self, intent: Intent) -> AppModel {
        match intent {
            Intent::Char(c) => if c == 'q' {
                self.quitting()
            } else if c == 'g' {
                self.switched(ViewMode::Graph)
            } else if c == 't' {
                self.switched(ViewMode::Table)
            } else if c == 'h' {
                self.switched(ViewMode::Help)
            } else {
                self
            },
            _ => self,
        }
    }

    /// What an intent does: the step of the view that is shown.
    pub open spec fn step(self, intent: Intent) -> AppModel {
        match self.mode {
            ViewMode::Graph => self.graph_step(intent),
            ViewMode::Table => self.table_step(intent),
            ViewMode::Menu => self.menu_step(intent),
            ViewMode::Help => self.help_step(intent),
        }
    }
}

// ---------------------------------------------------------------------------
// Laws of the transitions
// ---------------------------------------------------------------------------

/// The state after a sequence of intents, handled one after the other.
pub open spec fn run(start: AppModel, intents: Seq<Intent>) -> AppModel
    decreases intents.len(),
{
    if intents.len() == 0 {
        start
    } else {
        run(start, intents.drop_last()).step(intents.last())
    }
}

/// A step leads from a well-formed state to a well-formed state. In
/// particular every series stays in ascending order of x.
pub proof fn lemma_step_keeps_wf(a: AppModel, intent: Intent)
    requires
        a.wf(),
    ensures
        a.step(intent).wf(),
{
    let b = a.step(intent);
    let points = a.store.active().points;
    if a.mode == ViewMode::Graph && a.input_mode == InputMode::Insert && intent == Intent::Commit {
        match a.input.point() {
            Some(p) => {
                crate::series::lemma_inserted_sorted(points, p);
                assert(b.store.wf());
            },
            None => {},
        }
    }
    if a.mode == ViewMode::Table && a.confirm.pending && intent == Intent::Commit {
        match a.selected_row {
            Some(row) => {
                if a.confirm.choice == ConfirmChoice::Delete {
                    crate::series::lemma_remove_sorted(points, row as int);
                    assert(b.store.wf());
                }
            },
            None => {},
        }
    }
}

/// Whatever intents arrive, and in whatever order, the state stays
/// well formed.
pub proof fn lemma_run_keeps_wf(start: AppModel, intents: Seq<Intent>)
    requires
        start.wf(),
    ensures
        run(start, intents).wf(),
    decreases intents.len(),
{
    if intents.len() > 0 {
        lemma_run_keeps_wf(start, intents.drop_last());
        lemma_step_keeps_wf(run(start, intents.drop_last()), intents.last());
    }
}

/// A commit with a field that holds no number, an empty one included,
/// leaves the store, the fields and the insert mode as they are and reports
/// the error.
pub proof fn lemma_failed_commit_changes_only_status(a: AppModel)
    requires
        a.mode == ViewMode::Graph,
        a.input_mode == InputMode::Insert,
        crate::decimal::parse_decimal(a.input.x_text) is None || crate::decimal::parse_decimal(
            a.input.y_text,
        ) is None,
    ensures
        a.step(Intent::Commit) == (AppModel { status: StatusModel::InvalidInput, ..a }),
        a.step(Intent::Commit).store == a.store,
        a.step(Intent::Commit).input_mode == InputMode::Insert,
{
}

/// Asking for a deletion, moving the highlight to `Cancel` and confirming
/// leaves the store as it was and ends the confirmation.
pub proof fn lemma_cancelled_delete_keeps_store(a: AppModel, to_cancel: Intent)
    requires
        a.wf(),
        a.mode == ViewMode::Table,
        !a.confirm.pending,
        to_cancel == Intent::Cycle || to_cancel == Intent::Right,
    ensures
        a.step(Intent::Char('d')).step(to_cancel).step(Intent::Commit).store == a.store,
        !a.step(Intent::Char('d')).step(to_cancel).step(Intent::Commit).confirm.pending,
        a.step(Intent::Char('d')).step(to_cancel).step(Intent::Commit).selected_row
            == a.selected_row,
{
}

/// Deleting the only point of the selected series leaves the series empty
/// and the selection unset; after that no move of the selection changes the
/// state, and the bounds of the series are one and one.
pub proof fn lemma_delete_only_point(a: AppModel, bounds: (crate::Decimal, crate::Decimal))
    requires
        a.wf(),
        a.mode == ViewMode::Table,
        a.confirm.pending,
        a.confirm.choice == ConfirmChoice::Delete,
        a.store.active().points.len() == 1,
        crate::series::are_bounds(a.step(Intent::Commit).store.active().points, bounds),
    ensures
        a.step(Intent::Commit).store.active().points.len() == 0,
        a.step(Intent::Commit).selected_row is None,
        a.step(Intent::Commit).step(Intent::Up) == a.step(Intent::Commit),
        a.step(Intent::Commit).step(Intent::Down) == a.step(Intent::Commit),
        a.step(Intent::Commit).step(Intent::Char('k')) == a.step(Intent::Commit),
        a.step(Intent::Commit).step(Intent::Char('j')) == a.step(Intent::Commit),
        bounds.0.units == 10000 && bounds.1.units == 10000,
{
}

impl View for App {
    type V = AppModel;

    closed spec fn view(&self) -> AppModel {
        AppModel {
            mode: self.mode,
            store: self.store@,
            input_mode: self.input_mode,
            input: self.input@,
            status: self.status@,
            selected_row: self.selected_row,
            confirm: self.confirm,
            exit: self.exit,
        }
    }
}

impl App {
    /// The state is well formed; see [`AppModel::wf`].
    pub open spec fn wf(&self) -> bool {
        self@.wf()
    }

    /// The state of a program that starts with the given store and status.
    fn starting(store: Store, status: Status) -> (app: App)
        requires
            store.wf(),
        ensures
            app@ == AppModel::starting(store@, status@),
            app.wf(),
    {
        App {
            mode: ViewMode::Graph,
            store,
            input_mode: InputMode::Normal,
            input: InputBuffer::new(),
            status,
            selected_row: None,
            confirm: ConfirmState { pending: false, choice: ConfirmChoice::Delete },
            exit: false,
        }
    }

    /// The state of a program without stored data: the default series, the
    /// graph view, nothing to report.
    pub fn new() -> (app: App)
        ensures
            app@ == AppModel::starting(StoreModel::fresh(), StatusModel::Idle),
            app.wf(),
    {
        App::starting(Store::new(), Status::Idle)
    }

    /// The state of a program that starts with the given store.
    pub fn with_store(store: Store) -> (app: App)
        requires
            store.wf(),
        ensures
            app@ == AppModel::starting(store@, StatusModel::Idle),
            app.wf(),
    {
        App::starting(store, Status::Idle)
    }

    /// The state of a program whose stored data could not be loaded: the
    /// default series, and the reason in the status.
    pub fn after_load_failure(reason: String) -> (app: App)
        ensures
            app@ == AppModel::starting(StoreModel::fresh(), StatusModel::LoadFailed(reason@)),
            app.wf(),
    {
        App::starting(Store::new(), Status::LoadFailed(reason))
    }

    /// The state of a program after its attempt to load the stored data: the
    /// loaded store, or the default series with the error in the status.
    pub fn from_load(outcome: Result<Store, LoadError>) -> (app: App)
        requires
            outcome matches Ok(store) ==> store.wf(),
        ensures
            app.wf(),
            match outcome {
                Ok(store) => app@ == AppModel::starting(store@, StatusModel::Idle),
                Err(LoadError::Malformed(reason)) => app@ == AppModel::starting(
                    StoreModel::fresh(),
                    StatusModel::LoadFailed(reason@),
                ),
                Err(LoadError::BadRow { row, fault }) => app@ == AppModel::starting(
                    StoreModel::fresh(),
                    StatusModel::LoadFailed(fault_text(fault)),
                ),
            },
    {
        match outcome {
            Ok(store) => App::with_store(store),
            Err(e) => App::after_load_failure(e.message()),
        }
    }

    /// The state in which the program starts, given what reading the data
    /// file gave: its bytes, or the reason why it could not be read. Stored
    /// data that cannot be read or loaded does not stop the program: it
    /// starts with the default series and the reason in the status.
    pub fn startup(contents: Result<Vec<u8>, String>) -> (app: App)
        ensures
            app.wf(),
            match contents {
                Err(reason) => app@ == AppModel::starting(
                    StoreModel::fresh(),
                    StatusModel::LoadFailed(reason@),
                ),
                Ok(bytes) => match csv_records(bytes@) {
                    None => app@.status is LoadFailed && app@ == AppModel::starting(
                        StoreModel::fresh(),
                        app@.status,
                    ),
                    Some(rows) => match first_fault(rows) {
                        None => app@ == AppModel::starting(loaded_store(rows), StatusModel::Idle),
                        Some(found) => app@ == AppModel::starting(
                            StoreModel::fresh(),
                            StatusModel::LoadFailed(fault_text(found.1)),
                        ),
                    },
                },
            },
    {
        match contents {
            Ok(bytes) => App::from_load(load(bytes.as_slice())),
            Err(reason) => App::after_load_failure(reason),
        }
    }

    /// The bytes of the data file for the present store, or the writer's
    /// message where it reports an error.
    pub fn save(&self) -> (r: Result<Vec<u8>, String>)
        ensures
            match csv_bytes(table_of(self@.store)) {
                Some(bytes) => r matches Ok(out) && out@ == bytes,
                None => r is Err,
            },
    {
        save(&self.store)
    }

    /// Records that the data could not be stored: the reason goes into the
    /// status and nothing else changes.
    pub fn save_failed(&mut self, reason: String)
        requires
            old(self).wf(),
        ensures
            final(self)@ == (AppModel { status: StatusModel::SaveFailed(reason@), ..old(self)@ }),
            final(self).wf(),
    {
        self.status = Status::SaveFailed(reason);
    }

    /// Selects another series. The row selection and a pending deletion
    /// belong to the series that was selected and are dropped.
    pub fn select_series(&mut self, index: usize) -> (r: Result<(), StoreError>)
        requires
            old(self).wf(),
        ensures
            final(self).wf(),
            match r {
                Ok(_) => index < old(self)@.store.series.len() && final(self)@ == (AppModel {
                    store: StoreModel { selected: index as nat, ..old(self)@.store },
                    selected_row: None,
                    confirm: ConfirmState { pending: false, ..old(self)@.confirm },
                    ..old(self)@
                }),
                Err(e) => index >= old(self)@.store.series.len() && e
                    == StoreError::IndexOutOfRange && final(self)@ == old(self)@,
            },
    {
        match self.store.select(index) {
            Ok(_) => {
                self.selected_row = None;
                self.confirm.pending = false;
                Ok(())
            },
            Err(e) => Err(e),
        }
    }

    /// Adds an empty series under the given name behind the others.
    pub fn add_series(&mut self, name: String)
        requires
            old(self).wf(),
        ensures
            final(self).wf(),
            final(self)@ == (AppModel {
                store: StoreModel {
                    series: old(self)@.store.series.push(
                        SeriesModel { name: name@, points: Seq::empty() },
                    ),
                    ..old(self)@.store
                },
                ..old(self)@
            }),
    {
        self.store.add_series(name);
    }

    /// The view that is shown.
    pub fn mode(&self) -> (mode: ViewMode)
        ensures
            mode == self@.mode,
    {
        self.mode
    }

    /// The store.
    pub fn store(&self) -> (store: &Store)
        ensures
            store@ == self@.store,
    {
        &self.store
    }

    /// The selected series.
    pub fn active_series(&self) -> (series: &DataSeries)
        requires
            self.wf(),
        ensures
            series@ == self@.store.active(),
    {
        self.store.active()
    }

    /// Whether a point is being typed in.
    pub fn input_mode(&self) -> (input_mode: InputMode)
        ensures
            input_mode == self@.input_mode,
    {
        self.input_mode
    }

    /// The two entry fields.
    pub fn input(&self) -> (input: &InputBuffer)
        ensures
            input@ == self@.input,
    {
        &self.input
    }

    /// What the status line has to say.
    pub fn status(&self) -> (status: &Status)
        ensures
            status@ == self@.status,
    {
        &self.status
    }

    /// The selected row of the table, if any.
    pub fn selected_row(&self) -> (row: Option<usize>)
        ensures
            row == self@.selected_row,
    {
        self.selected_row
    }

    /// Whether a deletion waits to be confirmed, and the highlighted answer.
    pub fn confirm(&self) -> (confirm: ConfirmState)
        ensures
            confirm == self@.confirm,
    {
        self.confirm
    }

    /// Whether the program is to end.
    pub fn should_exit(&self) -> (exit: bool)
        ensures
            exit == self@.exit,
    {
        self.exit
    }

    /// Moves the selection to the next row, from the last row to the first.
    pub fn select_next(&mut self)
        requires
            old(self).wf(),
        ensures
            final(self)@ == old(self)@.moved_next(),
            final(self).wf(),
    {
        let len = self.store.active().len();
        self.selected_row = select_next_row(self.selected_row, len);
    }

    /// Moves the selection to the previous row, from the first row to the
    /// last.
    pub fn select_previous(&mut self)
        requires
            old(self).wf(),
        ensures
            final(self)@ == old(self)@.moved_previous(),
            final(self).wf(),
    {
        let len = self.store.active().len();
        self.selected_row = select_previous_row(self.selected_row, len);
    }

    /// Highlights the other answer of the confirmation.
    pub fn cycle_confirm_idx(&mut self)
        requires
            old(self).wf(),
        ensures
            final(self)@ == old(self)@.chosen(other_choice(old(self)@.confirm.choice)),
            final(self).wf(),
    {
        self.confirm.choice =
        match self.confirm.choice {
            ConfirmChoice::Delete => ConfirmChoice::Cancel,
            ConfirmChoice::Cancel => ConfirmChoice::Delete,
        };
    }

    /// Makes the other field active.
    pub fn cycle_field(&mut self)
        requires
            old(self).wf(),
        ensures
            final(self)@ == old(self)@.with_input(old(self)@.input.cycled()),
            final(self).wf(),
    {
        self.input.cycle_field();
    }

    /// Commits the two fields: adds the point they stand for to the selected
    /// series, or reports that they do not stand for one.
    pub fn try_insert_point(&mut self)
        requires
            old(self).wf(),
        ensures
            final(self)@ == old(self)@.committed(),
            final(self).wf(),
    {
        match self.input.parse() {
            Some(p) => {
                let index = self.store.selected_index();
                let _ = self.store.insert_point(index, p.x, p.y);
                self.input_mode = InputMode::Normal;
                self.input.clear();
                self.status = Status::Inserted(p);
                proof {
                    crate::series::lemma_inserted_sorted(old(self)@.store.active().points, p);
                }
            },
            None => {
                self.status = Status::InvalidInput;
            },
        }
    }

    /// Confirms the highlighted answer of a pending deletion.
    pub fn confirm_delete(&mut self)
        requires
            old(self).wf(),
        ensures
            final(self)@ == old(self)@.confirmed(),
            final(self).wf(),
    {
        self.confirm.pending = false;
        match (self.confirm.choice, self.selected_row) {
            (ConfirmChoice::Delete, Some(row)) => {
                let index = self.store.selected_index();
                match self.store.delete_point(index, row) {
                    Ok(_) => {
                        let len = self.store.active().len();
                        self.selected_row = clamp_row(Some(row), len);
                    },
                    Err(_) => {},
                }
            },
            _ => {},
        }
    }

    /// Handles an intent in the graph view.
    pub fn handle_graph_input(&mut self, intent: Intent)
        requires
            old(self).wf(),
            old(self)@.mode == ViewMode::Graph,
        ensures
            final(self)@ == old(self)@.graph_step(intent),
            final(self).wf(),
    {
        match self.input_mode {
            InputMode::Normal => match intent {
                Intent::Char('q') => self.exit = true,
                Intent::Char('h') => self.mode = ViewMode::Help,
                Intent::Char('m') => self.mode = ViewMode::Menu,
                Intent::Char('t') => self.mode = ViewMode::Table,
                Intent::Char('i') => {
                    self.input_mode = InputMode::Insert;
                    self.input.clear();
                    self.status = Status::Idle;
                },
                Intent::Escape => self.mode = ViewMode::Menu,
                _ => {},
            },
            InputMode::Insert => match intent {
                Intent::Char(c) => self.input.push_char(c),
                Intent::Backspace => self.input.backspace(),
                Intent::Cycle => self.cycle_field(),
                Intent::Commit => self.try_insert_point(),
                Intent::Left => self.input.focus(InputField::X),
                Intent::Right => self.input.focus(InputField::Y),
                Intent::Escape => {
                    self.input_mode = InputMode::Normal;
                    self.input.clear();
                    self.status = Status::Idle;
                },
                _ => {},
            },
        }
    }

    /// Handles an intent in the table view.
    pub fn handle_table_input(&mut self, intent: Intent)
        requires
            old(self).wf(),
            old(self)@.mode == ViewMode::Table,
        ensures
            final(self)@ == old(self)@.table_step(intent),
            final(self).wf(),
    {
        if self.confirm.pending {
            match intent {
                Intent::Escape => self.confirm.pending = false,
                Intent::Left => self.confirm.choice = ConfirmChoice::Delete,
                Intent::Right => self.confirm.choice = ConfirmChoice::Cancel,
                Intent::Cycle => self.cycle_confirm_idx(),
                Intent::Commit => self.confirm_delete(),
                _ => {},
            }
        } else {
            match intent {
                Intent::Char('q') => self.exit = true,
                Intent::Char('g') => self.mode = ViewMode::Graph,
                Intent::Char('m') => self.mode = ViewMode::Menu,
                Intent::Char('h') => self.mode = ViewMode::Help,
                Intent::Up | Intent::Char('k') => self.select_previous(),
                Intent::Down | Intent::Char('j') => self.select_next(),
                Intent::Char('d') => {
                    if self.selected_row.is_some() {
                        self.confirm = ConfirmState { pending: true, choice: ConfirmChoice::Delete };
                    }
                },
                Intent::Escape => self.mode = ViewMode::Menu,
                _ => {},
            }
        }
    }

    /// Handles an intent in the help view.
    pub fn handle_help_input(&mut self, intent: Intent)
        requires
            old(self).wf(),
            old(self)@.mode == ViewMode::Help,
        ensures
            final(self)@ == old(self)@.help_step(intent),
            final(self).wf(),
    {
        match intent {
            Intent::Char('q') => self.exit = true,
            Intent::Char('g') => self.mode = ViewMode::Graph,
            Intent::Char('m') => self.mode = ViewMode::Menu,
            Intent::Char('t') => self.mode = ViewMode::Table,
            Intent::Escape => self.mode = ViewMode::Menu,
            _ => {},
        }
    }

    /// Handles an intent in the menu.
    pub fn handle_menu_input(&mut self, intent: Intent)
        requires
            old(self).wf(),
            old(self)@.mode == ViewMode::Menu,
        ensures
            final(self)@ == old(self)@.menu_step(intent),
            final(self).wf(),
    {
        match intent {
            Intent::Char('q') => self.exit = true,
            Intent::Char('g') => self.mode = ViewMode::Graph,
            Intent::Char('t') => self.mode = ViewMode::Table,
            Intent::Char('h') => self.mode = ViewMode::Help,
            _ => {},
        }
    }

    /// Handles an intent: one step of the view that is shown.
    pub fn handle_intent(&mut self, intent: Intent)
        requires
            old(self).wf(),
        ensures
            final(self)@ == old(self)@.step(intent),
            final(self).wf(),
    {
        match self.mode {
            ViewMode::Graph => self.handle_graph_input(intent),
            ViewMode::Table => self.handle_table_input(intent),
            ViewMode::Menu => self.handle_menu_input(intent),
            ViewMode::Help => self.handle_help_input(intent),
        }
    }
}

} // verus!
