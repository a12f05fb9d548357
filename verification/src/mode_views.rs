//! The grid and the explorer: which mode is shown, what its pane holds, and how both
//! follow the browser.
use vstd::prelude::*;

use crate::listing::SourceIndexMap;
use crate::modes::{BrowserDensity, BrowserMode, ClickActivation, DEFAULT_GRID_THUMBNAIL_SIZE};
use crate::pane::{
    last_position, ColumnSnapshot, PanePage, PaneState, PaneView, Splice,
};
use crate::selection::{ascending, is_selected_source, pane_selection, SectionSelection};
use crate::type_groups::label_views;

verus! {

/// A rename that the user is typing.
#[derive(Debug)]
pub struct ActiveRename {
    pub display_name: String,
    /// The field takes input.
    pub sensitive: bool,
    /// Why the last attempt failed.
    pub error: Option<String>,
}

/// A rename as a value.
pub ghost struct RenameView {
    pub display_name: Seq<char>,
    pub sensitive: bool,
    pub error: Option<Seq<char>>,
}

impl View for ActiveRename {
    type V = RenameView;

    open spec fn view(&self) -> RenameView {
        RenameView {
            display_name: self.display_name@,
            sensitive: self.sensitive,
            error: match self.error {
                Some(message) => Some(message@),
                None => None,
            },
        }
    }
}

/// The state of the grid and the explorer.
#[derive(Debug)]
pub struct ModeViews {
    pub mode: BrowserMode,
    /// The mode whose page is shown.
    pub page: BrowserMode,
    pub density: BrowserDensity,
    pub group_by_type: bool,
    pub single_click_previews: bool,
    pub grid_click_activation: ClickActivation,
    pub explorer_click_activation: ClickActivation,
    pub grid_thumbnail_size: i32,
    /// The locations that are cut, by number.
    pub cut_locations: Vec<u64>,
    pub active_rename: Option<ActiveRename>,
    /// A new entry that the user is typing; `true` for a directory.
    pub active_new_entry: Option<bool>,
    pub grid_pane: Option<PaneState>,
    pub explorer_pane: Option<PaneState>,
}

/// The state of the grid and the explorer as a value.
pub ghost struct ModesView {
    pub mode: BrowserMode,
    pub page: BrowserMode,
    pub density: BrowserDensity,
    pub group_by_type: bool,
    pub previews: bool,
    pub grid_activation: ClickActivation,
    pub explorer_activation: ClickActivation,
    pub thumbnail_size: i32,
    pub cuts: Seq<u64>,
    pub rename: Option<RenameView>,
    pub new_entry: Option<bool>,
    pub grid: Option<PaneView>,
    pub explorer: Option<PaneView>,
}

impl View for ModeViews {
    type V = ModesView;

    open spec fn view(&self) -> ModesView {
        ModesView {
            mode: self.mode,
            page: self.page,
            density: self.density,
            group_by_type: self.group_by_type,
            previews: self.single_click_previews,
            grid_activation: self.grid_click_activation,
            explorer_activation: self.explorer_click_activation,
            thumbnail_size: self.grid_thumbnail_size,
            cuts: self.cut_locations@,
            rename: match self.active_rename {
                Some(rename) => Some(rename@),
                None => None,
            },
            new_entry: self.active_new_entry,
            grid: pane_view(self.grid_pane),
            explorer: pane_view(self.explorer_pane),
        }
    }
}

/// A pane that may be missing, as a value.
pub open spec fn pane_view(pane: Option<PaneState>) -> Option<PaneView> {
    match pane {
        Some(pane) => Some(pane@),
        None => None,
    }
}

/// What the browser says of its active column.
#[derive(Debug)]
pub struct BrowserState {
    pub active_depth: Option<usize>,
    pub snapshot: Option<ColumnSnapshot>,
}

/// News from the browser.
#[derive(Debug)]
pub enum BrowserEvent {
    Reset,
    ColumnsTruncated,
    ColumnAdded { depth: usize },
    EntriesInserted { depth: usize, insertions: Vec<Splice> },
    EntriesReplaced { depth: usize, count: usize, values: Vec<String> },
    EntriesPublished { depth: usize, published: Vec<Splice> },
    SortingStarted { depth: usize },
    SortingFinished { depth: usize },
    EntriesSpliced { depth: usize, splices: Vec<Splice> },
    ColumnReloaded { depth: usize },
    LoadFinished { depth: usize, truncated: bool },
    LoadFailed { depth: usize, message: String },
    SelectionSetChanged { depth: usize, positions: Vec<usize>, take_focus: bool },
    FocusChanged { depth: usize, position: Option<usize> },
    RenameCompleted,
    RenameFailed { message: String },
    Other,
}

/// What building a pane anew asks for on screen.
#[derive(Debug, PartialEq, Eq)]
pub struct Rebuild {
    /// The current pane was built anew or is gone.
    pub rebuilt: bool,
    /// Select these entries of the current pane and no others.
    pub select: Option<Vec<usize>>,
    /// Scroll to this entry of the current pane.
    pub scroll_to: Option<usize>,
}

impl Rebuild {
    /// Nothing was built.
    pub open spec fn is_nothing(self) -> bool {
        !self.rebuilt && self.select is None && self.scroll_to is None
    }

    /// This is what a rebuild in `mode` from `browser` asks for: if there is a pane to build,
    /// its selection is that of the snapshot, and the last of it is scrolled to.
    pub open spec fn follows(self, mode: BrowserMode, browser: BrowserState) -> bool {
        if mode == BrowserMode::Columns || !rebuilds(browser) {
            self.is_nothing()
        } else {
            &&& self.rebuilt
            &&& match (browser.active_depth, browser.snapshot) {
                (Some(_), Some(snapshot)) => {
                    &&& self.select matches Some(positions) && positions@ == snapshot.selected@
                    &&& self.scroll_to == last_position(snapshot.selected@)
                },
                _ => self.select is None && self.scroll_to is None,
            }
        }
    }
}

/// What has to be done on screen beside showing the state.
#[derive(Debug)]
pub struct HandleEffect {
    /// The current pane was built anew or is gone.
    pub rebuilt: bool,
    /// The entries of the current pane changed: bring its groups up to date.
    pub sync_groups: bool,
    /// Select these entries of the current pane and no others.
    pub select: Option<Vec<usize>>,
    /// Scroll to this entry of the current pane.
    pub scroll_to: Option<usize>,
    /// Give the current pane the focus.
    pub focus_pane: bool,
    /// Give the field of the rename the focus.
    pub focus_rename: bool,
}

/// The column that an event is about.
pub open spec fn event_depth(event: BrowserEvent) -> Option<usize> {
    match event {
        BrowserEvent::EntriesInserted { depth, .. }
        | BrowserEvent::EntriesReplaced { depth, .. }
        | BrowserEvent::EntriesPublished { depth, .. }
        | BrowserEvent::SortingStarted { depth }
        | BrowserEvent::SortingFinished { depth }
        | BrowserEvent::EntriesSpliced { depth, .. }
        | BrowserEvent::ColumnReloaded { depth }
        | BrowserEvent::LoadFinished { depth, .. }
        | BrowserEvent::LoadFailed { depth, .. }
        | BrowserEvent::SelectionSetChanged { depth, .. }
        | BrowserEvent::FocusChanged { depth, .. } => Some(depth),
        _ => None,
    }
}

/// What an event makes of the pane of its column.
pub open spec fn pane_after(pane: PaneView, event: BrowserEvent) -> PaneView {
    match event {
        BrowserEvent::EntriesInserted { insertions, .. } => pane.extended(insertions@),
        BrowserEvent::EntriesReplaced { count, values, .. } => pane.received(
            count,
            label_views(values@),
        ),
        BrowserEvent::EntriesPublished { published, .. } => pane.extended(published@),
        BrowserEvent::SortingStarted { .. } => pane.sorting_begun(),
        BrowserEvent::SortingFinished { .. } => pane.sorting_ended(),
        BrowserEvent::EntriesSpliced { splices, .. } => pane.changed(splices@),
        BrowserEvent::ColumnReloaded { .. } => pane.reloading(),
        BrowserEvent::LoadFinished { truncated, .. } => pane.loaded(truncated),
        BrowserEvent::LoadFailed { message, .. } => pane.failed(message@),
        _ => pane,
    }
}

/// Whether an event changes the entries of the pane of its column.
pub open spec fn changes_entries(event: BrowserEvent) -> bool {
    event is EntriesInserted || event is EntriesReplaced || event is EntriesPublished
        || event is EntriesSpliced || event is ColumnReloaded || event is LoadFinished
}

/// Whether an event is about the columns themselves.
pub open spec fn changes_columns(event: BrowserEvent) -> bool {
    event is Reset || event is ColumnsTruncated || event is ColumnAdded
}

/// The pane that a rebuild leads to: none without an active column, the present one if the
/// active column says nothing.
pub open spec fn rebuilt_pane(pane: Option<PaneView>, browser: BrowserState) -> Option<PaneView> {
    match browser.active_depth {
        None => None,
        Some(_) => match browser.snapshot {
            None => pane,
            Some(snapshot) => Some(PaneView::built(snapshot)),
        },
    }
}

/// Whether a rebuild does anything.
pub open spec fn rebuilds(browser: BrowserState) -> bool {
    browser.active_depth is None || browser.snapshot is Some
}

impl ModesView {
    /// The pane of the current mode.
    pub open spec fn current(self) -> Option<PaneView> {
        match self.mode {
            BrowserMode::Columns => None,
            BrowserMode::Grid => self.grid,
            BrowserMode::Explorer => self.explorer,
        }
    }

    /// The state with another pane in the current mode.
    pub open spec fn with_current(self, pane: Option<PaneView>) -> ModesView {
        match self.mode {
            BrowserMode::Columns => self,
            BrowserMode::Grid => ModesView { grid: pane, ..self },
            BrowserMode::Explorer => ModesView { explorer: pane, ..self },
        }
    }

    /// Whether the current pane shows the column at `depth`.
    pub open spec fn shows(self, depth: usize) -> bool {
        self.current() matches Some(pane) && pane.depth == depth
    }

    /// The state without a new entry.
    pub open spec fn new_entry_cancelled(self) -> ModesView {
        match self.new_entry {
            None => self,
            Some(_) => ModesView {
                new_entry: None,
                ..self.with_current(
                    match self.current() {
                        Some(pane) => Some(pane.creation_ended()),
                        None => None,
                    },
                )
            },
        }
    }

    /// The state with a row for a new entry in the column at `depth`, if that is shown.
    pub open spec fn row_opened(self, depth: usize, is_directory: bool) -> ModesView {
        if self.shows(depth) {
            self.with_current(
                Some(
                    PaneView {
                        creating: true,
                        creates_directory: is_directory,
                        page: PanePage::Content,
                        ..self.current()->0
                    },
                ),
            )
        } else {
            self
        }
    }

    /// The state without a row for a new entry.
    pub open spec fn row_dropped(self) -> ModesView {
        match self.current() {
            Some(pane) => self.with_current(Some(PaneView { creating: false, ..pane })),
            None => self,
        }
    }

    /// The state without a rename.
    pub open spec fn rename_cancelled(self) -> ModesView {
        ModesView { rename: None, ..self }
    }

    /// The state with the current pane built anew.
    pub open spec fn rebuilt(self, browser: BrowserState) -> ModesView {
        self.with_current(rebuilt_pane(self.current(), browser))
    }

    /// The state after an event.
    pub open spec fn handled(self, event: BrowserEvent, browser: BrowserState) -> ModesView {
        match event {
            BrowserEvent::Reset => ModesView {
                grid: None,
                explorer: None,
                ..self.new_entry_cancelled()
            },
            BrowserEvent::ColumnsTruncated => self.new_entry_cancelled().rebuilt(browser),
            BrowserEvent::ColumnAdded { depth } => if browser.active_depth == Some(depth) {
                self.new_entry_cancelled().rebuilt(browser)
            } else {
                self.new_entry_cancelled()
            },
            BrowserEvent::RenameCompleted => self.rename_cancelled(),
            BrowserEvent::RenameFailed { message } => ModesView {
                rename: match self.rename {
                    Some(rename) => Some(
                        RenameView { sensitive: true, error: Some(message@), ..rename },
                    ),
                    None => None,
                },
                ..self
            },
            _ => match event_depth(event) {
                Some(depth) => if self.shows(depth) {
                    self.with_current(Some(pane_after(self.current()->0, event)))
                } else {
                    self
                },
                None => self,
            },
        }
    }

    /// Whether `effect` is what an event asks for.
    pub open spec fn asks_for(
        self,
        event: BrowserEvent,
        browser: BrowserState,
        effect: HandleEffect,
    ) -> bool {
        let shown = event_depth(event) matches Some(depth) && self.shows(depth);
        let rebuild = Rebuild {
            rebuilt: effect.rebuilt,
            select: effect.select,
            scroll_to: effect.scroll_to,
        };
        &&& match event {
            BrowserEvent::Reset => effect.rebuilt && effect.select is None
                && effect.scroll_to is None,
            BrowserEvent::ColumnsTruncated => rebuild.follows(self.mode, browser),
            BrowserEvent::ColumnAdded { depth } => if browser.active_depth == Some(depth) {
                rebuild.follows(self.mode, browser)
            } else {
                rebuild.is_nothing()
            },
            BrowserEvent::SelectionSetChanged { positions: wanted, .. } => if shown {
                &&& !effect.rebuilt
                &&& effect.select matches Some(positions) && positions@ == wanted@
                &&& effect.scroll_to is None
            } else {
                rebuild.is_nothing()
            },
            BrowserEvent::FocusChanged { position, .. } => if shown {
                &&& !effect.rebuilt
                &&& effect.select matches Some(positions) && positions@ == match position {
                    Some(position) => seq![position],
                    None => Seq::empty(),
                }
                &&& effect.scroll_to is None
            } else {
                rebuild.is_nothing()
            },
            _ => rebuild.is_nothing(),
        }
        &&& effect.sync_groups == (shown && changes_entries(event))
        &&& effect.focus_pane == match event {
            BrowserEvent::SelectionSetChanged { take_focus, .. } => shown && take_focus,
            BrowserEvent::FocusChanged { .. } => shown,
            _ => false,
        }
        &&& effect.focus_rename == (event is RenameFailed && self.rename is Some)
    }
}

/// Where the keyboard focus is.
#[derive(Clone, Copy, Debug, PartialEq, Eq, Structural)]
pub enum FocusPlace {
    GridFilter,
    GridItems,
    ExplorerFilter,
    ExplorerItems,
    Elsewhere,
}

/// What became of a new entry that was submitted.
#[derive(Clone, Copy, Debug, PartialEq, Eq, Structural)]
pub enum NewEntrySubmission {
    /// Nothing: the field belongs to no new entry.
    Ignored,
    /// The name is not valid: give the field the focus again.
    Refocus,
    CreateDirectory,
    CreateFile,
}

/// What became of a rename that was submitted.
#[derive(Clone, Copy, Debug, PartialEq, Eq, Structural)]
pub enum RenameSubmission {
    /// The name is the old one: nothing to ask for.
    Unchanged,
    /// Ask for the new name; the field takes no input meanwhile.
    Rename,
}

fn update_pane(pane: &mut PaneState, event: &BrowserEvent)
    ensures
        final(pane)@ == pane_after(old(pane)@, *event),
{
    match event {
        BrowserEvent::EntriesInserted { insertions, .. } => pane.extend_entries(insertions),
        BrowserEvent::EntriesReplaced { count, values, .. } => pane.receive_entries(
            *count,
            values,
        ),
        BrowserEvent::EntriesPublished { published, .. } => pane.extend_entries(published),
        BrowserEvent::SortingStarted { .. } => pane.begin_sorting(),
        BrowserEvent::SortingFinished { .. } => pane.end_sorting(),
        BrowserEvent::EntriesSpliced { splices, .. } => pane.change_entries(splices),
        BrowserEvent::ColumnReloaded { .. } => pane.reload(),
        BrowserEvent::LoadFinished { truncated, .. } => pane.finish_load(*truncated),
        BrowserEvent::LoadFailed { message, .. } => pane.fail_load(message),
        _ => {},
    }
}

fn depth_of(event: &BrowserEvent) -> (depth: Option<usize>)
    ensures
        depth == event_depth(*event),
{
    match event {
        BrowserEvent::EntriesInserted { depth, .. } => Some(*depth),
        BrowserEvent::EntriesReplaced { depth, .. } => Some(*depth),
        BrowserEvent::EntriesPublished { depth, .. } => Some(*depth),
        BrowserEvent::SortingStarted { depth } => Some(*depth),
        BrowserEvent::SortingFinished { depth } => Some(*depth),
        BrowserEvent::EntriesSpliced { depth, .. } => Some(*depth),
        BrowserEvent::ColumnReloaded { depth } => Some(*depth),
        BrowserEvent::LoadFinished { depth, .. } => Some(*depth),
        BrowserEvent::LoadFailed { depth, .. } => Some(*depth),
        BrowserEvent::SelectionSetChanged { depth, .. } => Some(*depth),
        BrowserEvent::FocusChanged { depth, .. } => Some(*depth),
        _ => None,
    }
}

/// Ends the new entry of a pane, if there is a pane.
fn end_creation_in(pane: &mut Option<PaneState>)
    ensures
        pane_view(*final(pane)) == match pane_view(*old(pane)) {
            Some(before) => Some(before.creation_ended()),
            None => None,
        },
{
    if let Some(pane) = pane {
        pane.end_creation();
    }
}

/// Opens a row for a new entry, if there is a pane and it shows the column at `depth`.
fn begin_creation_in(pane: &mut Option<PaneState>, depth: usize, is_directory: bool) -> (begun: bool)
    ensures
        begun == (pane_view(*old(pane)) matches Some(before) && before.depth == depth),
        pane_view(*final(pane)) == if begun {
            Some(
                PaneView {
                    creating: true,
                    creates_directory: is_directory,
                    page: PanePage::Content,
                    ..pane_view(*old(pane))->0
                },
            )
        } else {
            pane_view(*old(pane))
        },
{
    match pane {
        Some(pane) => {
            if pane.depth != depth {
                return false;
            }
            pane.begin_creation(is_directory);
            true
        },
        None => false,
    }
}

/// Takes the row for a new entry away, if there is a pane.
fn hide_creation_in(pane: &mut Option<PaneState>)
    ensures
        pane_view(*final(pane)) == match pane_view(*old(pane)) {
            Some(before) => Some(PaneView { creating: false, ..before }),
            None => None,
        },
{
    if let Some(pane) = pane {
        pane.creating = false;
    }
}

/// Opens the filter, if there is a pane.
fn open_filter_in(pane: &mut Option<PaneState>) -> (opened: bool)
    ensures
        opened == (pane_view(*old(pane)) is Some),
        pane_view(*final(pane)) == match pane_view(*old(pane)) {
            Some(before) => Some(PaneView { filter_open: true, ..before }),
            None => None,
        },
{
    match pane {
        Some(pane) => {
            pane.filter_open = true;
            true
        },
        None => false,
    }
}

fn no_rebuild() -> (rebuild: Rebuild)
    ensures
        rebuild.is_nothing(),
{
    Rebuild { rebuilt: false, select: None, scroll_to: None }
}

fn rebuild_effect(rebuild: Rebuild) -> (effect: HandleEffect)
    ensures
        effect.rebuilt == rebuild.rebuilt,
        effect.select == rebuild.select,
        effect.scroll_to == rebuild.scroll_to,
        !effect.sync_groups,
        !effect.focus_pane,
        !effect.focus_rename,
{
    HandleEffect {
        rebuilt: rebuild.rebuilt,
        sync_groups: false,
        select: rebuild.select,
        scroll_to: rebuild.scroll_to,
        focus_pane: false,
        focus_rename: false,
    }
}

fn no_effect() -> (effect: HandleEffect)
    ensures
        !effect.rebuilt,
        !effect.sync_groups,
        effect.select is None,
        effect.scroll_to is None,
        !effect.focus_pane,
        !effect.focus_rename,
{
    HandleEffect {
        rebuilt: false,
        sync_groups: false,
        select: None,
        scroll_to: None,
        focus_pane: false,
        focus_rename: false,
    }
}

impl ModeViews {
    /// The columns are shown, and there is no pane.
    pub fn new() -> (views: Self)
        ensures
            views@ == (ModesView {
                mode: BrowserMode::Columns,
                page: BrowserMode::Columns,
                density: BrowserDensity::Compact,
                group_by_type: false,
                previews: true,
                grid_activation: ClickActivation::initial(BrowserMode::Grid),
                explorer_activation: ClickActivation::initial(BrowserMode::Explorer),
                thumbnail_size: DEFAULT_GRID_THUMBNAIL_SIZE,
                cuts: Seq::empty(),
                rename: None,
                new_entry: None,
                grid: None,
                explorer: None,
            }),
    {
        let views = ModeViews {
            mode: BrowserMode::Columns,
            page: BrowserMode::Columns,
            density: BrowserDensity::Compact,
            group_by_type: false,
            single_click_previews: true,
            grid_click_activation: ClickActivation::default_for(BrowserMode::Grid),
            explorer_click_activation: ClickActivation::default_for(BrowserMode::Explorer),
            grid_thumbnail_size: DEFAULT_GRID_THUMBNAIL_SIZE,
            cut_locations: Vec::new(),
            active_rename: None,
            active_new_entry: None,
            grid_pane: None,
            explorer_pane: None,
        };
        assert(views@.cuts =~= Seq::<u64>::empty());
        views
    }

    /// The name of the page that is shown.
    pub fn widget(&self) -> (page: &'static str)
        ensures
            page@ == self@.page.page(),
    {
        self.page.page_name()
    }

    pub fn mode(&self) -> (mode: BrowserMode)
        ensures
            mode == self@.mode,
    {
        self.mode
    }

    fn current_pane(&self) -> (pane: Option<&PaneState>)
        ensures
            match pane {
                Some(found) => self@.current() == Some(found@),
                None => self@.current() is None,
            },
    {
        match self.mode {
            BrowserMode::Columns => None,
            BrowserMode::Grid => match &self.grid_pane {
                Some(pane) => Some(pane),
                None => None,
            },
            BrowserMode::Explorer => match &self.explorer_pane {
                Some(pane) => Some(pane),
                None => None,
            },
        }
    }

    /// The depth of the column in the pane nearest the window's start edge.
    pub fn leading_depth(&self) -> (depth: Option<usize>)
        ensures
            depth == match self@.current() {
                Some(pane) => Some(pane.depth),
                None => None,
            },
    {
        match self.current_pane() {
            Some(pane) => Some(pane.depth),
            None => None,
        }
    }

    /// The selection of the current pane: its column, and the positions of the selected
    /// entries in order, as far as they are in the list.
    pub fn selected_positions(&self, map: &SourceIndexMap, sections: &[SectionSelection]) -> (selected:
        Option<(usize, Vec<usize>)>)
        ensures
            selected is Some <==> self@.current() is Some,
            selected matches Some((depth, positions)) ==> {
                &&& depth == self@.current()->0.depth
                &&& ascending(positions@)
                &&& forall|p: usize| #[trigger]
                    positions@.contains(p) <==> is_selected_source(map@, sections@, p)
            },
    {
        match self.current_pane() {
            Some(pane) => Some((pane.depth, pane_selection(map, sections))),
            None => None,
        }
    }

    /// Whether the current pane shows the column at `depth`.
    pub fn shows_depth(&self, depth: usize) -> (shown: bool)
        ensures
            shown == self@.shows(depth),
    {
        match self.current_pane() {
            Some(pane) => pane.depth == depth,
            None => false,
        }
    }

    pub fn set_show_hidden(&mut self, show_hidden: bool)
        ensures
            final(self)@ == (ModesView {
                grid: match old(self)@.grid {
                    Some(pane) => Some(PaneView { show_hidden, ..pane }),
                    None => None,
                },
                explorer: match old(self)@.explorer {
                    Some(pane) => Some(PaneView { show_hidden, ..pane }),
                    None => None,
                },
                ..old(self)@
            }),
    {
        if let Some(pane) = &mut self.grid_pane {
            pane.show_hidden = show_hidden;
        }
        if let Some(pane) = &mut self.explorer_pane {
            pane.show_hidden = show_hidden;
        }
    }

    pub fn rename_is_active(&self) -> (active: bool)
        ensures
            active == (self@.rename is Some),
    {
        self.active_rename.is_some()
    }

    pub fn new_entry_is_active(&self) -> (active: bool)
        ensures
            active == (self@.new_entry is Some),
    {
        self.active_new_entry.is_some()
    }

    fn end_creation(&mut self)
        ensures
            final(self)@ == old(self)@.with_current(
                match old(self)@.current() {
                    Some(pane) => Some(pane.creation_ended()),
                    None => None,
                },
            ),
    {
        match self.mode {
            BrowserMode::Columns => {},
            BrowserMode::Grid => end_creation_in(&mut self.grid_pane),
            BrowserMode::Explorer => end_creation_in(&mut self.explorer_pane),
        }
    }

    /// Gives a new entry up; `false` if there is none.
    pub fn cancel_new_entry(&mut self) -> (cancelled: bool)
        ensures
            cancelled == (old(self)@.new_entry is Some),
            final(self)@ == old(self)@.new_entry_cancelled(),
    {
        if self.active_new_entry.is_none() {
            return false;
        }
        let ghost before = self@;
        self.active_new_entry = None;
        let ghost cleared = self@;
        assert(cleared == ModesView { new_entry: None, ..before });
        assert(cleared.current() == before.current());
        self.end_creation();
        true
    }

    fn open_row(&mut self, depth: usize, is_directory: bool) -> (opened: bool)
        ensures
            opened == old(self)@.shows(depth),
            final(self)@ == old(self)@.row_opened(depth, is_directory),
    {
        match self.mode {
            BrowserMode::Columns => false,
            BrowserMode::Grid => begin_creation_in(&mut self.grid_pane, depth, is_directory),
            BrowserMode::Explorer => begin_creation_in(
                &mut self.explorer_pane,
                depth,
                is_directory,
            ),
        }
    }

    /// Opens a row for a new entry in the column at `depth`; `false` if that is not shown.
    /// The row becomes active once it is on screen.
    pub fn begin_new_entry(&mut self, depth: usize, is_directory: bool) -> (begun: bool)
        ensures
            begun == old(self)@.shows(depth),
            final(self)@ == old(self)@.new_entry_cancelled().rename_cancelled().row_opened(
                depth,
                is_directory,
            ),
    {
        let _cancelled = self.cancel_new_entry();
        let _renamed = self.cancel_rename();
        assert(self@.shows(depth) == old(self)@.shows(depth));
        self.open_row(depth, is_directory)
    }

    /// The row for a new entry is on screen.
    pub fn place_new_entry(&mut self, is_directory: bool)
        ensures
            final(self)@ == (ModesView { new_entry: Some(is_directory), ..old(self)@ }),
    {
        self.active_new_entry = Some(is_directory);
    }

    /// The row for a new entry could not be found on screen.
    pub fn drop_new_entry_row(&mut self)
        ensures
            final(self)@ == old(self)@.row_dropped(),
    {
        match self.mode {
            BrowserMode::Columns => {},
            BrowserMode::Grid => hide_creation_in(&mut self.grid_pane),
            BrowserMode::Explorer => hide_creation_in(&mut self.explorer_pane),
        }
    }

    /// Submits a new entry from a field, which may belong to it or not, with a name that is
    /// valid or not.
    pub fn submit_mode_new_entry(&mut self, owns_field: bool, valid: bool) -> (submission:
        NewEntrySubmission)
        ensures
            submission == match old(self)@.new_entry {
                Some(is_directory) if owns_field => if !valid {
                    NewEntrySubmission::Refocus
                } else if is_directory {
                    NewEntrySubmission::CreateDirectory
                } else {
                    NewEntrySubmission::CreateFile
                },
                _ => NewEntrySubmission::Ignored,
            },
            final(self)@ == if owns_field && valid {
                old(self)@.new_entry_cancelled()
            } else {
                old(self)@
            },
    {
        let is_directory: bool = match self.active_new_entry {
            Some(is_directory) => is_directory,
            None => return NewEntrySubmission::Ignored,
        };
        if !owns_field {
            return NewEntrySubmission::Ignored;
        }
        if !valid {
            return NewEntrySubmission::Refocus;
        }
        let _cancelled = self.cancel_new_entry();
        if is_directory {
            NewEntrySubmission::CreateDirectory
        } else {
            NewEntrySubmission::CreateFile
        }
    }

    /// Gives a rename up; `false` if there is none.
    pub fn cancel_rename(&mut self) -> (cancelled: bool)
        ensures
            cancelled == (old(self)@.rename is Some),
            final(self)@ == old(self)@.rename_cancelled(),
    {
        if self.active_rename.is_none() {
            return false;
        }
        self.active_rename = None;
        true
    }

    /// Begins to rename an entry of the column at `depth`, if that is shown and the entry's
    /// row is on screen.
    pub fn begin_rename(&mut self, depth: usize, display_name: &String, row_found: bool) -> (begun:
        bool)
        ensures
            begun == (old(self)@.shows(depth) && row_found),
            final(self)@ == (ModesView {
                rename: if begun {
                    Some(
                        RenameView { display_name: display_name@, sensitive: true, error: None },
                    )
                } else {
                    None
                },
                ..old(self)@
            }),
    {
        let _cancelled = self.cancel_rename();
        if !self.shows_depth(depth) || !row_found {
            return false;
        }
        self.active_rename = Some(
            ActiveRename { display_name: display_name.clone(), sensitive: true, error: None },
        );
        true
    }

    /// Submits the name in the field of an entry that is called `display_name`. The old name
    /// ends the rename, if there still is one. Another name is asked for in any case, and the
    /// field takes no input until there is an answer; `owns_field` says whether it is the
    /// field of the rename.
    pub fn submit_rename(&mut self, display_name: &String, name: &String, owns_field: bool) -> (
    submission: RenameSubmission)
        ensures
            submission == if name@ == display_name@ {
                RenameSubmission::Unchanged
            } else {
                RenameSubmission::Rename
            },
            final(self)@ == if name@ == display_name@ {
                old(self)@.rename_cancelled()
            } else {
                ModesView {
                    rename: match old(self)@.rename {
                        Some(rename) => if owns_field {
                            Some(RenameView { sensitive: false, ..rename })
                        } else {
                            Some(rename)
                        },
                        None => None,
                    },
                    ..old(self)@
                }
            },
    {
        if *name == *display_name {
            self.active_rename = None;
            return RenameSubmission::Unchanged;
        }
        if owns_field {
            if let Some(rename) = &mut self.active_rename {
                rename.sensitive = false;
            }
        }
        RenameSubmission::Rename
    }

    /// Whether the filter of a pane has the focus.
    pub fn filter_has_focus(&self, focus: FocusPlace) -> (focused: bool)
        ensures
            focused == (focus == FocusPlace::GridFilter && self@.grid is Some || focus
                == FocusPlace::ExplorerFilter && self@.explorer is Some),
    {
        (focus == FocusPlace::GridFilter && self.grid_pane.is_some()) || (focus
            == FocusPlace::ExplorerFilter && self.explorer_pane.is_some())
    }

    /// Whether the items of a pane have the focus.
    pub fn item_view_has_focus(&self, focus: FocusPlace) -> (focused: bool)
        ensures
            focused == (focus == FocusPlace::GridItems && self@.grid is Some || focus
                == FocusPlace::ExplorerItems && self@.explorer is Some),
    {
        (focus == FocusPlace::GridItems && self.grid_pane.is_some()) || (focus
            == FocusPlace::ExplorerItems && self.explorer_pane.is_some())
    }

    /// Whether the filter of a pane has the focus and is empty.
    pub fn empty_filter_has_focus(&self, focus: FocusPlace, filter_is_empty: bool) -> (focused: bool)
        ensures
            focused == (filter_is_empty && (focus == FocusPlace::GridFilter && self@.grid is Some
                || focus == FocusPlace::ExplorerFilter && self@.explorer is Some)),
    {
        filter_is_empty && self.filter_has_focus(focus)
    }

    /// Opens the filter of the current pane, which then gets the focus; `false` if there is
    /// no pane.
    #[verifier::spinoff_prover]
    pub fn show_filter(&mut self) -> (shown: bool)
        ensures
            shown == (old(self)@.current() is Some),
            final(self)@ == old(self)@.with_current(
                match old(self)@.current() {
                    Some(pane) => Some(PaneView { filter_open: true, ..pane }),
                    None => None,
                },
            ),
    {
        let ghost before = self@;
        match self.mode {
            BrowserMode::Columns => false,
            BrowserMode::Grid => {
                let shown = open_filter_in(&mut self.grid_pane);
                assert(self@ == (ModesView { grid: self@.grid, ..before }));
                shown
            },
            BrowserMode::Explorer => {
                let shown = open_filter_in(&mut self.explorer_pane);
                assert(self@ == (ModesView { explorer: self@.explorer, ..before }));
                shown
            },
        }
    }

    /// Closes the filter that has the focus; the items of its pane, in the mode given back,
    /// then get the focus.
    pub fn dismiss_focused_filter(&mut self, focus: FocusPlace) -> (dismissed: Option<BrowserMode>)
        ensures
            dismissed == if focus == FocusPlace::GridFilter && old(self)@.grid is Some {
                Some(BrowserMode::Grid)
            } else if focus == FocusPlace::ExplorerFilter && old(self)@.explorer is Some {
                Some(BrowserMode::Explorer)
            } else {
                None
            },
            final(self)@ == (ModesView {
                grid: match old(self)@.grid {
                    Some(pane) if focus == FocusPlace::GridFilter => Some(
                        PaneView { filter_open: false, ..pane },
                    ),
                    other => other,
                },
                explorer: match old(self)@.explorer {
                    Some(pane) if focus == FocusPlace::ExplorerFilter => Some(
                        PaneView { filter_open: false, ..pane },
                    ),
                    other => other,
                },
                ..old(self)@
            }),
    {
        if focus == FocusPlace::GridFilter {
            if let Some(pane) = &mut self.grid_pane {
                pane.filter_open = false;
                return Some(BrowserMode::Grid);
            }
        }
        if focus == FocusPlace::ExplorerFilter {
            if let Some(pane) = &mut self.explorer_pane {
                pane.filter_open = false;
                return Some(BrowserMode::Explorer);
            }
        }
        None
    }

    /// Builds the current pane anew, if there is something to build it from.
    fn rebuild(&mut self, browser: &BrowserState) -> (rebuild: Rebuild)
        ensures
            rebuild.follows(old(self)@.mode, *browser),
            final(self)@ == old(self)@.rebuilt(*browser),
    {
        if self.mode == BrowserMode::Columns {
            return no_rebuild();
        }
        let mut rebuild = Rebuild { rebuilt: true, select: None, scroll_to: None };
        let pane: Option<PaneState> = match browser.active_depth {
            None => None,
            Some(_) => match &browser.snapshot {
                None => return no_rebuild(),
                Some(snapshot) => {
                    let (positions, scroll_to) = snapshot.selection();
                    rebuild.select = Some(positions);
                    rebuild.scroll_to = scroll_to;
                    Some(PaneState::from_snapshot(snapshot))
                },
            },
        };
        if self.mode == BrowserMode::Grid {
            self.grid_pane = pane;
        } else {
            self.explorer_pane = pane;
        }
        rebuild
    }

    /// Goes over to a mode: gives up what is being typed and builds the mode's pane. Nothing
    /// happens in that mode already.
    pub fn prepare_mode(&mut self, mode: BrowserMode, browser: &BrowserState) -> (rebuild: Rebuild)
        ensures
            if old(self)@.mode == mode {
                rebuild.is_nothing()
            } else {
                rebuild.follows(mode, *browser)
            },
            final(self)@ == if old(self)@.mode == mode {
                old(self)@
            } else {
                ModesView {
                    mode,
                    ..old(self)@.new_entry_cancelled().rename_cancelled()
                }.rebuilt(*browser)
            },
    {
        if self.mode == mode {
            return no_rebuild();
        }
        let _cancelled = self.cancel_new_entry();
        let _renamed = self.cancel_rename();
        self.mode = mode;
        self.rebuild(browser)
    }

    /// Shows the page of a mode.
    pub fn show_mode(&mut self, mode: BrowserMode)
        ensures
            final(self)@ == (ModesView { page: mode, ..old(self)@ }),
    {
        self.page = mode;
    }

    /// Drops the pane of a mode, unless it is the current mode.
    pub fn clear_inactive_mode(&mut self, mode: BrowserMode)
        ensures
            final(self)@ == if old(self)@.mode == mode {
                old(self)@
            } else {
                ModesView {
                    grid: if mode == BrowserMode::Grid {
                        None
                    } else {
                        old(self)@.grid
                    },
                    explorer: if mode == BrowserMode::Explorer {
                        None
                    } else {
                        old(self)@.explorer
                    },
                    ..old(self)@
                }
            },
    {
        if self.mode == mode {
            return;
        }
        match mode {
            BrowserMode::Columns => {},
            BrowserMode::Grid => {
                self.grid_pane = None;
            },
            BrowserMode::Explorer => {
                self.explorer_pane = None;
            },
        }
    }

    pub fn set_single_click_previews(&mut self, enabled: bool)
        ensures
            final(self)@ == (ModesView { previews: enabled, ..old(self)@ }),
    {
        self.single_click_previews = enabled;
    }

    /// Sets how many clicks open entries in a mode; columns have their own setting.
    pub fn set_click_activation(&mut self, mode: BrowserMode, activation: ClickActivation)
        ensures
            final(self)@ == (ModesView {
                grid_activation: if mode == BrowserMode::Grid {
                    activation
                } else {
                    old(self)@.grid_activation
                },
                explorer_activation: if mode == BrowserMode::Explorer {
                    activation
                } else {
                    old(self)@.explorer_activation
                },
                ..old(self)@
            }),
    {
        match mode {
            BrowserMode::Columns => {},
            BrowserMode::Grid => {
                self.grid_click_activation = activation;
            },
            BrowserMode::Explorer => {
                self.explorer_click_activation = activation;
            },
        }
    }

    /// Sets which locations are cut.
    pub fn set_cut_locations(&mut self, locations: &[u64])
        ensures
            final(self)@ == (ModesView { cuts: locations@, ..old(self)@ }),
    {
        let mut cuts: Vec<u64> = Vec::new();
        cuts.extend_from_slice(locations);
        assert(cuts@ =~= locations@);
        self.cut_locations = cuts;
    }

    /// Whether a location is cut.
    pub fn is_cut(&self, location: u64) -> (cut: bool)
        ensures
            cut == self@.cuts.contains(location),
    {
        let mut index: usize = 0;
        while index < self.cut_locations.len()
            invariant
                index <= self.cut_locations.len(),
                forall|i: int| 0 <= i < index ==> self.cut_locations@[i] != location,
            decreases self.cut_locations.len() - index,
        {
            if self.cut_locations[index] == location {
                assert(self@.cuts[index as int] == location);
                return true;
            }
            index = index + 1;
        }
        false
    }

    pub fn set_density(&mut self, density: BrowserDensity)
        ensures
            final(self)@ == (ModesView { density, ..old(self)@ }),
    {
        self.density = density;
    }

    /// Groups entries by type or not; a change gives up what is being typed and builds the
    /// current pane anew.
    pub fn set_group_by_type(&mut self, enabled: bool, browser: &BrowserState) -> (rebuild: Rebuild)
        ensures
            if old(self)@.group_by_type == enabled {
                rebuild.is_nothing()
            } else {
                rebuild.follows(old(self)@.mode, *browser)
            },
            final(self)@ == if old(self)@.group_by_type == enabled {
                old(self)@
            } else {
                ModesView {
                    group_by_type: enabled,
                    ..old(self)@.new_entry_cancelled().rename_cancelled()
                }.rebuilt(*browser)
            },
    {
        if self.group_by_type == enabled {
            return no_rebuild();
        }
        let _cancelled = self.cancel_new_entry();
        let _renamed = self.cancel_rename();
        self.group_by_type = enabled;
        self.rebuild(browser)
    }

    /// Whether the column at `depth` is the one to give the focus to.
    pub fn focus_visible_pane(&self, depth: usize) -> (focus: bool)
        ensures
            focus == self@.shows(depth),
    {
        self.shows_depth(depth)
    }

    /// Brings the pane of an event's column up to date; `false` if it is not shown.
    fn handle_in_pane(&mut self, event: &BrowserEvent) -> (shown: bool)
        ensures
            shown == (event_depth(*event) matches Some(depth) && old(self)@.shows(depth)),
            final(self)@ == if shown {
                old(self)@.with_current(Some(pane_after(old(self)@.current()->0, *event)))
            } else {
                old(self)@
            },
    {
        let depth: usize = match depth_of(event) {
            Some(depth) => depth,
            None => return false,
        };
        match self.mode {
            BrowserMode::Columns => false,
            BrowserMode::Grid => match &mut self.grid_pane {
                Some(pane) => {
                    if pane.depth != depth {
                        return false;
                    }
                    update_pane(pane, event);
                    true
                },
                None => false,
            },
            BrowserMode::Explorer => match &mut self.explorer_pane {
                Some(pane) => {
                    if pane.depth != depth {
                        return false;
                    }
                    update_pane(pane, event);
                    true
                },
                None => false,
            },
        }
    }

    /// Follows the browser.
    pub fn handle(&mut self, event: &BrowserEvent, browser: &BrowserState) -> (effect: HandleEffect)
        ensures
            final(self)@ == old(self)@.handled(*event, *browser),
            old(self)@.asks_for(*event, *browser, effect),
    {
        let mut effect = no_effect();
        match event {
            BrowserEvent::Reset => {
                let _cancelled = self.cancel_new_entry();
                self.grid_pane = None;
                self.explorer_pane = None;
                effect.rebuilt = true;
            },
            BrowserEvent::ColumnsTruncated => {
                let _cancelled = self.cancel_new_entry();
                effect = rebuild_effect(self.rebuild(browser));
            },
            BrowserEvent::ColumnAdded { depth } => {
                let _cancelled = self.cancel_new_entry();
                let active: bool = match browser.active_depth {
                    Some(active) => active == *depth,
                    None => false,
                };
                if active {
                    effect = rebuild_effect(self.rebuild(browser));
                }
            },
            BrowserEvent::RenameCompleted => {
                let _cancelled = self.cancel_rename();
            },
            BrowserEvent::RenameFailed { message } => {
                if let Some(rename) = &mut self.active_rename {
                    rename.sensitive = true;
                    rename.error = Some(message.clone());
                    effect.focus_rename = true;
                }
            },
            BrowserEvent::SelectionSetChanged { positions, take_focus, .. } => {
                if self.handle_in_pane(event) {
                    let mut select: Vec<usize> = Vec::new();
                    select.extend_from_slice(positions.as_slice());
                    assert(select@ =~= positions@);
                    effect.select = Some(select);
                    effect.focus_pane = *take_focus;
                }
            },
            BrowserEvent::FocusChanged { position, .. } => {
                if self.handle_in_pane(event) {
                    let mut select: Vec<usize> = Vec::new();
                    if let Some(position) = position {
                        select.push(*position);
                        assert(select@ =~= seq![*position]);
                    } else {
                        assert(select@ =~= Seq::<usize>::empty());
                    }
                    effect.select = Some(select);
                    effect.focus_pane = true;
                }
            },
            BrowserEvent::EntriesInserted { .. }
            | BrowserEvent::EntriesReplaced { .. }
            | BrowserEvent::EntriesPublished { .. }
            | BrowserEvent::EntriesSpliced { .. }
            | BrowserEvent::ColumnReloaded { .. }
            | BrowserEvent::LoadFinished { .. } => {
                effect.sync_groups = self.handle_in_pane(event);
            },
            BrowserEvent::SortingStarted { .. }
            | BrowserEvent::SortingFinished { .. }
            | BrowserEvent::LoadFailed { .. } => {
                let _shown = self.handle_in_pane(event);
            },
            BrowserEvent::Other => {},
        }
        effect
    }
}

/// News about a column that is not shown changes nothing.
pub proof fn other_columns_are_left_alone(
    views: ModesView,
    event: BrowserEvent,
    browser: BrowserState,
)
    requires
        event_depth(event) is Some,
        !views.shows(event_depth(event)->0),
    ensures
        views.handled(event, browser) == views,
{
}

/// No event changes the mode, the page, or a setting; only the current pane is ever
/// touched, except by a reset, which leaves none.
pub proof fn events_keep_mode_and_settings(
    views: ModesView,
    event: BrowserEvent,
    browser: BrowserState,
)
    ensures
        views.handled(event, browser).mode == views.mode,
        views.handled(event, browser).page == views.page,
        views.handled(event, browser).density == views.density,
        views.handled(event, browser).group_by_type == views.group_by_type,
        views.handled(event, browser).previews == views.previews,
        views.handled(event, browser).grid_activation == views.grid_activation,
        views.handled(event, browser).explorer_activation == views.explorer_activation,
        views.handled(event, browser).cuts == views.cuts,
        !(event is Reset) && views.mode != BrowserMode::Grid ==> views.handled(event, browser).grid
            == views.grid,
        !(event is Reset) && views.mode != BrowserMode::Explorer ==> views.handled(
            event,
            browser,
        ).explorer == views.explorer,
        event is Reset ==> views.handled(event, browser).grid is None && views.handled(
            event,
            browser,
        ).explorer is None,
{
}

/// A change of the columns ends a new entry; every other event leaves it alone.
pub proof fn column_changes_end_new_entries(
    views: ModesView,
    event: BrowserEvent,
    browser: BrowserState,
)
    ensures
        changes_columns(event) ==> views.handled(event, browser).new_entry is None,
        !changes_columns(event) ==> views.handled(event, browser).new_entry == views.new_entry,
{
}

/// What the browser focuses is what the pane that shows the column selects: that entry alone, or
/// none; and the pane gets the focus.
pub proof fn focus_selects_the_entry(
    views: ModesView,
    pane: PaneView,
    position: Option<usize>,
    browser: BrowserState,
    effect: HandleEffect,
)
    requires
        (views.mode == BrowserMode::Grid && views.grid == Some(pane)) || (views.mode
            == BrowserMode::Explorer && views.explorer == Some(pane)),
        views.asks_for(
            BrowserEvent::FocusChanged { depth: pane.depth, position },
            browser,
            effect,
        ),
    ensures
        effect.select is Some,
        position matches Some(focused) ==> effect.select->0@.len() == 1 && effect.select->0@[0]
            == focused,
        position is None ==> effect.select->0@.len() == 0,
        effect.focus_pane,
        !effect.rebuilt && !effect.sync_groups && !effect.focus_rename && effect.scroll_to is None,
        views.handled(BrowserEvent::FocusChanged { depth: pane.depth, position }, browser) == views,
{
}

/// What the browser selects is what the pane that shows the column selects, in the same order;
/// the pane gets the focus if the browser says so.
pub proof fn selections_are_followed(
    views: ModesView,
    pane: PaneView,
    positions: Vec<usize>,
    take_focus: bool,
    browser: BrowserState,
    effect: HandleEffect,
)
    requires
        (views.mode == BrowserMode::Grid && views.grid == Some(pane)) || (views.mode
            == BrowserMode::Explorer && views.explorer == Some(pane)),
        views.asks_for(
            BrowserEvent::SelectionSetChanged { depth: pane.depth, positions, take_focus },
            browser,
            effect,
        ),
    ensures
        effect.select is Some,
        effect.select->0@ == positions@,
        effect.focus_pane == take_focus,
        !effect.rebuilt && !effect.sync_groups && !effect.focus_rename && effect.scroll_to is None,
        views.handled(
            BrowserEvent::SelectionSetChanged { depth: pane.depth, positions, take_focus },
            browser,
        ) == views,
{
}

/// News about a column asks for nothing on screen unless the current pane shows that column.
pub proof fn other_columns_ask_for_nothing(
    views: ModesView,
    event: BrowserEvent,
    depth: usize,
    browser: BrowserState,
    effect: HandleEffect,
)
    requires
        event_depth(event) == Some(depth),
        views.mode == BrowserMode::Grid && views.grid is Some ==> views.grid->0.depth != depth,
        views.mode == BrowserMode::Explorer && views.explorer is Some ==> views.explorer->0.depth
            != depth,
        views.asks_for(event, browser, effect),
    ensures
        effect.select is None && effect.scroll_to is None,
        !effect.rebuilt && !effect.sync_groups && !effect.focus_pane && !effect.focus_rename,
        views.handled(event, browser) == views,
{
}

/// Which column an event is about is the one that it names; the rest are about none.
pub proof fn events_name_their_columns(event: BrowserEvent)
    ensures
        event matches BrowserEvent::EntriesInserted { depth: named, .. } ==> event_depth(event)
            == Some(named),
        event matches BrowserEvent::EntriesReplaced { depth: named, .. } ==> event_depth(event)
            == Some(named),
        event matches BrowserEvent::EntriesPublished { depth: named, .. } ==> event_depth(event)
            == Some(named),
        event matches BrowserEvent::SortingStarted { depth: named } ==> event_depth(event) == Some(
            named,
        ),
        event matches BrowserEvent::SortingFinished { depth: named } ==> event_depth(event) == Some(
            named,
        ),
        event matches BrowserEvent::EntriesSpliced { depth: named, .. } ==> event_depth(event)
            == Some(named),
        event matches BrowserEvent::ColumnReloaded { depth: named } ==> event_depth(event) == Some(
            named,
        ),
        event matches BrowserEvent::LoadFinished { depth: named, .. } ==> event_depth(event) == Some(
            named,
        ),
        event matches BrowserEvent::LoadFailed { depth: named, .. } ==> event_depth(event) == Some(
            named,
        ),
        event matches BrowserEvent::SelectionSetChanged { depth: named, .. } ==> event_depth(event)
            == Some(named),
        event matches BrowserEvent::FocusChanged { depth: named, .. } ==> event_depth(event) == Some(
            named,
        ),
        event_depth(event) is None <==> event is Reset || event is ColumnsTruncated
            || event is ColumnAdded || event is RenameCompleted || event is RenameFailed
            || event is Other,
{
}

/// Entries that appear in the column that is shown appear in its pane: the change is made at its
/// place and the groups are brought up to date, whether it came with the listing, was published,
/// or happened on disk.
pub proof fn entries_appear_in_the_pane(
    views: ModesView,
    pane: PaneView,
    splice: Splice,
    list: Vec<Splice>,
    browser: BrowserState,
    event: BrowserEvent,
    effect: HandleEffect,
    i: int,
)
    requires
        (views.mode == BrowserMode::Grid && views.grid == Some(pane)) || (views.mode
            == BrowserMode::Explorer && views.explorer == Some(pane)),
        list@ == seq![splice],
        splice.position + splice.removed <= pane.entries.len() < 0x1_0000_0000,
        event == (BrowserEvent::EntriesInserted { depth: pane.depth, insertions: list }) || event
            == (BrowserEvent::EntriesPublished { depth: pane.depth, published: list }) || event == (
        BrowserEvent::EntriesSpliced { depth: pane.depth, splices: list }),
        views.asks_for(event, browser, effect),
    ensures
        effect.sync_groups,
        effect.select is None && effect.scroll_to is None,
        !effect.rebuilt && !effect.focus_pane && !effect.focus_rename,
        ({
            let after = if views.mode == BrowserMode::Grid {
                views.handled(event, browser).grid
            } else {
                views.handled(event, browser).explorer
            };
            &&& after is Some
            &&& after->0.depth == pane.depth
            &&& after->0.entries.len() == pane.entries.len() - splice.removed + splice.values@.len()
            &&& 0 <= i < splice.position ==> after->0.entries[i] == pane.entries[i]
            &&& 0 <= i < splice.values@.len() ==> after->0.entries[splice.position + i]
                == splice.values@[i]@
            &&& splice.position + splice.removed <= i < pane.entries.len() ==> after->0.entries[i
                - splice.removed + splice.values@.len()] == pane.entries[i]
        }),
{
    crate::pane::splices_go_in_order(pane.entries, splice, splice);
    crate::pane::splices_change_one_run(
        pane.entries,
        splice.position as int,
        splice.removed as int,
        label_views(splice.values@),
        i,
    );
    assert(views.current() == Some(pane));
}

/// Entries that replace those of the column that is shown are all that its pane has.
pub proof fn replaced_entries_are_shown(
    views: ModesView,
    pane: PaneView,
    count: usize,
    values: Vec<String>,
    browser: BrowserState,
    effect: HandleEffect,
    i: int,
)
    requires
        (views.mode == BrowserMode::Grid && views.grid == Some(pane)) || (views.mode
            == BrowserMode::Explorer && views.explorer == Some(pane)),
        views.asks_for(
            BrowserEvent::EntriesReplaced { depth: pane.depth, count, values },
            browser,
            effect,
        ),
    ensures
        effect.sync_groups,
        ({
            let after = if views.mode == BrowserMode::Grid {
                views.handled(
                    BrowserEvent::EntriesReplaced { depth: pane.depth, count, values },
                    browser,
                ).grid
            } else {
                views.handled(
                    BrowserEvent::EntriesReplaced { depth: pane.depth, count, values },
                    browser,
                ).explorer
            };
            &&& after is Some
            &&& after->0.entries.len() == values@.len()
            &&& 0 <= i < values@.len() ==> after->0.entries[i] == values@[i]@
            &&& after->0.spinning == (pane.spinning && count == 0)
            &&& after->0.page == PanePage::Content <==> values@.len() > 0
        }),
{
    assert(views.current() == Some(pane));
}

/// The pane of a column spins while the column is sorted or read again, stops once that is over,
/// and tells why a column could not be read.
pub proof fn panes_follow_their_columns(
    views: ModesView,
    pane: PaneView,
    browser: BrowserState,
    event: BrowserEvent,
)
    requires
        (views.mode == BrowserMode::Grid && views.grid == Some(pane)) || (views.mode
            == BrowserMode::Explorer && views.explorer == Some(pane)),
        event_depth(event) == Some(pane.depth),
    ensures
        ({
            let after = if views.mode == BrowserMode::Grid {
                views.handled(event, browser).grid
            } else {
                views.handled(event, browser).explorer
            };
            &&& after is Some
            &&& after->0.depth == pane.depth
            &&& event is SortingStarted ==> after->0.spinning && after->0.sorting
                && after->0.entries == pane.entries
            &&& event is SortingFinished ==> !after->0.spinning && !after->0.sorting
                && after->0.entries == pane.entries
            &&& event is ColumnReloaded ==> after->0.spinning && after->0.entries.len() == 0
                && after->0.page == PanePage::Loading && after->0.detached
            &&& event matches BrowserEvent::LoadFinished { truncated, .. } ==> {
                &&& !after->0.spinning
                &&& !after->0.detached
                &&& after->0.truncated == truncated
                &&& after->0.entries == pane.entries
                &&& after->0.page == PanePage::Content <==> pane.entries.len() > 0
                &&& after->0.page == PanePage::Status <==> pane.entries.len() == 0
            }
            &&& event matches BrowserEvent::LoadFailed { message, .. } ==> {
                &&& !after->0.spinning
                &&& after->0.status_is_error
                &&& after->0.status == "Unable to read this directory\n"@ + message@
                &&& after->0.page == PanePage::Status
                &&& after->0.entries == pane.entries
            }
        }),
{
    assert(views.current() == Some(pane));
}

/// The groups of the pane are brought up to date exactly by events that change its entries.
pub proof fn changed_entries_are_grouped_anew(
    views: ModesView,
    pane: PaneView,
    browser: BrowserState,
    event: BrowserEvent,
    effect: HandleEffect,
)
    requires
        (views.mode == BrowserMode::Grid && views.grid == Some(pane)) || (views.mode
            == BrowserMode::Explorer && views.explorer == Some(pane)),
        event_depth(event) == Some(pane.depth),
        views.asks_for(event, browser, effect),
    ensures
        effect.sync_groups <==> event is EntriesInserted || event is EntriesReplaced
            || event is EntriesPublished || event is EntriesSpliced || event is ColumnReloaded
            || event is LoadFinished,
        !(event is SelectionSetChanged) && !(event is FocusChanged) ==> effect.select is None
            && !effect.focus_pane,
        !effect.rebuilt && effect.scroll_to is None && !effect.focus_rename,
{
    assert(views.current() == Some(pane));
}

/// A reset leaves no pane and nothing to select; a rename goes on.
pub proof fn a_reset_leaves_no_pane(
    views: ModesView,
    browser: BrowserState,
    effect: HandleEffect,
)
    requires
        views.asks_for(BrowserEvent::Reset, browser, effect),
    ensures
        views.handled(BrowserEvent::Reset, browser).grid is None,
        views.handled(BrowserEvent::Reset, browser).explorer is None,
        views.handled(BrowserEvent::Reset, browser).new_entry is None,
        views.handled(BrowserEvent::Reset, browser).rename == views.rename,
        effect.rebuilt,
        effect.select is None && effect.scroll_to is None,
        !effect.sync_groups && !effect.focus_pane && !effect.focus_rename,
{
}

/// When columns go, or the active one is new, the current pane is built from what the browser
/// says of its active column: its entries are that column's, and what the browser has selected is
/// selected, with the last of it in view.
pub proof fn column_changes_rebuild_the_pane(
    views: ModesView,
    event: BrowserEvent,
    browser: BrowserState,
    snapshot: ColumnSnapshot,
    effect: HandleEffect,
    i: int,
)
    requires
        views.mode != BrowserMode::Columns,
        browser.active_depth is Some,
        browser.snapshot == Some(snapshot),
        event is ColumnsTruncated || (event matches BrowserEvent::ColumnAdded { depth }
            && browser.active_depth == Some(depth)),
        views.asks_for(event, browser, effect),
    ensures
        effect.rebuilt,
        effect.select is Some && effect.select->0@ == snapshot.selected@,
        snapshot.selected@.len() == 0 ==> effect.scroll_to is None,
        snapshot.selected@.len() > 0 ==> effect.scroll_to == Some(snapshot.selected@.last()),
        ({
            let after = if views.mode == BrowserMode::Grid {
                views.handled(event, browser).grid
            } else {
                views.handled(event, browser).explorer
            };
            &&& after is Some
            &&& after->0.depth == snapshot.depth
            &&& after->0.entries.len() == snapshot.values@.len()
            &&& 0 <= i < snapshot.values@.len() ==> after->0.entries[i] == snapshot.values@[i]@
            &&& after->0.truncated == snapshot.truncated
            &&& after->0.spinning == snapshot.loading
            &&& !after->0.creating
        }),
{
    crate::pane::built_panes_show_the_snapshot(snapshot, i);
}

/// Without an active column a change of the columns leaves no current pane; a column that is
/// added beside the active one changes none.
pub proof fn no_active_column_leaves_no_pane(
    views: ModesView,
    browser: BrowserState,
    effect: HandleEffect,
    depth: usize,
    added: HandleEffect,
)
    requires
        views.asks_for(BrowserEvent::ColumnsTruncated, browser, effect),
        browser.active_depth is None,
        views.asks_for(BrowserEvent::ColumnAdded { depth }, browser, added),
    ensures
        views.mode == BrowserMode::Grid ==> effect.rebuilt && views.handled(
            BrowserEvent::ColumnsTruncated,
            browser,
        ).grid is None,
        views.mode == BrowserMode::Explorer ==> effect.rebuilt && views.handled(
            BrowserEvent::ColumnsTruncated,
            browser,
        ).explorer is None,
        views.mode == BrowserMode::Columns ==> !effect.rebuilt,
        effect.select is None && effect.scroll_to is None,
        !added.rebuilt && added.select is None && added.scroll_to is None,
        views.new_entry is None ==> views.handled(BrowserEvent::ColumnAdded { depth }, browser)
            == views,
{
}

/// A rename ends once it has succeeded; if it failed, the field takes input again, shows why, and
/// gets the focus.
pub proof fn renames_end_or_tell_why(
    views: ModesView,
    browser: BrowserState,
    message: String,
    effect: HandleEffect,
)
    requires
        views.asks_for(BrowserEvent::RenameFailed { message }, browser, effect),
    ensures
        views.handled(BrowserEvent::RenameCompleted, browser).rename is None,
        views.handled(BrowserEvent::RenameCompleted, browser) == (ModesView {
            rename: None,
            ..views
        }),
        ({
            let after = views.handled(BrowserEvent::RenameFailed { message }, browser);
            &&& views.rename is None ==> after == views && !effect.focus_rename
            &&& views.rename is Some ==> {
                &&& effect.focus_rename
                &&& after.rename is Some
                &&& after.rename->0.sensitive
                &&& after.rename->0.error == Some(message@)
                &&& after.rename->0.display_name == views.rename->0.display_name
            }
            &&& after.grid == views.grid && after.explorer == views.explorer && after.new_entry
                == views.new_entry
        }),
        effect.select is None && effect.scroll_to is None,
        !effect.rebuilt && !effect.sync_groups && !effect.focus_pane,
{
}

/// The current pane is that of the mode: the grid's, the explorer's, or none in columns; putting
/// another in its place changes nothing else.
pub proof fn the_mode_decides_the_pane(views: ModesView, pane: Option<PaneView>, depth: usize)
    ensures
        views.mode == BrowserMode::Columns ==> views.current() is None && views.with_current(pane)
            == views && !views.shows(depth),
        views.mode == BrowserMode::Grid ==> views.current() == views.grid && views.with_current(
            pane,
        ) == (ModesView { grid: pane, ..views }) && (views.shows(depth) <==> views.grid is Some
            && views.grid->0.depth == depth),
        views.mode == BrowserMode::Explorer ==> views.current() == views.explorer
            && views.with_current(pane) == (ModesView { explorer: pane, ..views }) && (views.shows(
            depth,
        ) <==> views.explorer is Some && views.explorer->0.depth == depth),
{
}

/// Giving up what is being typed leaves neither a new entry nor a rename, takes the new entry's
/// row away, and changes nothing else but the page of a pane without entries.
pub proof fn giving_up_leaves_nothing_typed(views: ModesView)
    ensures
        ({
            let after = views.new_entry_cancelled().rename_cancelled();
            &&& after.new_entry is None
            &&& after.rename is None
            &&& views.new_entry is None ==> after == (ModesView { rename: None, ..views })
            &&& views.new_entry is Some && views.mode == BrowserMode::Grid && views.grid is Some
                ==> after.grid is Some && !after.grid->0.creating && after.grid->0.entries
                == views.grid->0.entries && after.explorer == views.explorer
            &&& views.new_entry is Some && views.mode == BrowserMode::Explorer
                && views.explorer is Some ==> after.explorer is Some
                && !after.explorer->0.creating && after.explorer->0.entries
                == views.explorer->0.entries && after.grid == views.grid
            &&& after.mode == views.mode && after.page == views.page && after.cuts == views.cuts
        }),
        views.new_entry_cancelled().rename == views.rename,
        views.rename_cancelled().new_entry == views.new_entry,
{
}

/// A row for a new entry appears in the pane that shows the column, as the kind that was asked
/// for, in a pane that shows its contents; dropping the row takes just that away.
pub proof fn new_entries_get_a_row(views: ModesView, pane: PaneView, is_directory: bool)
    requires
        (views.mode == BrowserMode::Grid && views.grid == Some(pane)) || (views.mode
            == BrowserMode::Explorer && views.explorer == Some(pane)),
    ensures
        ({
            let opened = views.row_opened(pane.depth, is_directory);
            let row = if views.mode == BrowserMode::Grid {
                opened.grid
            } else {
                opened.explorer
            };
            let dropped = if views.mode == BrowserMode::Grid {
                views.row_dropped().grid
            } else {
                views.row_dropped().explorer
            };
            &&& row is Some
            &&& row->0.creating
            &&& row->0.creates_directory == is_directory
            &&& row->0.page == PanePage::Content
            &&& row->0.entries == pane.entries
            &&& row->0.depth == pane.depth
            &&& opened.new_entry == views.new_entry && opened.rename == views.rename
            &&& dropped == Some(PaneView { creating: false, ..pane })
        }),
        forall|depth: usize|
            depth != pane.depth ==> #[trigger] views.row_opened(depth, is_directory) == views,
{
    assert(views.current() == Some(pane));
}

/// A pane that is built anew in a mode is the browser's active column: with none there is no
/// pane, with no word of it the pane stays, and the other mode's pane is never touched.
pub proof fn rebuilding_takes_the_active_column(
    views: ModesView,
    browser: BrowserState,
    rebuild: Rebuild,
)
    requires
        rebuild.follows(views.mode, browser),
    ensures
        views.mode == BrowserMode::Columns ==> views.rebuilt(browser) == views && !rebuild.rebuilt
            && rebuild.select is None && rebuild.scroll_to is None,
        views.mode != BrowserMode::Columns && browser.active_depth is None ==> {
            &&& rebuild.rebuilt && rebuild.select is None && rebuild.scroll_to is None
            &&& views.mode == BrowserMode::Grid ==> views.rebuilt(browser).grid is None
                && views.rebuilt(browser).explorer == views.explorer
            &&& views.mode == BrowserMode::Explorer ==> views.rebuilt(browser).explorer is None
                && views.rebuilt(browser).grid == views.grid
        },
        views.mode != BrowserMode::Columns && browser.active_depth is Some
            && browser.snapshot is None ==> views.rebuilt(browser) == views && !rebuild.rebuilt
            && rebuild.select is None && rebuild.scroll_to is None,
        views.mode != BrowserMode::Columns && browser.active_depth is Some
            && browser.snapshot is Some ==> {
            &&& rebuild.rebuilt
            &&& rebuild.select is Some && rebuild.select->0@ == browser.snapshot->0.selected@
            &&& browser.snapshot->0.selected@.len() > 0 ==> rebuild.scroll_to == Some(
                browser.snapshot->0.selected@.last(),
            )
            &&& browser.snapshot->0.selected@.len() == 0 ==> rebuild.scroll_to is None
            &&& views.mode == BrowserMode::Grid ==> views.rebuilt(browser).grid is Some
                && views.rebuilt(browser).grid->0.depth == browser.snapshot->0.depth
                && views.rebuilt(browser).explorer == views.explorer
            &&& views.mode == BrowserMode::Explorer ==> views.rebuilt(browser).explorer is Some
                && views.rebuilt(browser).explorer->0.depth == browser.snapshot->0.depth
                && views.rebuilt(browser).grid == views.grid
        },
{
}

/// Changes of the entries reach the pane of their column all together and in order. While the
/// column is being read the page stays; otherwise, and always for changes on disk, it tells whether
/// there are entries.
pub proof fn all_changes_reach_the_pane(
    views: ModesView,
    pane: PaneView,
    list: Vec<Splice>,
    browser: BrowserState,
    event: BrowserEvent,
)
    requires
        (views.mode == BrowserMode::Grid && views.grid == Some(pane)) || (views.mode
            == BrowserMode::Explorer && views.explorer == Some(pane)),
        event == (BrowserEvent::EntriesInserted { depth: pane.depth, insertions: list }) || event
            == (BrowserEvent::EntriesPublished { depth: pane.depth, published: list }) || event == (
        BrowserEvent::EntriesSpliced { depth: pane.depth, splices: list }),
    ensures
        ({
            let after = if views.mode == BrowserMode::Grid {
                views.handled(event, browser).grid
            } else {
                views.handled(event, browser).explorer
            };
            &&& after is Some
            &&& after->0.entries == crate::pane::all_spliced(pane.entries, list@)
            &&& after->0.spinning == pane.spinning
            &&& pane.spinning && !(event is EntriesSpliced) ==> after->0.page == pane.page
            &&& !pane.spinning || event is EntriesSpliced ==> (after->0.page == PanePage::Content
                <==> after->0.entries.len() > 0) && (after->0.page == PanePage::Status
                <==> after->0.entries.len() == 0)
        }),
{
    assert(views.current() == Some(pane));
}

/// News of a column leaves what is being typed alone, and keeps of its pane the column, the
/// hidden files, the filter and the row for a new entry; the rename changes only with news of it.
pub proof fn news_keep_what_is_typed(
    views: ModesView,
    pane: PaneView,
    browser: BrowserState,
    event: BrowserEvent,
)
    requires
        (views.mode == BrowserMode::Grid && views.grid == Some(pane)) || (views.mode
            == BrowserMode::Explorer && views.explorer == Some(pane)),
    ensures
        !(event is RenameCompleted) && !(event is RenameFailed) ==> views.handled(
            event,
            browser,
        ).rename == views.rename,
        views.handled(event, browser).thumbnail_size == views.thumbnail_size,
        event_depth(event) == Some(pane.depth) ==> {
            let after = if views.mode == BrowserMode::Grid {
                views.handled(event, browser).grid
            } else {
                views.handled(event, browser).explorer
            };
            &&& after is Some
            &&& after->0.depth == pane.depth
            &&& after->0.show_hidden == pane.show_hidden
            &&& after->0.filter_open == pane.filter_open
            &&& after->0.creating == pane.creating
            &&& after->0.creates_directory == pane.creates_directory
        },
{
    assert(views.current() == Some(pane));
}

/// A column that is added beside the active one, a change of the columns of which the browser says
/// nothing more, and any other news change neither pane and ask for nothing.
pub proof fn other_news_change_nothing(
    views: ModesView,
    browser: BrowserState,
    event: BrowserEvent,
    effect: HandleEffect,
)
    requires
        views.new_entry is None,
        views.asks_for(event, browser, effect),
        ({
            ||| event is Other
            ||| event is ColumnAdded && browser.active_depth != Some(event->ColumnAdded_depth)
            ||| (event is ColumnAdded || event is ColumnsTruncated) && browser.active_depth is Some
                && browser.snapshot is None
        }),
    ensures
        views.handled(event, browser) == views,
        effect.select is None && effect.scroll_to is None,
        !effect.rebuilt && !effect.sync_groups && !effect.focus_pane && !effect.focus_rename,
{
}

} // verus!
