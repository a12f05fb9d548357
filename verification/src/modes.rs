//! Browsing modes and the settings that belong to them.
use vstd::prelude::*;

use crate::icons_cell::{icons_card_extent, icons_card_icon_slot, icon_slot};

verus! {

/// Most columns of a compact grid.
pub const COMPACT_GRID_COLUMNS: u32 = 20;

/// Most columns of an airy grid.
pub const AIRY_GRID_COLUMNS: u32 = 16;

/// Size of grid thumbnails unless the user chose another.
pub const DEFAULT_GRID_THUMBNAIL_SIZE: i32 = 64;

/// Smallest size of grid thumbnails.
pub const MIN_GRID_THUMBNAIL_SIZE: i32 = 64;

/// Largest size of grid thumbnails.
pub const MAX_GRID_THUMBNAIL_SIZE: i32 = 256;

/// Width of a grid column where no card can be measured.
pub const FALLBACK_GRID_COLUMN_WIDTH: i32 = 160;

/// Space between two cards of a grid.
pub const GRID_CARD_SPACING: i32 = 4;

/// How a directory is shown.
#[derive(Clone, Copy, Debug, PartialEq, Eq, Structural)]
pub enum BrowserMode {
    Columns,
    Grid,
    Explorer,
}

impl Default for BrowserMode {
    fn default() -> (mode: Self)
        ensures
            mode == BrowserMode::Columns,
    {
        BrowserMode::Columns
    }
}

impl BrowserMode {
    /// The name of the page that shows this mode.
    pub open spec fn page(self) -> Seq<char> {
        match self {
            BrowserMode::Columns => "columns"@,
            BrowserMode::Grid => "grid"@,
            BrowserMode::Explorer => "explorer"@,
        }
    }

    pub fn page_name(self) -> (name: &'static str)
        ensures
            name@ == self.page(),
    {
        match self {
            BrowserMode::Columns => "columns",
            BrowserMode::Grid => "grid",
            BrowserMode::Explorer => "explorer",
        }
    }

    /// Whether entries can be grouped by type in this mode.
    pub fn supports_type_grouping(self) -> (supported: bool)
        ensures
            supported == (self == BrowserMode::Explorer),
    {
        self == BrowserMode::Explorer
    }
}

/// How close together entries are shown.
#[derive(Clone, Copy, Debug, PartialEq, Eq, Structural)]
pub enum BrowserDensity {
    Compact,
    Airy,
}

impl Default for BrowserDensity {
    fn default() -> (density: Self)
        ensures
            density == BrowserDensity::Compact,
    {
        BrowserDensity::Compact
    }
}

impl BrowserDensity {
    /// The style class of this density.
    pub fn style_class(self) -> (class: &'static str)
        ensures
            class@ == match self {
                BrowserDensity::Compact => "density-compact"@,
                BrowserDensity::Airy => "density-airy"@,
            },
    {
        match self {
            BrowserDensity::Compact => "density-compact",
            BrowserDensity::Airy => "density-airy",
        }
    }

    /// Most columns of a grid of this density.
    pub open spec fn columns(self) -> u32 {
        match self {
            BrowserDensity::Compact => COMPACT_GRID_COLUMNS,
            BrowserDensity::Airy => AIRY_GRID_COLUMNS,
        }
    }
}

/// Most columns of a grid of this density.
pub fn density_grid_columns(density: BrowserDensity) -> (columns: u32)
    ensures
        columns == density.columns(),
{
    match density {
        BrowserDensity::Compact => COMPACT_GRID_COLUMNS,
        BrowserDensity::Airy => AIRY_GRID_COLUMNS,
    }
}

/// How many clicks open an entry.
#[derive(Clone, Copy, Debug, PartialEq, Eq, Structural)]
pub enum ClickCount {
    One,
    Two,
}

impl ClickCount {
    /// The number by which a click count is stored.
    pub open spec fn number(self) -> u8 {
        match self {
            ClickCount::One => 1,
            ClickCount::Two => 2,
        }
    }

    pub fn from_stored(value: u8) -> (count: Option<Self>)
        ensures
            count matches Some(found) ==> found.number() == value,
            count is None <==> value != 1 && value != 2,
    {
        match value {
            1 => Some(ClickCount::One),
            2 => Some(ClickCount::Two),
            _ => None,
        }
    }

    pub fn stored(self) -> (value: u8)
        ensures
            value == self.number(),
    {
        match self {
            ClickCount::One => 1,
            ClickCount::Two => 2,
        }
    }
}

/// A click count is stored by a number that no other one has, and that can be read back.
pub proof fn stored_click_counts_are_distinct(left: ClickCount, right: ClickCount)
    ensures
        left.number() == right.number() ==> left == right,
        left.number() == 1 || left.number() == 2,
{
}

/// How many clicks open files and folders.
#[derive(Clone, Copy, Debug, PartialEq, Eq, Structural)]
pub struct ClickActivation {
    pub files: ClickCount,
    pub folders: ClickCount,
}

impl ClickActivation {
    /// What a mode starts with: two clicks, but one for folders in columns.
    pub open spec fn initial(mode: BrowserMode) -> ClickActivation {
        ClickActivation {
            files: ClickCount::Two,
            folders: if mode == BrowserMode::Columns {
                ClickCount::One
            } else {
                ClickCount::Two
            },
        }
    }

    pub fn default_for(mode: BrowserMode) -> (activation: Self)
        ensures
            activation == Self::initial(mode),
    {
        ClickActivation {
            files: ClickCount::Two,
            folders: match mode {
                BrowserMode::Columns => ClickCount::One,
                BrowserMode::Grid | BrowserMode::Explorer => ClickCount::Two,
            },
        }
    }
}

impl Default for ClickActivation {
    fn default() -> (activation: Self)
        ensures
            activation == ClickActivation::initial(BrowserMode::Columns),
    {
        ClickActivation::default_for(BrowserMode::Columns)
    }
}

/// Whether a click opens an entry at once. Double clicks are the view's own affair.
pub open spec fn activates(press_count: i32, is_directory: bool, activation: ClickActivation) -> bool {
    press_count == 1 && (if is_directory {
        activation.folders
    } else {
        activation.files
    }) == ClickCount::One
}

pub fn should_activate_pointer_click(
    press_count: i32,
    is_directory: bool,
    activation: ClickActivation,
) -> (activate: bool)
    ensures
        activate == activates(press_count, is_directory, activation),
{
    let configured = if is_directory {
        activation.folders
    } else {
        activation.files
    };
    press_count == 1 && configured == ClickCount::One
}

/// What a plain click on an entry does.
#[derive(Clone, Copy, Debug, PartialEq, Eq, Structural)]
pub enum ClickEffect {
    Nothing,
    Activate,
    Preview,
}

/// What a released click on an entry does: nothing with a modifier key held; it opens the
/// entry, or else previews a file that can be previewed.
pub fn released_click(
    press_count: i32,
    modified: bool,
    is_directory: bool,
    activation: ClickActivation,
    previews: bool,
    previewable: bool,
) -> (effect: ClickEffect)
    ensures
        effect == if modified {
            ClickEffect::Nothing
        } else if activates(press_count, is_directory, activation) {
            ClickEffect::Activate
        } else if press_count == 1 && previews && !is_directory && previewable {
            ClickEffect::Preview
        } else {
            ClickEffect::Nothing
        },
{
    if modified {
        ClickEffect::Nothing
    } else if should_activate_pointer_click(press_count, is_directory, activation) {
        ClickEffect::Activate
    } else if press_count == 1 && previews && !is_directory && previewable {
        ClickEffect::Preview
    } else {
        ClickEffect::Nothing
    }
}

/// The width of a card with its spacing, if the card has a width.
pub fn measured_card_width(natural: i32) -> (width: Option<i32>)
    requires
        natural <= i32::MAX - GRID_CARD_SPACING,
    ensures
        width == if natural > 0 {
            Some((natural + GRID_CARD_SPACING) as i32)
        } else {
            None
        },
{
    if natural > 0 {
        Some(natural + GRID_CARD_SPACING)
    } else {
        None
    }
}

/// How many columns fit: at least one, at most what the density allows.
pub open spec fn fitting_columns(width: int, column: int, density: BrowserDensity) -> int {
    let fitting = width / (if column < 1 {
        1
    } else {
        column
    });
    if fitting < 1 {
        1
    } else if fitting > density.columns() {
        density.columns() as int
    } else {
        fitting
    }
}

/// The number of columns of every group in a grid of this width, given the width of a
/// measured card; nothing changes while the grid has no width.
pub fn group_columns(width: i32, card_width: Option<i32>, density: BrowserDensity) -> (columns: Option<
    u32,
>)
    ensures
        columns is None <==> width <= 0,
        columns matches Some(count) ==> count == fitting_columns(
            width as int,
            match card_width {
                Some(column) => column as int,
                None => FALLBACK_GRID_COLUMN_WIDTH as int,
            },
            density,
        ),
{
    if width <= 0 {
        return None;
    }
    let column: i32 = match card_width {
        Some(column) => column,
        None => FALLBACK_GRID_COLUMN_WIDTH,
    };
    let divisor: i32 = if column < 1 {
        1
    } else {
        column
    };
    assert(0 <= width / divisor <= width) by (nonlinear_arith)
        requires
            width > 0,
            divisor >= 1,
    ;
    let fitting: i32 = width / divisor;
    let most: u32 = density_grid_columns(density);
    if fitting < 1 {
        Some(1)
    } else if fitting as u32 > most {
        Some(most)
    } else {
        Some(fitting as u32)
    }
}

/// How to set the columns of a grid without its minimum ever passing its maximum.
#[derive(Clone, Copy, Debug, PartialEq, Eq, Structural)]
pub enum ColumnChange {
    Keep,
    /// Raise the maximum first.
    MaximumFirst,
    /// Lower the minimum first.
    MinimumFirst,
}

/// How to give a grid with these column limits exactly `columns` columns.
pub fn column_change(min_columns: u32, max_columns: u32, columns: u32) -> (change: ColumnChange)
    ensures
        change == if min_columns == columns && max_columns == columns {
            ColumnChange::Keep
        } else if columns > max_columns {
            ColumnChange::MaximumFirst
        } else {
            ColumnChange::MinimumFirst
        },
{
    if min_columns == columns && max_columns == columns {
        ColumnChange::Keep
    } else if columns > max_columns {
        ColumnChange::MaximumFirst
    } else {
        ColumnChange::MinimumFirst
    }
}

/// The size of the icon on a grid card.
pub fn grid_card_icon_slot(thumbnail_size: i32) -> (slot: i32)
    ensures
        slot == icon_slot(thumbnail_size as int),
{
    icons_card_icon_slot(thumbnail_size)
}

/// Width and height of a grid card.
pub fn grid_card_extent(thumbnail_size: i32) -> (extent: (i32, i32))
    ensures
        extent.0 == if icon_slot(thumbnail_size as int) > FALLBACK_GRID_COLUMN_WIDTH
            - GRID_CARD_SPACING {
            icon_slot(thumbnail_size as int)
        } else {
            FALLBACK_GRID_COLUMN_WIDTH - GRID_CARD_SPACING
        },
        extent.1 == icon_slot(thumbnail_size as int) + 43,
{
    icons_card_extent(thumbnail_size)
}

/// Whether hidden files are shown in a column: by the column's own preference if it has one,
/// or else by the general one.
pub open spec fn hidden_shown(column: Option<bool>, general: bool) -> bool {
    match column {
        Some(own) => own,
        None => general,
    }
}

pub fn shows_hidden(column: Option<bool>, general: bool) -> (shown: bool)
    ensures
        shown == hidden_shown(column, general),
{
    match column {
        Some(own) => own,
        None => general,
    }
}

/// A value that is known, not asked for yet, or not to be had.
#[derive(Clone, Copy, Debug, PartialEq, Eq, Structural)]
pub enum MetadataValue {
    Known(u64),
    Unknown,
    Unavailable,
}

/// What is known of an entry beside its name.
#[derive(Clone, Copy, Debug, PartialEq, Eq, Structural)]
pub struct EntryMetadata {
    pub size: MetadataValue,
    pub modified: MetadataValue,
    pub mode: MetadataValue,
}

/// The position of an entry whose metadata should be asked for: one that has a position,
/// and lacks its size, its time, or, if `needs_mode`, its mode.
pub fn metadata_fill_position(
    position: Option<usize>,
    entry: &EntryMetadata,
    needs_mode: bool,
) -> (fill: Option<usize>)
    ensures
        fill == if entry.size == MetadataValue::Unknown || entry.modified == MetadataValue::Unknown
            || (needs_mode && entry.mode == MetadataValue::Unknown) {
            position
        } else {
            None
        },
{
    if entry.size == MetadataValue::Unknown || entry.modified == MetadataValue::Unknown || (
    needs_mode && entry.mode == MetadataValue::Unknown) {
        position
    } else {
        None
    }
}

/// What an entry is.
#[derive(Clone, Copy, Debug, PartialEq, Eq, Structural)]
pub enum EntryKind {
    Directory,
    DirectorySymbolicLink,
    File,
    FileSymbolicLink,
    SymbolicLink,
    Other,
}

/// What an entry is, in words.
pub fn entry_type(kind: EntryKind) -> (label: &'static str)
    ensures
        label@ == match kind {
            EntryKind::Directory => "Folder"@,
            EntryKind::DirectorySymbolicLink => "Folder link"@,
            EntryKind::File => "File"@,
            EntryKind::FileSymbolicLink => "File link"@,
            EntryKind::SymbolicLink => "Broken link"@,
            EntryKind::Other => "Other"@,
        },
{
    match kind {
        EntryKind::Directory => "Folder",
        EntryKind::DirectorySymbolicLink => "Folder link",
        EntryKind::File => "File",
        EntryKind::FileSymbolicLink => "File link",
        EntryKind::SymbolicLink => "Broken link",
        EntryKind::Other => "Other",
    }
}

/// The number of bytes to show for an entry: none for a folder or an unknown size.
pub fn entry_size(is_directory: bool, size: MetadataValue) -> (bytes: Option<u64>)
    ensures
        bytes == match size {
            MetadataValue::Known(bytes) if !is_directory => Some(bytes),
            _ => None,
        },
{
    if is_directory {
        return None;
    }
    match size {
        MetadataValue::Known(bytes) => Some(bytes),
        _ => None,
    }
}

/// Each mode has its page, and each density its number of columns.
pub proof fn modes_and_densities_have_their_own()
    ensures
        BrowserMode::Columns.page() == "columns"@,
        BrowserMode::Grid.page() == "grid"@,
        BrowserMode::Explorer.page() == "explorer"@,
        BrowserDensity::Compact.columns() == 20,
        BrowserDensity::Airy.columns() == 16,
{
}

/// One click opens an entry exactly if one click opens its kind, files or folders; further clicks
/// of a series do not.
pub proof fn clicks_open_what_they_should(
    press_count: i32,
    is_directory: bool,
    activation: ClickActivation,
)
    ensures
        press_count != 1 ==> !activates(press_count, is_directory, activation),
        activates(1, true, activation) <==> activation.folders == ClickCount::One,
        activates(1, false, activation) <==> activation.files == ClickCount::One,
{
}

/// Files open with two clicks at first, and so do folders but for those in columns.
pub proof fn two_clicks_open_at_first(mode: BrowserMode)
    ensures
        ClickActivation::initial(mode).files == ClickCount::Two,
        mode == BrowserMode::Columns <==> ClickActivation::initial(mode).folders == ClickCount::One,
        ClickCount::One.number() == 1,
        ClickCount::Two.number() == 2,
{
}

/// As many columns are shown as fit, but at least one and no more than the density allows; columns
/// that are shown side by side fit, unless there is just the one.
pub proof fn columns_fit(width: int, column: int, density: BrowserDensity)
    requires
        width >= 0,
        column >= 1,
    ensures
        ({
            let count = fitting_columns(width, column, density);
            let most = if density == BrowserDensity::Compact {
                20int
            } else {
                16int
            };
            &&& 1 <= count <= most
            &&& count > 1 ==> count * column <= width
            &&& count < most ==> (count + 1) * column > width
        }),
{
    let fitting = width / column;
    vstd::arithmetic::div_mod::lemma_fundamental_div_mod(width, column);
    let count = fitting_columns(width, column, density);
    assert(count > 1 ==> count * column <= width) by (nonlinear_arith)
        requires
            count > 1 ==> count <= fitting,
            width == column * fitting + width % column,
            0 <= width % column < column,
            column >= 1,
            width >= 0,
    ;
    assert((fitting + 1) * column > width) by (nonlinear_arith)
        requires
            width == column * fitting + width % column,
            0 <= width % column < column,
    ;
    if fitting < 1 {
        assert((count + 1) * column > width) by (nonlinear_arith)
            requires
                count == 1,
                fitting <= 0,
                (fitting + 1) * column > width,
                column >= 1,
        ;
    }
}

/// A column's own preference decides whether it shows hidden files; without one the general one
/// does.
pub proof fn own_preferences_go_first(own: bool, general: bool)
    ensures
        hidden_shown(Some(own), general) == own,
        hidden_shown(None, general) == general,
{
}

/// The sizes that grids go by.
pub proof fn grid_sizes()
    ensures
        DEFAULT_GRID_THUMBNAIL_SIZE == 64,
        MIN_GRID_THUMBNAIL_SIZE == 64,
        MAX_GRID_THUMBNAIL_SIZE == 256,
        FALLBACK_GRID_COLUMN_WIDTH == 160,
        GRID_CARD_SPACING == 4,
{
}

/// Metadata is asked for at the entry's own place, and only while some of it is not known.
pub proof fn only_missing_metadata_is_asked_for(
    position: Option<usize>,
    entry: &EntryMetadata,
    needs_mode: bool,
    fill: Option<usize>,
)
    requires
        call_ensures(metadata_fill_position, (position, entry, needs_mode), fill),
    ensures
        fill is Some ==> fill == position,
        entry.size is Unknown || entry.modified is Unknown ==> fill == position,
        !(entry.size is Unknown) && !(entry.modified is Unknown) && !needs_mode ==> fill is None,
        needs_mode && entry.mode is Unknown ==> fill == position,
        !(entry.size is Unknown) && !(entry.modified is Unknown) && !(entry.mode is Unknown)
            ==> fill is None,
{
}

} // verus!
