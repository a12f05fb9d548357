//! The table of the explorer: columns, headings, sorting.
use vstd::prelude::*;

verus! {

/// Columns of the table: name, size, type, time of the last change.
pub const EXPLORER_COLUMNS: usize = 4;

/// Microseconds within which a second press on a handle fits its column to its contents.
pub const AUTOFIT_PRESS_INTERVAL: u64 = 400_000;

/// The width that a column starts with.
pub open spec fn initial_width(index: int) -> int {
    if index == 0 {
        160
    } else if index == 1 {
        90
    } else if index == 2 {
        120
    } else {
        150
    }
}

/// The width that a column has at least.
pub open spec fn minimum_width(index: int) -> int {
    if index == 0 {
        160
    } else if index == 1 {
        70
    } else if index == 2 {
        80
    } else {
        110
    }
}

/// A column starts no narrower than it may get.
pub proof fn initial_widths_respect_minimums(index: int)
    ensures
        initial_width(index) >= minimum_width(index),
{
}

/// The width that a column starts with.
pub fn default_column_width(index: usize) -> (width: i32)
    requires
        index < EXPLORER_COLUMNS,
    ensures
        width == initial_width(index as int),
{
    match index {
        0 => 160,
        1 => 90,
        2 => 120,
        _ => 150,
    }
}

/// The width that a column has at least.
pub fn minimum_column_width(index: usize) -> (width: i32)
    requires
        index < EXPLORER_COLUMNS,
    ensures
        width == minimum_width(index as int),
{
    match index {
        0 => 160,
        1 => 70,
        2 => 80,
        _ => 110,
    }
}

/// The width that a column gets when it is asked to have `width`.
pub open spec fn allowed_width(index: int, width: int) -> int {
    if width < minimum_width(index) {
        minimum_width(index)
    } else {
        width
    }
}

pub fn explorer_column_width(index: usize, width: i32) -> (allowed: i32)
    requires
        index < EXPLORER_COLUMNS,
    ensures
        allowed == allowed_width(index as int, width as int),
{
    let minimum: i32 = minimum_column_width(index);
    if width < minimum {
        minimum
    } else {
        width
    }
}

/// The widths of the columns, and whether the user has set that of the first.
#[derive(Debug)]
pub struct ExplorerColumnLayout {
    widths: Vec<i32>,
    name_manually_resized: bool,
}

/// A layout as a value.
pub ghost struct LayoutView {
    pub widths: Seq<i32>,
    pub name_resized: bool,
}

impl View for ExplorerColumnLayout {
    type V = LayoutView;

    closed spec fn view(&self) -> LayoutView {
        LayoutView { widths: self.widths@, name_resized: self.name_manually_resized }
    }
}

impl LayoutView {
    /// There are four columns, none too narrow.
    pub open spec fn wf(self) -> bool {
        &&& self.widths.len() == EXPLORER_COLUMNS
        &&& forall|i: int| 0 <= i < EXPLORER_COLUMNS ==> #[trigger] self.widths[i] >= minimum_width(i)
    }
}

impl ExplorerColumnLayout {
    /// The layout that a table starts with.
    pub fn new() -> (layout: Self)
        ensures
            layout@.wf(),
            !layout@.name_resized,
            forall|i: int| 0 <= i < EXPLORER_COLUMNS ==> #[trigger] layout@.widths[i] == initial_width(i),
    {
        let mut widths: Vec<i32> = Vec::new();
        widths.push(160);
        widths.push(90);
        widths.push(120);
        widths.push(150);
        ExplorerColumnLayout { widths, name_manually_resized: false }
    }

    /// What a new cell of a column asks for: a width, and whether it takes up spare room,
    /// which the first column does until the user sets its width.
    pub fn cell_request(&self, index: usize) -> (request: (i32, bool))
        requires
            self@.wf(),
            index < EXPLORER_COLUMNS,
        ensures
            request.0 == self@.widths[index as int],
            request.1 == (index == 0 && !self@.name_resized),
    {
        (self.widths[index], index == 0 && !self.name_manually_resized)
    }

    /// Sets the width of a column, as far as it is allowed, and gives the width set.
    pub fn set_explorer_column_width(&mut self, index: usize, width: i32) -> (set: i32)
        requires
            old(self)@.wf(),
            index < EXPLORER_COLUMNS,
        ensures
            set == allowed_width(index as int, width as int),
            final(self)@ == (LayoutView {
                widths: old(self)@.widths.update(index as int, set),
                name_resized: old(self)@.name_resized || index == 0,
            }),
            final(self)@.wf(),
    {
        let allowed: i32 = explorer_column_width(index, width);
        let ghost before = self@;
        self.widths[index] = allowed;
        if index == 0 {
            self.name_manually_resized = true;
        }
        proof {
            assert(self@.widths =~= before.widths.update(index as int, allowed));
            assert forall|i: int| 0 <= i < EXPLORER_COLUMNS implies #[trigger] self@.widths[i]
                >= minimum_width(i) by {
                if i != index {
                    assert(self@.widths[i] == before.widths[i]);
                }
            }
        }
        allowed
    }

    /// Begins to drag the handle of a column, at `now` microseconds, the last press having
    /// been at `last_press`. A second press in short order fits the column to its widest
    /// cell; otherwise the drag starts from the width that the column has now.
    pub fn begin_resize(
        &mut self,
        index: usize,
        now: u64,
        last_press: u64,
        natural_widths: &[i32],
        current_width: Option<i32>,
    ) -> (begun: ResizeStart)
        requires
            old(self)@.wf(),
            index < EXPLORER_COLUMNS,
        ensures
            begun == if presses_twice(now, last_press) {
                ResizeStart::Fitted(
                    allowed_width(
                        index as int,
                        widest(natural_widths@, initial_width(index as int)),
                    ) as i32,
                )
            } else {
                ResizeStart::Dragging(
                    allowed_width(
                        index as int,
                        match current_width {
                            Some(width) => width as int,
                            None => initial_width(index as int),
                        },
                    ) as i32,
                )
            },
            final(self)@ == if presses_twice(now, last_press) {
                LayoutView {
                    widths: old(self)@.widths.update(index as int, begun->Fitted_0),
                    name_resized: old(self)@.name_resized || index == 0,
                }
            } else {
                old(self)@
            },
            final(self)@.wf(),
    {
        if now.wrapping_sub(last_press) <= AUTOFIT_PRESS_INTERVAL {
            let natural: i32 = widest_width(natural_widths, default_column_width(index));
            let width: i32 = self.set_explorer_column_width(index, natural);
            return ResizeStart::Fitted(width);
        }
        let width: i32 = match current_width {
            Some(width) => width,
            None => default_column_width(index),
        };
        ResizeStart::Dragging(explorer_column_width(index, width))
    }
}

/// What a press on the handle of a column begins.
#[derive(Clone, Copy, Debug, PartialEq, Eq, Structural)]
pub enum ResizeStart {
    /// The column was fitted to its contents; there is nothing to drag.
    Fitted(i32),
    /// A drag from this width.
    Dragging(i32),
}

/// Whether a press comes within a short time of the last one, on a clock that wraps.
pub open spec fn presses_twice(now: u64, last_press: u64) -> bool {
    (if now >= last_press {
        now - last_press
    } else {
        now - last_press + 0x1_0000_0000_0000_0000
    }) <= AUTOFIT_PRESS_INTERVAL
}

/// The largest of some widths, or `fallback` if there are none.
pub open spec fn widest(widths: Seq<i32>, fallback: int) -> int
    decreases widths.len(),
{
    if widths.len() == 0 {
        fallback
    } else if widths.len() == 1 {
        widths[0] as int
    } else {
        let rest = widest(widths.drop_last(), fallback);
        if widths.last() > rest {
            widths.last() as int
        } else {
            rest
        }
    }
}

fn widest_width(widths: &[i32], fallback: i32) -> (width: i32)
    ensures
        width == widest(widths@, fallback as int),
{
    if widths.len() == 0 {
        return fallback;
    }
    let mut width: i32 = widths[0];
    let mut index: usize = 1;
    assert(widths@.take(1).len() == 1);
    while index < widths.len()
        invariant
            1 <= index <= widths.len(),
            width == widest(widths@.take(index as int), fallback as int),
        decreases widths.len() - index,
    {
        assert(widths@.take(index + 1).drop_last() =~= widths@.take(index as int));
        if widths[index] > width {
            width = widths[index];
        }
        index = index + 1;
    }
    assert(widths@.take(index as int) =~= widths@);
    width
}

/// What a table is sorted by.
#[derive(Clone, Copy, Debug, PartialEq, Eq, Structural)]
pub enum SortKey {
    Name,
    Size,
    Type,
    Modified,
}

#[derive(Clone, Copy, Debug, PartialEq, Eq, Structural)]
pub enum SortDirection {
    Ascending,
    Descending,
}

impl SortDirection {
    /// The other direction.
    pub open spec fn turned(self) -> SortDirection {
        match self {
            SortDirection::Ascending => SortDirection::Descending,
            SortDirection::Descending => SortDirection::Ascending,
        }
    }
}

/// The heading of a column and what it sorts by.
pub fn explorer_heading(index: usize) -> (heading: (&'static str, SortKey))
    requires
        index < EXPLORER_COLUMNS,
    ensures
        heading.1 == heading_key(index as int),
        heading.0@ == match heading.1 {
            SortKey::Name => "Name"@,
            SortKey::Size => "Size"@,
            SortKey::Type => "Type"@,
            SortKey::Modified => "Modified"@,
        },
{
    match index {
        0 => ("Name", SortKey::Name),
        1 => ("Size", SortKey::Size),
        2 => ("Type", SortKey::Type),
        _ => ("Modified", SortKey::Modified),
    }
}

/// What the heading of a column sorts by.
pub open spec fn heading_key(index: int) -> SortKey {
    if index == 0 {
        SortKey::Name
    } else if index == 1 {
        SortKey::Size
    } else if index == 2 {
        SortKey::Type
    } else {
        SortKey::Modified
    }
}

/// How a table is sorted.
#[derive(Clone, Copy, Debug, PartialEq, Eq, Structural)]
pub struct Sorting {
    pub key: SortKey,
    pub direction: SortDirection,
}

/// The sorting after a click on a heading: the same key turns round, another key begins
/// ascending.
pub open spec fn clicked(sorting: Sorting, key: SortKey) -> Sorting {
    Sorting {
        key,
        direction: if sorting.key == key {
            sorting.direction.turned()
        } else {
            SortDirection::Ascending
        },
    }
}

/// The arrow on the heading of one column: none, or the direction.
pub open spec fn arrow(sorting: Sorting, index: int) -> Option<SortDirection> {
    if sorting.key == heading_key(index) {
        Some(sorting.direction)
    } else {
        None
    }
}

/// The arrow on the heading of one column.
pub fn heading_arrow(sorting: Sorting, index: usize) -> (shown: Option<SortDirection>)
    requires
        index < EXPLORER_COLUMNS,
    ensures
        shown == arrow(sorting, index as int),
{
    let (_, key) = explorer_heading(index);
    if sorting.key == key {
        Some(sorting.direction)
    } else {
        None
    }
}

/// Sorts by a heading that was clicked.
pub fn click_heading(sorting: Sorting, index: usize) -> (sorted: Sorting)
    requires
        index < EXPLORER_COLUMNS,
    ensures
        sorted == clicked(sorting, heading_key(index as int)),
{
    let (_, key) = explorer_heading(index);
    let direction = if sorting.key == key {
        match sorting.direction {
            SortDirection::Ascending => SortDirection::Descending,
            SortDirection::Descending => SortDirection::Ascending,
        }
    } else {
        SortDirection::Ascending
    };
    Sorting { key, direction }
}

/// Exactly one heading has an arrow, and clicking a heading twice after another turns its
/// arrow round.
pub proof fn one_heading_has_the_arrow(sorting: Sorting, index: int, other: int)
    requires
        0 <= index < EXPLORER_COLUMNS,
        0 <= other < EXPLORER_COLUMNS,
        index != other,
    ensures
        arrow(clicked(sorting, heading_key(index)), index) is Some,
        arrow(clicked(sorting, heading_key(index)), other) is None,
        sorting.key != heading_key(index) ==> clicked(
            clicked(sorting, heading_key(index)),
            heading_key(index),
        ).direction == SortDirection::Descending,
{
}

/// The widths that columns start with, and those that they have at least.
pub proof fn columns_have_their_widths()
    ensures
        initial_width(0) == 160 && minimum_width(0) == 160,
        initial_width(1) == 90 && minimum_width(1) == 70,
        initial_width(2) == 120 && minimum_width(2) == 80,
        initial_width(3) == 150 && minimum_width(3) == 110,
{
}

/// A column gets the width it is asked to have, unless that is less than it has at least.
pub proof fn columns_get_the_width_they_are_given(index: int, width: int)
    ensures
        allowed_width(index, width) == vstd::math::max(width, minimum_width(index)),
{
}

/// The widest of some cells is as wide as one of them, and none is wider; without cells it is what
/// was given instead.
pub proof fn the_widest_cell_decides(widths: Seq<i32>, fallback: int)
    ensures
        widths.len() == 0 ==> widest(widths, fallback) == fallback,
        widths.len() > 0 ==> exists|i: int|
            0 <= i < widths.len() && #[trigger] widths[i] == widest(widths, fallback),
        forall|i: int| 0 <= i < widths.len() ==> #[trigger] widths[i] <= widest(widths, fallback),
    decreases widths.len(),
{
    if widths.len() == 1 {
        assert(widths[0] == widest(widths, fallback));
    } else if widths.len() > 1 {
        let rest = widths.drop_last();
        the_widest_cell_decides(rest, fallback);
        assert forall|i: int| 0 <= i < widths.len() implies #[trigger] widths[i] <= widest(
            widths,
            fallback,
        ) by {
            if i < rest.len() {
                assert(rest[i] == widths[i]);
            }
        }
        let top = widest(rest, fallback);
        if widths.last() > top {
            assert(widths[widths.len() - 1] == widest(widths, fallback));
        } else {
            let i = choose|i: int| 0 <= i < rest.len() && #[trigger] rest[i] == top;
            assert(widths[i] == widest(widths, fallback));
        }
    }
}

/// Two presses within four tenths of a second are one double press, also where the clock wraps
/// between them.
pub proof fn double_presses_are_quick(now: u64, last_press: u64)
    ensures
        now >= last_press ==> (presses_twice(now, last_press) <==> now - last_press <= 400_000),
        now < last_press ==> (presses_twice(now, last_press) <==> last_press - now
            >= 0x1_0000_0000_0000_0000 - 400_000),
{
}

/// The headings sort by name, size, type and time, from the first on.
pub proof fn headings_sort_by_their_column()
    ensures
        heading_key(0) == SortKey::Name,
        heading_key(1) == SortKey::Size,
        heading_key(2) == SortKey::Type,
        heading_key(3) == SortKey::Modified,
{
}

/// A click on a heading sorts by it: the one that was sorted by already the other way round, any
/// other in ascending order. The arrow shows just what is sorted by, and which way.
pub proof fn clicks_sort(sorting: Sorting, key: SortKey, index: int)
    ensures
        clicked(sorting, key).key == key,
        sorting.key != key ==> clicked(sorting, key).direction == SortDirection::Ascending,
        sorting.key == key ==> clicked(sorting, key).direction != sorting.direction,
        clicked(clicked(sorting, key), key).direction != clicked(sorting, key).direction,
        arrow(sorting, index) is Some <==> sorting.key == heading_key(index),
        arrow(sorting, index) is Some ==> arrow(sorting, index)->0 == sorting.direction,
{
}

} // verus!
