//! Selections: what is selected in the sections of a pane, and what clicks and drags do
//! to it.
use vstd::prelude::*;

use crate::listing::{source_of, view_position, view_position_for_source, SourceIndexMap};

verus! {

/// The position of an item that is in no list.
pub const INVALID_LIST_POSITION: u32 = u32::MAX;

/// Whether positions go up, none twice.
pub open spec fn ascending(positions: Seq<usize>) -> bool {
    forall|i: int, j: int| 0 <= i < j < positions.len() ==> positions[i] < positions[j]
}

/// The positions in the list of what is selected at `selected` of a view, as far as they
/// are entries of the list.
pub open spec fn sources_of(map: Map<u64, usize>, view: Seq<u64>, selected: Seq<u32>) -> Seq<usize>
    decreases selected.len(),
{
    if selected.len() == 0 {
        Seq::empty()
    } else {
        let before = sources_of(map, view, selected.drop_last());
        match source_of(map, view, selected.last() as int) {
            Some(position) => before.push(position),
            None => before,
        }
    }
}

/// The positions in the list of what is selected in a view.
pub fn selected_source_positions(map: &SourceIndexMap, view: &[u64], selected: &[u32]) -> (positions:
    Vec<usize>)
    ensures
        positions@ == sources_of(map@, view@, selected@),
{
    let mut positions: Vec<usize> = Vec::new();
    let mut index: usize = 0;
    assert(selected@.take(0) =~= Seq::<u32>::empty());
    while index < selected.len()
        invariant
            index <= selected.len(),
            positions@ == sources_of(map@, view@, selected@.take(index as int)),
        decreases selected.len() - index,
    {
        assert(selected@.take(index + 1).drop_last() =~= selected@.take(index as int));
        if let Some(position) = map.of_view_position(view, selected[index]) {
            positions.push(position);
        }
        index = index + 1;
    }
    assert(selected@.take(index as int) =~= selected@);
    positions
}

fn insert_position(sorted: &mut Vec<usize>, position: usize)
    requires
        ascending(old(sorted)@),
    ensures
        ascending(final(sorted)@),
        forall|p: usize| #[trigger]
            final(sorted)@.contains(p) <==> old(sorted)@.contains(p) || p == position,
{
    let ghost before = sorted@;
    let mut at: usize = sorted.len();
    while at > 0 && sorted[at - 1] > position
        invariant
            at <= sorted.len(),
            sorted@ == before,
            ascending(before),
            forall|i: int| at <= i < before.len() ==> before[i] > position,
        decreases at,
    {
        at = at - 1;
    }
    if at > 0 && sorted[at - 1] == position {
        assert(before[at - 1] == position);
        return;
    }
    sorted.insert(at, position);
    proof {
        assert(sorted@ =~= before.take(at as int).push(position) + before.skip(at as int));
        assert forall|i: int, j: int| 0 <= i < j < sorted@.len() implies sorted@[i]
            < sorted@[j] by {
            let from_i = if i < at { i } else { i - 1 };
            let from_j = if j < at { j } else { j - 1 };
            if i < at && j == at {
                if i < at - 1 {
                    assert(before[i] < before[at - 1]);
                }
            } else if i != at && j != at {
                assert(before[from_i] < before[from_j]);
            }
        }
        assert forall|p: usize| #[trigger]
            sorted@.contains(p) <==> before.contains(p) || p == position by {
            if sorted@.contains(p) {
                let i = sorted@.index_of(p);
                if i < at {
                    assert(before[i] == p);
                } else if i > at {
                    assert(before[i - 1] == p);
                }
            }
            if before.contains(p) {
                let i = before.index_of(p);
                if i < at {
                    assert(sorted@[i] == p);
                } else {
                    assert(sorted@[i + 1] == p);
                }
            }
            if p == position {
                assert(sorted@[at as int] == p);
            }
        }
    }
}

/// The positions in a view of entries of the list, as far as the view has them.
pub open spec fn positions_in_view(source: Seq<u64>, view: Seq<u64>, positions: Seq<usize>) -> Seq<
    u32,
>
    decreases positions.len(),
{
    if positions.len() == 0 {
        Seq::empty()
    } else {
        let before = positions_in_view(source, view, positions.drop_last());
        match view_position(source, view, positions.last() as int) {
            Some(at) => before.push(at),
            None => before,
        }
    }
}

/// What to select in a view so that just these entries of the list are selected.
pub fn set_selections(source: &[u64], view: &[u64], positions: &[usize]) -> (selected: Vec<u32>)
    requires
        view@.len() <= u32::MAX,
    ensures
        selected@ == positions_in_view(source@, view@, positions@),
{
    let mut selected: Vec<u32> = Vec::new();
    let mut index: usize = 0;
    assert(positions@.take(0) =~= Seq::<usize>::empty());
    while index < positions.len()
        invariant
            index <= positions.len(),
            view@.len() <= u32::MAX,
            selected@ == positions_in_view(source@, view@, positions@.take(index as int)),
        decreases positions.len() - index,
    {
        assert(positions@.take(index + 1).drop_last() =~= positions@.take(index as int));
        if let Some(at) = view_position_for_source(source, Some(view), positions[index]) {
            selected.push(at);
        }
        index = index + 1;
    }
    assert(positions@.take(index as int) =~= positions@);
    selected
}

/// Setting a selection and reading it back gives the entries that were set, as far as the
/// view has them.
pub proof fn selections_read_back(source: Seq<u64>, view: Seq<u64>, positions: Seq<usize>)
    requires
        source.no_duplicates(),
        source.len() <= u32::MAX,
        view.len() <= u32::MAX,
        forall|i: int| 0 <= i < positions.len() ==> #[trigger] positions[i] < source.len(),
        forall|i: int| 0 <= i < positions.len() ==> view.contains(source[#[trigger] positions[i] as int]),
    ensures
        sources_of(
            crate::listing::index_map(source),
            view,
            positions_in_view(source, view, positions),
        ) == positions,
    decreases positions.len(),
{
    if positions.len() > 0 {
        let rest = positions.drop_last();
        let last = positions.last();
        assert(positions[positions.len() - 1] == last);
        assert forall|i: int| 0 <= i < rest.len() implies #[trigger] rest[i] < source.len() by {
            assert(positions[i] == rest[i]);
        }
        assert forall|i: int| 0 <= i < rest.len() implies view.contains(
            source[#[trigger] rest[i] as int],
        ) by {
            assert(positions[i] == rest[i]);
        }
        selections_read_back(source, view, rest);
        crate::listing::view_position_finds_the_entry(source, view, last as int);
        let at = view_position(source, view, last as int)->0;
        crate::listing::views_lead_back(source, view, last as int, at as int);
        let before = positions_in_view(source, view, rest);
        assert(before.push(at).drop_last() =~= before);
        assert(positions =~= rest.push(last));
    } else {
        assert(positions =~= Seq::<usize>::empty());
    }
}

/// What is selected in one section of a pane: the view's entries, and the selected
/// positions in it.
#[derive(Debug)]
pub struct SectionSelection {
    pub view: Vec<u64>,
    pub selected: Vec<u32>,
}

/// Whether an entry of the list is selected in one of the sections.
pub open spec fn is_selected_source(
    map: Map<u64, usize>,
    sections: Seq<SectionSelection>,
    position: usize,
) -> bool {
    exists|i: int|
        0 <= i < sections.len() && #[trigger] section_sources(map, sections[i]).contains(position)
}

/// The positions in the list of what is selected in one section.
pub open spec fn section_sources(map: Map<u64, usize>, section: SectionSelection) -> Seq<usize> {
    sources_of(map, section.view@, section.selected@)
}

/// The positions in the list of everything that is selected in a pane, in order.
pub fn pane_selection(map: &SourceIndexMap, sections: &[SectionSelection]) -> (positions: Vec<usize>)
    ensures
        ascending(positions@),
        forall|p: usize| #[trigger]
            positions@.contains(p) <==> is_selected_source(map@, sections@, p),
{
    let mut positions: Vec<usize> = Vec::new();
    let mut index: usize = 0;
    while index < sections.len()
        invariant
            index <= sections.len(),
            ascending(positions@),
            forall|p: usize| #[trigger]
                positions@.contains(p) <==> is_selected_source(
                    map@,
                    sections@.take(index as int),
                    p,
                ),
        decreases sections.len() - index,
    {
        let section = &sections[index];
        let found = selected_source_positions(
            map,
            section.view.as_slice(),
            section.selected.as_slice(),
        );
        let ghost earlier = positions@;
        let mut next: usize = 0;
        while next < found.len()
            invariant
                next <= found.len(),
                ascending(positions@),
                forall|p: usize| #[trigger]
                    positions@.contains(p) <==> earlier.contains(p) || exists|i: int|
                        0 <= i < next && found@[i] == p,
            decreases found.len() - next,
        {
            let ghost prior = positions@;
            insert_position(&mut positions, found[next]);
            proof {
                assert forall|p: usize| #[trigger]
                    positions@.contains(p) <==> earlier.contains(p) || exists|i: int|
                        0 <= i < next + 1 && found@[i] == p by {
                    assert(positions@.contains(p) <==> prior.contains(p) || p
                        == found@[next as int]);
                    if exists|i: int| 0 <= i < next + 1 && found@[i] == p {
                        let i = choose|i: int| 0 <= i < next + 1 && found@[i] == p;
                        if i < next {
                            assert(found@[i] == p);
                        }
                    }
                }
            }
            next = next + 1;
        }
        proof {
            let taken = sections@.take(index as int);
            let more = sections@.take(index + 1);
            assert forall|p: usize| #[trigger]
                positions@.contains(p) <==> is_selected_source(map@, more, p) by {
                if earlier.contains(p) {
                    assert(is_selected_source(map@, taken, p));
                    let i = choose|i: int|
                        0 <= i < taken.len() && #[trigger] section_sources(
                            map@,
                            taken[i],
                        ).contains(p);
                    assert(more[i] == taken[i]);
                    assert(section_sources(map@, more[i]).contains(p));
                }
                if exists|i: int| 0 <= i < found@.len() && found@[i] == p {
                    assert(more[index as int] == *section);
                    assert(section_sources(map@, more[index as int]).contains(p));
                }
                if is_selected_source(map@, more, p) {
                    let i = choose|i: int|
                        0 <= i < more.len() && #[trigger] section_sources(
                            map@,
                            more[i],
                        ).contains(p);
                    if i < index {
                        assert(taken[i] == more[i]);
                        assert(section_sources(map@, taken[i]).contains(p));
                        assert(is_selected_source(map@, taken, p));
                    } else {
                        let k = found@.index_of(p);
                        assert(found@[k] == p);
                    }
                }
            }
        }
        index = index + 1;
    }
    assert(sections@.take(index as int) =~= sections@);
    positions
}

/// The selection that a pane reports: all selected positions in order, and the one with
/// the focus, which is the last unless another is given.
pub fn sync_browser_selection(
    map: &SourceIndexMap,
    sections: &[SectionSelection],
    focused: Option<usize>,
) -> (report: (Vec<usize>, Option<usize>))
    ensures
        ascending(report.0@),
        forall|p: usize| #[trigger]
            report.0@.contains(p) <==> is_selected_source(map@, sections@, p),
        report.1 == if focused is Some {
            focused
        } else if report.0@.len() > 0 {
            Some(report.0@.last())
        } else {
            None
        },
{
    let positions = pane_selection(map, sections);
    let focus: Option<usize> = match focused {
        Some(position) => Some(position),
        None => {
            if positions.len() > 0 {
                Some(positions[positions.len() - 1])
            } else {
                None
            }
        },
    };
    (positions, focus)
}

/// The entry with the focus after the selection of one section changed: the last that is
/// selected there.
pub fn section_focus(map: &SourceIndexMap, section: &SectionSelection) -> (focused: Option<usize>)
    ensures
        focused == {
            let positions = section_sources(map@, *section);
            if positions.len() > 0 {
                Some(positions.last())
            } else {
                None
            }
        },
{
    let positions = selected_source_positions(
        map,
        section.view.as_slice(),
        section.selected.as_slice(),
    );
    if positions.len() > 0 {
        Some(positions[positions.len() - 1])
    } else {
        None
    }
}

/// Two ascending runs of the same positions are the same run, so that what a pane reports
/// depends on the selection alone.
pub proof fn ascending_positions_are_determined(left: Seq<usize>, right: Seq<usize>)
    requires
        ascending(left),
        ascending(right),
        forall|p: usize| #[trigger] left.contains(p) <==> right.contains(p),
    ensures
        left == right,
    decreases left.len(),
{
    if left.len() == 0 {
        if right.len() > 0 {
            assert(right.contains(right[0]));
            assert(left.contains(right[0]));
        }
        assert(left =~= right);
    } else {
        assert(left.contains(left.last()));
        assert(right.contains(left.last()));
        assert(right.contains(right.last()));
        assert(left.contains(right.last()));
        let i = right.index_of(left.last());
        let j = left.index_of(right.last());
        assert(left.last() == right.last()) by {
            if i < right.len() - 1 {
                assert(right[i] < right[right.len() - 1]);
            }
            if j < left.len() - 1 {
                assert(left[j] < left[left.len() - 1]);
            }
        }
        let a = left.drop_last();
        let b = right.drop_last();
        assert forall|p: usize| #[trigger] a.contains(p) <==> b.contains(p) by {
            if a.contains(p) {
                let k = a.index_of(p);
                assert(left[k] == p && left[k] < left[left.len() - 1]);
                assert(left.contains(p));
                let m = right.index_of(p);
                assert(m < right.len() - 1);
                assert(b[m] == p);
            }
            if b.contains(p) {
                let k = b.index_of(p);
                assert(right[k] == p && right[k] < right[right.len() - 1]);
                assert(right.contains(p));
                assert(left.contains(p));
                let m = left.index_of(p);
                assert(m < left.len() - 1);
                assert(a[m] == p);
            }
        }
        ascending_positions_are_determined(a, b);
        assert(left =~= a.push(left.last()));
        assert(right =~= b.push(right.last()));
    }
}

/// What a click with modifier keys does to a selection.
#[derive(Clone, Copy, Debug, PartialEq, Eq, Structural)]
pub enum SelectionClick {
    /// Leave it to the view.
    Pass,
    /// Select these and nothing else.
    Range { start: u32, count: u32 },
    /// Add one to what is selected.
    Select(u32),
    /// Take one out of what is selected.
    Unselect(u32),
}

/// What a press on the item at `position` does: with Shift it selects from the anchor to
/// the item, with Control it turns the item on or off. All but Shift move the anchor.
pub fn modified_selection_click(
    position: u32,
    control: bool,
    shift: bool,
    anchor: Option<u32>,
    is_selected: bool,
) -> (click: (SelectionClick, Option<u32>))
    requires
        anchor != Some(INVALID_LIST_POSITION),
    ensures
        position == INVALID_LIST_POSITION ==> click == (SelectionClick::Pass, anchor),
        position != INVALID_LIST_POSITION && shift ==> click.1 == anchor && {
            let from = match anchor {
                Some(from) => from,
                None => position,
            };
            let (low, high) = if from < position {
                (from, position)
            } else {
                (position, from)
            };
            click.0 == (SelectionClick::Range { start: low, count: (high - low + 1) as u32 })
        },
        position != INVALID_LIST_POSITION && !shift && control ==> click == (
            if is_selected {
                SelectionClick::Unselect(position)
            } else {
                SelectionClick::Select(position)
            },
            Some(position),
        ),
        position != INVALID_LIST_POSITION && !shift && !control ==> click == (
            SelectionClick::Pass,
            Some(position),
        ),
{
    if position == INVALID_LIST_POSITION {
        return (SelectionClick::Pass, anchor);
    }
    if shift {
        let from: u32 = match anchor {
            Some(from) => from,
            None => position,
        };
        let (low, high): (u32, u32) = if from < position {
            (from, position)
        } else {
            (position, from)
        };
        (SelectionClick::Range { start: low, count: high - low + 1 }, anchor)
    } else if control {
        if is_selected {
            (SelectionClick::Unselect(position), Some(position))
        } else {
            (SelectionClick::Select(position), Some(position))
        }
    } else {
        (SelectionClick::Pass, Some(position))
    }
}

/// Whether a plain click on an item of section `clicked` clears section `i`: it has a
/// selection and is another one.
pub open spec fn clears_section(sections: Seq<SectionSelection>, clicked: int, i: int) -> bool {
    i != clicked && sections[i].selected@.len() > 0
}

/// The sections to clear after a plain click on an item of section `clicked`; a click with
/// a modifier key, or beside every item, clears none. If any is cleared, the pane reports
/// its selection anew.
pub fn exclusive_section_click(
    sections: &[SectionSelection],
    clicked: usize,
    modified: bool,
    on_item: bool,
) -> (cleared: Vec<usize>)
    ensures
        ascending(cleared@),
        forall|i: usize| #[trigger]
            cleared@.contains(i) <==> !modified && on_item && i < sections@.len() && clears_section(
                sections@,
                clicked as int,
                i as int,
            ),
{
    let mut cleared: Vec<usize> = Vec::new();
    if modified || !on_item {
        return cleared;
    }
    let mut index: usize = 0;
    while index < sections.len()
        invariant
            index <= sections.len(),
            !modified,
            on_item,
            ascending(cleared@),
            forall|i: usize| #[trigger]
                cleared@.contains(i) <==> i < index && clears_section(
                    sections@,
                    clicked as int,
                    i as int,
                ),
        decreases sections.len() - index,
    {
        if index != clicked && sections[index].selected.len() > 0 {
            let ghost before = cleared@;
            cleared.push(index);
            proof {
                assert forall|i: usize| #[trigger]
                    cleared@.contains(i) <==> i < index + 1 && clears_section(
                        sections@,
                        clicked as int,
                        i as int,
                    ) by {
                    if before.contains(i) {
                        let k = before.index_of(i);
                        assert(cleared@[k] == i);
                    }
                    if i == index {
                        assert(cleared@[before.len() as int] == i);
                    }
                    if cleared@.contains(i) && i != index {
                        let k = cleared@.index_of(i);
                        assert(before[k] == i);
                        assert(before.contains(i));
                    }
                }
                assert forall|i: int, j: int| 0 <= i < j < cleared@.len() implies cleared@[i]
                    < cleared@[j] by {
                    if j == before.len() {
                        assert(before.contains(before[i]));
                    }
                }
            }
        }
        index = index + 1;
    }
    cleared
}

/// The place in the list of an item, which is at `position` of its view or in no list.
/// `mapped` is where a view that differs from the list has it.
pub fn item_source(position: u32, mapped: Option<Option<usize>>) -> (source: Option<usize>)
    ensures
        source == match mapped {
            Some(place) => place,
            None => if position == INVALID_LIST_POSITION {
                None
            } else {
                Some(position as usize)
            },
        },
{
    match mapped {
        Some(place) => place,
        None => {
            if position == INVALID_LIST_POSITION {
                None
            } else {
                Some(position as usize)
            }
        },
    }
}

/// What is dragged with an entry, by numbers of locations: everything that is selected if
/// the entry is, or else the entry alone.
pub fn dragged_entries(entry: u64, selected: &[u64]) -> (dragged: Vec<u64>)
    ensures
        dragged@ == if selected@.contains(entry) {
            selected@
        } else {
            seq![entry]
        },
{
    let mut index: usize = 0;
    while index < selected.len()
        invariant
            index <= selected.len(),
            forall|i: int| 0 <= i < index ==> selected@[i] != entry,
        decreases selected.len() - index,
    {
        if selected[index] == entry {
            let mut dragged: Vec<u64> = Vec::new();
            dragged.extend_from_slice(selected);
            assert(dragged@ =~= selected@);
            return dragged;
        }
        index = index + 1;
    }
    let mut dragged: Vec<u64> = Vec::new();
    dragged.push(entry);
    assert(dragged@ =~= seq![entry]);
    dragged
}

/// Whether an item takes files that are dragged over it: it is a folder of the list, and
/// files are offered.
pub fn accepts_drop(source: Option<usize>, is_directory: Option<bool>, offers_files: bool) -> (accepts:
    bool)
    ensures
        accepts == (source is Some && is_directory == Some(true) && offers_files),
{
    let directory: bool = match is_directory {
        Some(directory) => directory,
        None => false,
    };
    source.is_some() && directory && offers_files
}

/// What a drop on an item starts: a transfer of the dropped files to the item's folder, by
/// numbers of locations; moving or copying.
#[derive(Debug, PartialEq, Eq)]
pub struct Transfer {
    pub destination: u64,
    pub sources: Vec<u64>,
    pub moving: bool,
}

/// What a drop on an item starts: nothing unless the item is a folder, files were dropped,
/// and someone handles transfers.
pub fn dropped(
    destination: Option<(u64, bool)>,
    sources: Option<Vec<u64>>,
    handled: bool,
    moving: bool,
) -> (transfer: Option<Transfer>)
    ensures
        match (destination, sources) {
            (Some((folder, true)), Some(files)) if handled => transfer == Some(
                Transfer { destination: folder, sources: files, moving },
            ),
            _ => transfer is None,
        },
{
    match (destination, sources) {
        (Some((folder, is_directory)), Some(files)) => {
            if is_directory && handled {
                Some(Transfer { destination: folder, sources: files, moving })
            } else {
                None
            }
        },
        _ => None,
    }
}

/// The entries that are selected in a view are those at the selected positions, in order, as far as
/// they are entries of the list.
pub proof fn selected_entries_are_found(map: Map<u64, usize>, view: Seq<u64>, selected: Seq<u32>)
    ensures
        sources_of(map, view, selected) == selected.filter_map(
            |position: u32|
                if position < view.len() && map.contains_key(view[position as int]) {
                    Some(map[view[position as int]])
                } else {
                    None
                },
        ),
    decreases selected.len(),
{
    if selected.len() > 0 {
        selected_entries_are_found(map, view, selected.drop_last());
        let before = sources_of(map, view, selected.drop_last());
        if let Some(position) = source_of(map, view, selected.last() as int) {
            assert(before.push(position) =~= before + seq![position]);
        }
    }
}

/// An entry is selected in a pane exactly if some section has it at a selected position.
pub proof fn sections_select_together(
    map: Map<u64, usize>,
    sections: Seq<SectionSelection>,
    position: usize,
)
    ensures
        is_selected_source(map, sections, position) <==> exists|i: int, k: int|
            #![trigger sections[i].selected@[k]]
            {
                &&& 0 <= i < sections.len()
                &&& 0 <= k < sections[i].selected@.len()
                &&& sections[i].selected@[k] < sections[i].view@.len()
                &&& map.contains_key(sections[i].view@[sections[i].selected@[k] as int])
                &&& map[sections[i].view@[sections[i].selected@[k] as int]] == position
            },
{
    if is_selected_source(map, sections, position) {
        let i = choose|i: int|
            0 <= i < sections.len() && #[trigger] section_sources(map, sections[i]).contains(
                position,
            );
        lemma_selected_at(map, sections[i].view@, sections[i].selected@, position);
        let k = choose|k: int|
            #![trigger sections[i].selected@[k]]
            {
                &&& 0 <= k < sections[i].selected@.len()
                &&& source_of(map, sections[i].view@, sections[i].selected@[k] as int) == Some(
                    position,
                )
            };
        assert(sections[i].selected@[k] < sections[i].view@.len());
    }
    if exists|i: int, k: int|
        #![trigger sections[i].selected@[k]]
        {
            &&& 0 <= i < sections.len()
            &&& 0 <= k < sections[i].selected@.len()
            &&& sections[i].selected@[k] < sections[i].view@.len()
            &&& map.contains_key(sections[i].view@[sections[i].selected@[k] as int])
            &&& map[sections[i].view@[sections[i].selected@[k] as int]] == position
        } {
        let (i, k) = choose|i: int, k: int|
            #![trigger sections[i].selected@[k]]
            {
                &&& 0 <= i < sections.len()
                &&& 0 <= k < sections[i].selected@.len()
                &&& sections[i].selected@[k] < sections[i].view@.len()
                &&& map.contains_key(sections[i].view@[sections[i].selected@[k] as int])
                &&& map[sections[i].view@[sections[i].selected@[k] as int]] == position
            };
        lemma_selected_at(map, sections[i].view@, sections[i].selected@, position);
        assert(source_of(map, sections[i].view@, sections[i].selected@[k] as int) == Some(
            position,
        ));
        assert(section_sources(map, sections[i]).contains(position));
    }
}

proof fn lemma_selected_at(
    map: Map<u64, usize>,
    view: Seq<u64>,
    selected: Seq<u32>,
    position: usize,
)
    ensures
        sources_of(map, view, selected).contains(position) <==> exists|k: int|
            #![trigger selected[k]]
            0 <= k < selected.len() && source_of(map, view, selected[k] as int) == Some(position),
    decreases selected.len(),
{
    if selected.len() > 0 {
        let rest = selected.drop_last();
        lemma_selected_at(map, view, rest, position);
        let before = sources_of(map, view, rest);
        let all = sources_of(map, view, selected);
        let last = source_of(map, view, selected.last() as int);
        if before.contains(position) {
            let k = choose|k: int|
                #![trigger rest[k]]
                0 <= k < rest.len() && source_of(map, view, rest[k] as int) == Some(position);
            assert(selected[k] == rest[k]);
            let at = before.index_of(position);
            assert(all[at] == position);
        }
        if last == Some(position) {
            assert(all[before.len() as int] == position);
            assert(selected[selected.len() - 1] == selected.last());
        }
        if all.contains(position) && last != Some(position) {
            let at = all.index_of(position);
            assert(before[at] == position);
        }
        if exists|k: int|
            #![trigger selected[k]]
            0 <= k < selected.len() && source_of(map, view, selected[k] as int) == Some(position) {
            let k = choose|k: int|
                #![trigger selected[k]]
                0 <= k < selected.len() && source_of(map, view, selected[k] as int) == Some(
                    position,
                );
            if k < rest.len() {
                assert(rest[k] == selected[k]);
            }
        }
    }
}

/// What is selected in a view is, in order, where it has the entries; those it lacks are left out.
pub proof fn selections_are_placed(source: Seq<u64>, view: Seq<u64>, positions: Seq<usize>)
    ensures
        positions_in_view(source, view, positions) == positions.filter_map(
            |position: usize| view_position(source, view, position as int),
        ),
    decreases positions.len(),
{
    if positions.len() > 0 {
        selections_are_placed(source, view, positions.drop_last());
        let before = positions_in_view(source, view, positions.drop_last());
        if let Some(at) = view_position(source, view, positions.last() as int) {
            assert(before.push(at) =~= before + seq![at]);
        }
    }
}

/// Only sections beside the clicked one that have a selection are cleared.
pub proof fn other_sections_are_cleared(sections: Seq<SectionSelection>, clicked: int, i: int)
    ensures
        clears_section(sections, clicked, i) <==> i != clicked && sections[i].selected@.len() != 0,
{
}

/// With Shift a press selects the run from the anchor, or from itself without one, to the pressed
/// item, whichever comes first, and keeps the anchor.
pub proof fn shift_selects_the_run_between(
    position: u32,
    control: bool,
    anchor: Option<u32>,
    is_selected: bool,
    click: (SelectionClick, Option<u32>),
    place: u32,
)
    requires
        call_ensures(
            modified_selection_click,
            (position, control, true, anchor, is_selected),
            click,
        ),
        position != u32::MAX,
        anchor != Some(u32::MAX),
    ensures
        click.1 == anchor,
        click.0 is Range,
        anchor is Some ==> (click.0->start <= place < click.0->start + click.0->count <==> position
            <= place <= anchor->0 || anchor->0 <= place <= position),
        anchor is None ==> (click.0->start <= place < click.0->start + click.0->count <==> place
            == position),
{
}

/// Without Shift a press makes the item the anchor, and with Control it turns the item on or off;
/// a press beside the items changes nothing.
pub proof fn control_turns_one_item(
    position: u32,
    control: bool,
    shift: bool,
    anchor: Option<u32>,
    is_selected: bool,
    click: (SelectionClick, Option<u32>),
)
    requires
        call_ensures(
            modified_selection_click,
            (position, control, shift, anchor, is_selected),
            click,
        ),
    ensures
        position == u32::MAX ==> click.0 is Pass && click.1 == anchor,
        position != u32::MAX && !shift ==> click.1 == Some(position),
        position != u32::MAX && !shift && !control ==> click.0 is Pass,
        position != u32::MAX && !shift && control && is_selected ==> click.0
            == SelectionClick::Unselect(position),
        position != u32::MAX && !shift && control && !is_selected ==> click.0
            == SelectionClick::Select(position),
{
}

/// A drag takes the pressed entry along, with all that is selected if it is selected too.
pub proof fn drags_take_the_pressed_entry(entry: u64, selected: &[u64], dragged: Vec<u64>)
    requires
        call_ensures(dragged_entries, (entry, selected), dragged),
    ensures
        dragged@.contains(entry),
        selected@.contains(entry) ==> dragged@ == selected@,
        !selected@.contains(entry) ==> dragged@.len() == 1,
{
    if !selected@.contains(entry) {
        assert(dragged@[0] == entry);
    }
}

} // verus!
