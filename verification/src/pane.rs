//! A pane that shows one directory in the grid or the explorer.
use vstd::prelude::*;
use vstd::string::StringExecFns;

use crate::modes::{hidden_shown, shows_hidden};
use crate::type_groups::label_views;

verus! {

/// What the body of a pane shows.
#[derive(Clone, Copy, Debug, PartialEq, Eq, Structural)]
pub enum PanePage {
    Content,
    Loading,
    Status,
}

/// The state of a pane.
#[derive(Debug)]
pub struct PaneState {
    pub depth: usize,
    /// The model values of the entries.
    pub entries: Vec<String>,
    pub spinning: bool,
    pub spinner_shown: bool,
    /// The spinner says that entries are being sorted.
    pub sorting: bool,
    pub page: PanePage,
    pub status: String,
    pub status_is_error: bool,
    /// More entries exist than are shown.
    pub truncated: bool,
    /// In the trash, whether it can be emptied.
    pub empty_trash: Option<bool>,
    /// A reload has taken the entries away from their views.
    pub detached: bool,
    pub show_hidden: bool,
    pub filter_open: bool,
    /// The row for a new entry is there.
    pub creating: bool,
    /// The new entry is a directory.
    pub creates_directory: bool,
}

/// The state of a pane as a value.
pub ghost struct PaneView {
    pub depth: usize,
    pub entries: Seq<Seq<char>>,
    pub spinning: bool,
    pub spinner_shown: bool,
    pub sorting: bool,
    pub page: PanePage,
    pub status: Seq<char>,
    pub status_is_error: bool,
    pub truncated: bool,
    pub empty_trash: Option<bool>,
    pub detached: bool,
    pub show_hidden: bool,
    pub filter_open: bool,
    pub creating: bool,
    pub creates_directory: bool,
}

impl View for PaneState {
    type V = PaneView;

    open spec fn view(&self) -> PaneView {
        PaneView {
            depth: self.depth,
            entries: label_views(self.entries@),
            spinning: self.spinning,
            spinner_shown: self.spinner_shown,
            sorting: self.sorting,
            page: self.page,
            status: self.status@,
            status_is_error: self.status_is_error,
            truncated: self.truncated,
            empty_trash: self.empty_trash,
            detached: self.detached,
            show_hidden: self.show_hidden,
            filter_open: self.filter_open,
            creating: self.creating,
            creates_directory: self.creates_directory,
        }
    }
}

/// A change of the entries: `removed` at `position` give way to `values`.
#[derive(Debug)]
pub struct Splice {
    pub position: usize,
    pub removed: usize,
    pub values: Vec<String>,
}

/// What a pane is told of its directory when it is built.
#[derive(Debug)]
pub struct ColumnSnapshot {
    pub depth: usize,
    pub values: Vec<String>,
    pub selected: Vec<usize>,
    pub truncated: bool,
    pub loading: bool,
    pub error: Option<String>,
    pub is_trash: bool,
    /// Whether the column shows hidden files, if it has a preference of its own.
    pub column_show_hidden: Option<bool>,
    /// Whether hidden files are shown in general.
    pub show_hidden: bool,
}

/// The number of positions that a list model can tell apart.
pub open spec fn model_positions() -> int {
    0x1_0000_0000
}

/// Entries after a splice. Positions count modulo the positions of a list model; a splice
/// that reaches beyond the end changes nothing.
pub open spec fn spliced(
    entries: Seq<Seq<char>>,
    position: int,
    removed: int,
    values: Seq<Seq<char>>,
) -> Seq<Seq<char>> {
    let start = position % model_positions();
    let end = start + removed % model_positions();
    if end <= entries.len() {
        entries.take(start) + values + entries.skip(end)
    } else {
        entries
    }
}

/// Entries after several splices, one after the other.
pub open spec fn all_spliced(entries: Seq<Seq<char>>, splices: Seq<Splice>) -> Seq<Seq<char>>
    decreases splices.len(),
{
    if splices.len() == 0 {
        entries
    } else {
        let last = splices.last();
        spliced(
            all_spliced(entries, splices.drop_last()),
            last.position as int,
            last.removed as int,
            label_views(last.values@),
        )
    }
}

/// What a directory that could not be read is answered with.
pub open spec fn failure_status(message: Seq<char>) -> Seq<char> {
    "Unable to read this directory\n"@ + message
}

impl PaneView {
    /// A pane that waits for its directory.
    pub open spec fn waiting(depth: usize, is_trash: bool, show_hidden: bool) -> PaneView {
        PaneView {
            depth,
            entries: Seq::empty(),
            spinning: true,
            spinner_shown: true,
            sorting: false,
            page: PanePage::Loading,
            status: "This directory is empty"@,
            status_is_error: false,
            truncated: false,
            empty_trash: if is_trash {
                Some(false)
            } else {
                None
            },
            detached: false,
            show_hidden,
            filter_open: false,
            creating: false,
            creates_directory: true,
        }
    }

    /// The pane once it shows its entries, or that there are none.
    pub open spec fn counted(self) -> PaneView {
        let empty = self.entries.len() == 0;
        PaneView {
            page: if empty {
                PanePage::Status
            } else {
                PanePage::Content
            },
            status: if empty {
                "This directory is empty"@
            } else {
                self.status
            },
            status_is_error: self.status_is_error && !empty,
            empty_trash: match self.empty_trash {
                Some(_) => Some(!empty),
                None => None,
            },
            ..self
        }
    }

    /// The pane after `splices`, counted unless it is still loading.
    pub open spec fn extended(self, splices: Seq<Splice>) -> PaneView {
        let after = PaneView { entries: all_spliced(self.entries, splices), ..self };
        if self.spinning {
            after
        } else {
            after.counted()
        }
    }

    /// The pane after `splices` of a directory that changed on disk.
    pub open spec fn changed(self, splices: Seq<Splice>) -> PaneView {
        PaneView { entries: all_spliced(self.entries, splices), ..self }.counted()
    }

    /// The pane with other entries.
    pub open spec fn replaced(self, values: Seq<Seq<char>>) -> PaneView {
        PaneView { entries: values, ..self }.counted()
    }

    /// The pane with other entries, which end the wait if there are any.
    pub open spec fn received(self, count: usize, values: Seq<Seq<char>>) -> PaneView {
        PaneView {
            spinning: self.spinning && count == 0,
            spinner_shown: self.spinner_shown && count == 0,
            ..self
        }.replaced(values)
    }

    /// The pane while its entries are being sorted.
    pub open spec fn sorting_begun(self) -> PaneView {
        PaneView { spinning: true, spinner_shown: true, sorting: true, ..self }
    }

    /// The pane once its entries have been sorted.
    pub open spec fn sorting_ended(self) -> PaneView {
        PaneView { spinning: false, spinner_shown: false, sorting: false, ..self }
    }

    /// The pane while its directory is being read again.
    pub open spec fn reloading(self) -> PaneView {
        PaneView {
            detached: true,
            entries: Seq::empty(),
            truncated: false,
            spinning: true,
            spinner_shown: true,
            page: PanePage::Loading,
            ..self
        }
    }

    /// The pane once its directory has been read.
    pub open spec fn loaded(self, truncated: bool) -> PaneView {
        PaneView {
            detached: false,
            spinning: false,
            spinner_shown: false,
            truncated,
            ..self
        }.counted()
    }

    /// The pane after its directory could not be read.
    pub open spec fn failed(self, message: Seq<char>) -> PaneView {
        PaneView {
            detached: false,
            spinning: false,
            status: failure_status(message),
            status_is_error: true,
            page: PanePage::Status,
            ..self
        }
    }

    /// The pane that shows what a snapshot says.
    pub open spec fn applied(self, snapshot: ColumnSnapshot) -> PaneView {
        let shown = PaneView {
            truncated: snapshot.truncated,
            spinning: snapshot.loading,
            ..self.replaced(label_views(snapshot.values@))
        };
        if snapshot.loading {
            PaneView { page: PanePage::Loading, ..shown }
        } else {
            match snapshot.error {
                Some(message) => PaneView {
                    status: failure_status(message@),
                    status_is_error: true,
                    page: PanePage::Status,
                    ..shown
                },
                None => shown,
            }
        }
    }

    /// The pane built from a snapshot.
    pub open spec fn built(snapshot: ColumnSnapshot) -> PaneView {
        PaneView::waiting(
            snapshot.depth,
            snapshot.is_trash,
            hidden_shown(snapshot.column_show_hidden, snapshot.show_hidden),
        ).applied(snapshot)
    }

    /// The pane without its row for a new entry.
    pub open spec fn creation_ended(self) -> PaneView {
        PaneView {
            creating: false,
            page: if self.entries.len() == 0 {
                PanePage::Status
            } else {
                self.page
            },
            ..self
        }
    }
}

impl ColumnSnapshot {
    /// What to select in a pane that is built from the snapshot, and the entry to scroll to:
    /// the last of those.
    pub fn selection(&self) -> (selection: (Vec<usize>, Option<usize>))
        ensures
            selection.0@ == self.selected@,
            selection.1 == last_position(self.selected@),
    {
        let mut positions: Vec<usize> = Vec::new();
        positions.extend_from_slice(self.selected.as_slice());
        assert(positions@ =~= self.selected@);
        let scroll_to: Option<usize> = if positions.len() > 0 {
            Some(positions[positions.len() - 1])
        } else {
            None
        };
        (positions, scroll_to)
    }
}

/// The last of some positions.
pub open spec fn last_position(positions: Seq<usize>) -> Option<usize> {
    if positions.len() > 0 {
        Some(positions.last())
    } else {
        None
    }
}

fn append_copies(values: &Vec<String>, out: &mut Vec<String>)
    ensures
        label_views(final(out)@) == label_views(old(out)@) + label_views(values@),
{
    let ghost before = label_views(out@);
    let ghost all = label_views(values@);
    let mut index: usize = 0;
    assert(before + all.take(0) =~= before);
    while index < values.len()
        invariant
            index <= values.len(),
            all == label_views(values@),
            label_views(out@) == before + all.take(index as int),
        decreases values.len() - index,
    {
        let ghost prior = label_views(out@);
        out.push(values[index].clone());
        assert(label_views(out@) =~= prior.push(values@[index as int]@));
        assert(before + all.take(index + 1) =~= (before + all.take(index as int)).push(
            all[index as int],
        ));
        index = index + 1;
    }
    assert(all.take(index as int) =~= all);
}

fn failure_text(message: &String) -> (text: String)
    ensures
        text@ == failure_status(message@),
{
    let mut text = "Unable to read this directory\n".to_owned();
    text.append(message.as_str());
    text
}

impl PaneState {
    /// A pane that waits for its directory.
    pub fn new(depth: usize, is_trash: bool, show_hidden: bool) -> (pane: Self)
        ensures
            pane@ == PaneView::waiting(depth, is_trash, show_hidden),
    {
        let pane = PaneState {
            depth,
            entries: Vec::new(),
            spinning: true,
            spinner_shown: true,
            sorting: false,
            page: PanePage::Loading,
            status: "This directory is empty".to_owned(),
            status_is_error: false,
            truncated: false,
            empty_trash: if is_trash {
                Some(false)
            } else {
                None
            },
            detached: false,
            show_hidden,
            filter_open: false,
            creating: false,
            creates_directory: true,
        };
        assert(pane@.entries =~= Seq::<Seq<char>>::empty());
        pane
    }

    /// Changes the entries.
    pub fn splice(&mut self, position: usize, removed: usize, values: &Vec<String>)
        ensures
            final(self)@ == (PaneView {
                entries: spliced(
                    old(self)@.entries,
                    position as int,
                    removed as int,
                    label_views(values@),
                ),
                ..old(self)@
            }),
    {
        let ghost before = self@;
        let start: u64 = position as u64 % 0x1_0000_0000;
        let end: u64 = start + removed as u64 % 0x1_0000_0000;
        assert(before.entries.len() == self.entries@.len());
        if end > self.entries.len() as u64 {
            return;
        }
        let mut tail: Vec<String> = self.entries.split_off(end as usize);
        assert(label_views(tail@) =~= before.entries.skip(end as int));
        self.entries.truncate(start as usize);
        assert(label_views(self.entries@) =~= before.entries.take(start as int));
        append_copies(values, &mut self.entries);
        let ghost middle = label_views(self.entries@);
        let ghost rest = label_views(tail@);
        self.entries.append(&mut tail);
        assert(label_views(self.entries@) =~= middle + rest);
    }

    fn splice_all(&mut self, splices: &Vec<Splice>)
        ensures
            final(self)@ == (PaneView {
                entries: all_spliced(old(self)@.entries, splices@),
                ..old(self)@
            }),
    {
        let ghost before = self@;
        let mut index: usize = 0;
        assert(splices@.take(0) =~= Seq::<Splice>::empty());
        while index < splices.len()
            invariant
                index <= splices.len(),
                self@ == (PaneView {
                    entries: all_spliced(before.entries, splices@.take(index as int)),
                    ..before
                }),
            decreases splices.len() - index,
        {
            assert(splices@.take(index + 1).drop_last() =~= splices@.take(index as int));
            let splice = &splices[index];
            self.splice(splice.position, splice.removed, &splice.values);
            index = index + 1;
        }
        assert(splices@.take(index as int) =~= splices@);
    }

    fn set_entries(&mut self, values: &Vec<String>)
        ensures
            final(self)@ == (PaneView { entries: label_views(values@), ..old(self)@ }),
    {
        let mut entries: Vec<String> = Vec::new();
        append_copies(values, &mut entries);
        assert(label_views(entries@) =~= label_views(values@));
        self.entries = entries;
    }

    /// Shows the entries, or that there are none.
    pub fn show_count(&mut self)
        ensures
            final(self)@ == old(self)@.counted(),
    {
        let empty: bool = self.entries.len() == 0;
        assert(self@.entries.len() == self.entries@.len());
        if empty {
            self.status_is_error = false;
            self.status = "This directory is empty".to_owned();
            self.page = PanePage::Status;
        } else {
            self.page = PanePage::Content;
        }
        if self.empty_trash.is_some() {
            self.empty_trash = Some(!empty);
        }
    }

    /// Takes entries in while the directory is being read, or that appeared.
    pub fn extend_entries(&mut self, splices: &Vec<Splice>)
        ensures
            final(self)@ == old(self)@.extended(splices@),
    {
        self.splice_all(splices);
        if !self.spinning {
            self.show_count();
        }
    }

    /// Follows a directory that changed.
    pub fn change_entries(&mut self, splices: &Vec<Splice>)
        ensures
            final(self)@ == old(self)@.changed(splices@),
    {
        self.splice_all(splices);
        self.show_count();
    }

    /// Shows other entries.
    pub fn replace_entries(&mut self, values: &Vec<String>)
        ensures
            final(self)@ == old(self)@.replaced(label_views(values@)),
    {
        self.set_entries(values);
        self.show_count();
    }

    /// Shows other entries; `count` of them are announced.
    pub fn receive_entries(&mut self, count: usize, values: &Vec<String>)
        ensures
            final(self)@ == old(self)@.received(count, label_views(values@)),
    {
        if count > 0 {
            self.spinning = false;
            self.spinner_shown = false;
        }
        self.replace_entries(values);
    }

    pub fn begin_sorting(&mut self)
        ensures
            final(self)@ == old(self)@.sorting_begun(),
    {
        self.sorting = true;
        self.spinner_shown = true;
        self.spinning = true;
    }

    pub fn end_sorting(&mut self)
        ensures
            final(self)@ == old(self)@.sorting_ended(),
    {
        self.spinning = false;
        self.spinner_shown = false;
        self.sorting = false;
    }

    /// Forgets the entries while the directory is being read again.
    pub fn reload(&mut self)
        ensures
            final(self)@ == old(self)@.reloading(),
    {
        self.detached = true;
        self.entries = Vec::new();
        self.truncated = false;
        self.spinner_shown = true;
        self.spinning = true;
        self.page = PanePage::Loading;
        assert(self@.entries =~= Seq::<Seq<char>>::empty());
    }

    /// Gives the entries back to their views; `false` if they have them.
    pub fn reconnect_pane_model(&mut self) -> (reconnected: bool)
        ensures
            reconnected == old(self)@.detached,
            final(self)@ == (PaneView { detached: false, ..old(self)@ }),
    {
        let detached: bool = self.detached;
        self.detached = false;
        detached
    }

    pub fn finish_load(&mut self, truncated: bool)
        ensures
            final(self)@ == old(self)@.loaded(truncated),
    {
        let _reconnected = self.reconnect_pane_model();
        self.spinning = false;
        self.spinner_shown = false;
        self.truncated = truncated;
        self.show_count();
    }

    pub fn fail_load(&mut self, message: &String)
        ensures
            final(self)@ == old(self)@.failed(message@),
    {
        let _reconnected = self.reconnect_pane_model();
        self.spinning = false;
        self.status = failure_text(message);
        self.status_is_error = true;
        self.page = PanePage::Status;
    }

    /// Shows what a snapshot says.
    pub fn apply_snapshot(&mut self, snapshot: &ColumnSnapshot)
        ensures
            final(self)@ == old(self)@.applied(*snapshot),
    {
        self.replace_entries(&snapshot.values);
        self.truncated = snapshot.truncated;
        if snapshot.loading {
            self.spinning = true;
            self.page = PanePage::Loading;
        } else {
            self.spinning = false;
            if let Some(message) = &snapshot.error {
                self.status = failure_text(message);
                self.status_is_error = true;
                self.page = PanePage::Status;
            }
        }
    }

    /// Builds the pane that a snapshot describes.
    pub fn from_snapshot(snapshot: &ColumnSnapshot) -> (pane: Self)
        ensures
            pane@ == PaneView::built(*snapshot),
    {
        let show_hidden: bool = shows_hidden(snapshot.column_show_hidden, snapshot.show_hidden);
        let mut pane = PaneState::new(snapshot.depth, snapshot.is_trash, show_hidden);
        pane.apply_snapshot(snapshot);
        pane
    }

    /// Puts a row for a new entry first.
    pub fn begin_creation(&mut self, is_directory: bool)
        ensures
            final(self)@ == (PaneView {
                creating: true,
                creates_directory: is_directory,
                page: PanePage::Content,
                ..old(self)@
            }),
    {
        self.creating = true;
        self.creates_directory = is_directory;
        self.page = PanePage::Content;
    }

    /// Takes the row for a new entry away.
    pub fn end_creation(&mut self)
        ensures
            final(self)@ == old(self)@.creation_ended(),
    {
        assert(self@.entries.len() == self.entries@.len());
        self.creating = false;
        if self.entries.len() == 0 {
            self.page = PanePage::Status;
        }
    }
}

/// The change that brings a list from `present` to `wanted`, if they differ; what both have at
/// the start and at the end stays.
pub fn difference(present: &Vec<String>, wanted: &Vec<String>) -> (change: Option<Splice>)
    requires
        present@.len() <= u32::MAX,
    ensures
        change is None <==> label_views(present@) == label_views(wanted@),
        change matches Some(splice) ==> {
            &&& splice.position + splice.removed <= present@.len()
            &&& spliced(
                label_views(present@),
                splice.position as int,
                splice.removed as int,
                label_views(splice.values@),
            ) == label_views(wanted@)
        },
{
    let ghost from = label_views(present@);
    let ghost to = label_views(wanted@);
    let mut start: usize = 0;
    while start < present.len() && start < wanted.len() && present[start] == wanted[start]
        invariant
            start <= present.len(),
            start <= wanted.len(),
            from == label_views(present@),
            to == label_views(wanted@),
            forall|i: int| 0 <= i < start ==> from[i] == to[i],
        decreases present.len() - start,
    {
        assert(from[start as int] == present@[start as int]@);
        assert(to[start as int] == wanted@[start as int]@);
        start = start + 1;
    }
    if start == present.len() && start == wanted.len() {
        assert(from =~= to);
        return None;
    }
    assert(from != to) by {
        if start < present.len() && start < wanted.len() {
            assert(from[start as int] == present@[start as int]@);
            assert(to[start as int] == wanted@[start as int]@);
        } else {
            assert(from.len() == present@.len() && to.len() == wanted@.len());
        }
    }
    let mut tail: usize = 0;
    while tail < present.len() - start && tail < wanted.len() - start && present[present.len() - 1
        - tail] == wanted[wanted.len() - 1 - tail]
        invariant
            start <= present.len(),
            start <= wanted.len(),
            tail <= present.len() - start,
            tail <= wanted.len() - start,
            from == label_views(present@),
            to == label_views(wanted@),
            forall|i: int|
                0 <= i < tail ==> #[trigger] from[present@.len() - 1 - i] == to[wanted@.len() - 1
                    - i],
        decreases present.len() - tail,
    {
        assert(from[present@.len() - 1 - tail] == present@[present@.len() - 1 - tail]@);
        assert(to[wanted@.len() - 1 - tail] == wanted@[wanted@.len() - 1 - tail]@);
        tail = tail + 1;
    }
    let removed: usize = present.len() - start - tail;
    let end: usize = wanted.len() - tail;
    let mut values: Vec<String> = Vec::new();
    let mut index: usize = start;
    assert(label_views(values@) =~= to.subrange(start as int, start as int));
    while index < end
        invariant
            start <= index <= end <= wanted.len(),
            to == label_views(wanted@),
            label_views(values@) == to.subrange(start as int, index as int),
        decreases end - index,
    {
        let ghost before = label_views(values@);
        values.push(wanted[index].clone());
        assert(label_views(values@) =~= before.push(wanted@[index as int]@));
        assert(to.subrange(start as int, index + 1) =~= to.subrange(
            start as int,
            index as int,
        ).push(to[index as int]));
        index = index + 1;
    }
    proof {
        let middle = to.subrange(start as int, end as int);
        let result = from.take(start as int) + middle + from.skip(start + removed);
        assert(from.len() == present@.len());
        assert(to.len() == wanted@.len());
        assert(result.len() == to.len());
        assert forall|i: int| 0 <= i < result.len() implies result[i] == to[i] by {
            if i >= end {
                let back = to.len() - 1 - i;
                assert(from[present@.len() - 1 - back] == to[wanted@.len() - 1 - back]);
            }
        }
        assert(result =~= to);
    }
    Some(Splice { position: start, removed, values })
}

/// A pane that shows its entries has some, and one that says that there are none has none,
/// whenever the entries have been counted.
pub proof fn counted_panes_tell_the_truth(pane: PaneView)
    ensures
        pane.counted().page == PanePage::Content <==> pane.entries.len() > 0,
        pane.counted().page == PanePage::Status <==> pane.entries.len() == 0,
        pane.entries.len() == 0 ==> pane.counted().status == "This directory is empty"@
            && !pane.counted().status_is_error,
        pane.counted().counted() == pane.counted(),
{
}

/// Reading a directory again and receiving the same entries shows what was shown before,
/// with nothing left of the wait.
pub proof fn reloading_comes_back(pane: PaneView, splice: Splice)
    requires
        splice.position == 0,
        splice.removed == 0,
        label_views(splice.values@) == pane.entries,
    ensures
        pane.reloading().extended(seq![splice]).loaded(pane.truncated) == (PaneView {
            detached: false,
            spinning: false,
            spinner_shown: false,
            ..pane
        }).counted(),
{
    let entries = pane.reloading().entries;
    assert(seq![splice].drop_last() =~= Seq::<Splice>::empty());
    assert(all_spliced(entries, seq![splice].drop_last()) == entries);
    assert(spliced(entries, 0, 0, pane.entries) =~= pane.entries);
}

/// A change within the entries takes out just what it says, puts the new entries there, and
/// leaves what stands before and behind; one that reaches beyond the end changes nothing.
pub proof fn splices_change_one_run(
    entries: Seq<Seq<char>>,
    position: int,
    removed: int,
    values: Seq<Seq<char>>,
    i: int,
)
    requires
        0 <= position < 0x1_0000_0000,
        0 <= removed < 0x1_0000_0000,
    ensures
        ({
            let after = spliced(entries, position, removed, values);
            if position + removed <= entries.len() {
                &&& after.len() == entries.len() - removed + values.len()
                &&& 0 <= i < position ==> after[i] == entries[i]
                &&& 0 <= i < values.len() ==> after[position + i] == values[i]
                &&& position + removed <= i < entries.len() ==> after[i - removed + values.len()]
                    == entries[i]
            } else {
                after == entries
            }
        }),
{
}

/// Changes are made one after the other, the first one first.
pub proof fn splices_go_in_order(entries: Seq<Seq<char>>, first: Splice, second: Splice)
    ensures
        all_spliced(entries, Seq::empty()) == entries,
        all_spliced(entries, seq![first]) == spliced(
            entries,
            first.position as int,
            first.removed as int,
            label_views(first.values@),
        ),
        all_spliced(entries, seq![first, second]) == spliced(
            spliced(
                entries,
                first.position as int,
                first.removed as int,
                label_views(first.values@),
            ),
            second.position as int,
            second.removed as int,
            label_views(second.values@),
        ),
{
    let one = seq![first];
    let two = seq![first, second];
    assert(one.drop_last() =~= Seq::<Splice>::empty());
    assert(two.drop_last() =~= one);
    reveal_with_fuel(all_spliced, 3);
}

/// The values of a list are those of its texts, one for one.
pub proof fn values_are_kept(values: Seq<String>, i: int)
    ensures
        label_views(values).len() == values.len(),
        0 <= i < values.len() ==> label_views(values)[i] == values[i]@,
{
}

/// Counting changes what is said of the entries, and nothing else.
pub proof fn counting_only_tells(pane: PaneView)
    ensures
        pane.counted().entries == pane.entries,
        pane.counted().depth == pane.depth,
        pane.counted().spinning == pane.spinning,
        pane.counted().spinner_shown == pane.spinner_shown,
        pane.counted().sorting == pane.sorting,
        pane.counted().truncated == pane.truncated,
        pane.counted().detached == pane.detached,
        pane.counted().show_hidden == pane.show_hidden,
        pane.counted().filter_open == pane.filter_open,
        pane.counted().creating == pane.creating,
        pane.counted().creates_directory == pane.creates_directory,
        pane.empty_trash is None ==> pane.counted().empty_trash is None,
        pane.empty_trash is Some ==> pane.counted().empty_trash == Some(pane.entries.len() > 0),
        pane.entries.len() > 0 ==> pane.counted().status == pane.status
            && pane.counted().status_is_error == pane.status_is_error,
{
}

/// Entries that come in while the directory is read do not end the wait; later they are shown at
/// once, and so are those of a directory that changed.
pub proof fn entries_are_shown_once_read(pane: PaneView, splices: Seq<Splice>)
    ensures
        pane.extended(splices).entries == all_spliced(pane.entries, splices),
        pane.changed(splices).entries == all_spliced(pane.entries, splices),
        pane.extended(splices).spinning == pane.spinning,
        pane.changed(splices).spinning == pane.spinning,
        pane.extended(splices).depth == pane.depth,
        pane.changed(splices).depth == pane.depth,
        pane.spinning ==> pane.extended(splices).page == pane.page && pane.extended(splices).status
            == pane.status,
        !pane.spinning ==> (pane.extended(splices).page == PanePage::Content <==> pane.extended(
            splices,
        ).entries.len() > 0),
        !pane.spinning ==> (pane.extended(splices).page == PanePage::Status <==> pane.extended(
            splices,
        ).entries.len() == 0),
        pane.changed(splices).page == PanePage::Content <==> pane.changed(splices).entries.len()
            > 0,
        pane.changed(splices).page == PanePage::Status <==> pane.changed(splices).entries.len()
            == 0,
{
}

/// Entries that replace others are all that is shown, and end the wait if any are announced.
pub proof fn replaced_entries_are_all_that_is_shown(
    pane: PaneView,
    count: usize,
    values: Seq<Seq<char>>,
)
    ensures
        pane.replaced(values).entries == values,
        pane.received(count, values).entries == values,
        pane.received(count, values).depth == pane.depth,
        count > 0 ==> !pane.received(count, values).spinning && !pane.received(
            count,
            values,
        ).spinner_shown,
        count == 0 ==> pane.received(count, values).spinning == pane.spinning && pane.received(
            count,
            values,
        ).spinner_shown == pane.spinner_shown,
        pane.received(count, values).page == PanePage::Content <==> values.len() > 0,
        pane.received(count, values).page == PanePage::Status <==> values.len() == 0,
{
}

/// Sorting shows a spinner while it lasts and leaves the entries and the page alone.
pub proof fn sorting_only_spins(pane: PaneView)
    ensures
        pane.sorting_begun().spinning && pane.sorting_begun().spinner_shown
            && pane.sorting_begun().sorting,
        !pane.sorting_ended().spinning && !pane.sorting_ended().spinner_shown
            && !pane.sorting_ended().sorting,
        pane.sorting_begun().entries == pane.entries,
        pane.sorting_ended().entries == pane.entries,
        pane.sorting_begun().page == pane.page,
        pane.sorting_ended().page == pane.page,
        pane.sorting_begun().sorting_ended() == pane.sorting_ended(),
        pane.sorting_ended() == (PaneView {
            spinning: false,
            spinner_shown: false,
            sorting: false,
            ..pane
        }),
{
}

/// A reload waits with nothing to show; once the directory is read the wait is over, the entries
/// are counted, and it is told whether there are more; if it cannot be read, that is told with the
/// reason, and the entries stay.
pub proof fn loads_end_in_entries_or_the_reason(pane: PaneView, truncated: bool, message: Seq<char>)
    ensures
        pane.reloading().entries.len() == 0,
        pane.reloading().spinning && pane.reloading().spinner_shown && pane.reloading().detached,
        !pane.reloading().truncated,
        pane.reloading().page == PanePage::Loading,
        pane.reloading().depth == pane.depth,
        !pane.loaded(truncated).spinning && !pane.loaded(truncated).spinner_shown && !pane.loaded(
            truncated,
        ).detached,
        pane.loaded(truncated).truncated == truncated,
        pane.loaded(truncated).entries == pane.entries,
        pane.loaded(truncated).depth == pane.depth,
        pane.loaded(truncated).page == PanePage::Content <==> pane.entries.len() > 0,
        pane.loaded(truncated).page == PanePage::Status <==> pane.entries.len() == 0,
        pane.failed(message).status == "Unable to read this directory\n"@ + message,
        pane.failed(message).status_is_error,
        pane.failed(message).page == PanePage::Status,
        !pane.failed(message).spinning && !pane.failed(message).detached,
        pane.failed(message).entries == pane.entries,
        pane.failed(message).depth == pane.depth,
        pane.failed(message).truncated == pane.truncated,
{
}

/// A pane that is built shows its column as the snapshot has it: the entries, whether there are
/// more, whether it waits, what stood in the way, and hidden files by the column's preference or
/// else the general one.
pub proof fn built_panes_show_the_snapshot(snapshot: ColumnSnapshot, i: int)
    ensures
        ({
            let pane = PaneView::built(snapshot);
            &&& pane.depth == snapshot.depth
            &&& pane.entries.len() == snapshot.values@.len()
            &&& 0 <= i < snapshot.values@.len() ==> pane.entries[i] == snapshot.values@[i]@
            &&& pane.truncated == snapshot.truncated
            &&& pane.spinning == snapshot.loading
            &&& pane.show_hidden == if snapshot.column_show_hidden is Some {
                snapshot.column_show_hidden->0
            } else {
                snapshot.show_hidden
            }
            &&& snapshot.is_trash ==> pane.empty_trash == Some(snapshot.values@.len() > 0)
            &&& !snapshot.is_trash ==> pane.empty_trash is None
            &&& !pane.creating && !pane.filter_open && !pane.detached && !pane.sorting
            &&& snapshot.loading ==> pane.page == PanePage::Loading
            &&& !snapshot.loading && snapshot.error is Some ==> pane.page == PanePage::Status
                && pane.status_is_error && pane.status == "Unable to read this directory\n"@
                + snapshot.error->0@
            &&& !snapshot.loading && snapshot.error is None ==> !pane.status_is_error && (
            pane.page == PanePage::Content <==> snapshot.values@.len() > 0) && (pane.page
                == PanePage::Status <==> snapshot.values@.len() == 0)
        }),
{
}

/// A new pane waits for its directory, with nothing to show.
pub proof fn new_panes_wait(depth: usize, is_trash: bool, show_hidden: bool)
    ensures
        ({
            let pane = PaneView::waiting(depth, is_trash, show_hidden);
            &&& pane.depth == depth
            &&& pane.entries.len() == 0
            &&& pane.spinning && pane.spinner_shown && !pane.sorting
            &&& pane.page == PanePage::Loading
            &&& pane.show_hidden == show_hidden
            &&& is_trash ==> pane.empty_trash == Some(false)
            &&& !is_trash ==> pane.empty_trash is None
            &&& !pane.creating && !pane.filter_open && !pane.detached && !pane.truncated
            &&& !pane.status_is_error
        }),
{
}

/// A new entry that is given up leaves the entries as they are; a pane without any says so again.
pub proof fn given_up_entries_leave_no_row(pane: PaneView)
    ensures
        !pane.creation_ended().creating,
        pane.creation_ended().entries == pane.entries,
        pane.entries.len() == 0 ==> pane.creation_ended().page == PanePage::Status,
        pane.entries.len() > 0 ==> pane.creation_ended().page == pane.page,
        pane.creation_ended() == (PaneView {
            creating: false,
            page: pane.creation_ended().page,
            ..pane
        }),
{
}

/// What a rebuilt pane scrolls to is the last entry that is selected, if any is.
pub proof fn the_last_selected_is_scrolled_to(positions: Seq<usize>)
    ensures
        positions.len() == 0 ==> last_position(positions) is None,
        positions.len() > 0 ==> last_position(positions) == Some(positions[positions.len() - 1]),
{
}

/// Any number of changes is made one after the other, the last one last.
pub proof fn further_splices_come_last(entries: Seq<Seq<char>>, splices: Seq<Splice>, last: Splice)
    ensures
        all_spliced(entries, splices.push(last)) == spliced(
            all_spliced(entries, splices),
            last.position as int,
            last.removed as int,
            label_views(last.values@),
        ),
{
    assert(splices.push(last).drop_last() =~= splices);
    assert(splices.push(last).last() == last);
}

/// Whatever happens to a directory, its pane keeps its column, whether it shows hidden files, its
/// filter, and its row for a new entry.
pub proof fn panes_keep_what_the_user_set(
    pane: PaneView,
    splices: Seq<Splice>,
    count: usize,
    values: Seq<Seq<char>>,
    truncated: bool,
    message: Seq<char>,
)
    ensures
        forall|after: PaneView|
            #![trigger after.depth]
            after == pane.extended(splices) || after == pane.changed(splices) || after
                == pane.received(count, values) || after == pane.sorting_begun() || after
                == pane.sorting_ended() || after == pane.reloading() || after == pane.loaded(
                truncated,
            ) || after == pane.failed(message) ==> {
                &&& after.depth == pane.depth
                &&& after.show_hidden == pane.show_hidden
                &&& after.filter_open == pane.filter_open
                &&& after.creating == pane.creating
                &&& after.creates_directory == pane.creates_directory
                &&& after.empty_trash is Some <==> pane.empty_trash is Some
            },
        pane.reloading().status == pane.status && pane.reloading().status_is_error
            == pane.status_is_error,
        pane.failed(message).spinner_shown == pane.spinner_shown,
        pane.extended(splices).truncated == pane.truncated && pane.changed(splices).truncated
            == pane.truncated,
{
}

} // verus!
