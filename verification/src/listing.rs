//! Entries of a list and their places in filtered and sorted views of it.
//!
//! Entries are objects, known by a number that no other object has.
use std::collections::HashMap;

use vstd::prelude::*;

verus! {

/// `map` with the entries of `source` from `from` up to `to` at their places.
pub open spec fn extended(map: Map<u64, usize>, source: Seq<u64>, from: int, to: int) -> Map<
    u64,
    usize,
>
    decreases to - from,
{
    if to <= from {
        map
    } else {
        extended(map, source, from, to - 1).insert(source[to - 1], (to - 1) as usize)
    }
}

/// Every entry of `source` at its place.
pub open spec fn index_map(source: Seq<u64>) -> Map<u64, usize> {
    extended(Map::empty(), source, 0, source.len() as int)
}

/// Finds the place of an entry in its list without a search.
#[derive(Debug)]
pub struct SourceIndexMap {
    by_item: HashMap<u64, usize>,
}

impl View for SourceIndexMap {
    type V = Map<u64, usize>;

    closed spec fn view(&self) -> Map<u64, usize> {
        self.by_item@
    }
}

/// Whether a change of a list only adds entries at its end, to a map that has all the
/// others.
pub open spec fn only_appends(
    map: Map<u64, usize>,
    source: Seq<u64>,
    position: u32,
    removed: u32,
    added: u32,
) -> bool {
    &&& removed == 0
    &&& position == map.len()
    &&& position + added == source.len()
}

impl SourceIndexMap {
    /// A map for a list.
    pub fn watch(source: &[u64]) -> (map: Self)
        ensures
            map@ == index_map(source@),
    {
        let mut map = SourceIndexMap { by_item: HashMap::new() };
        map.rebuild(source);
        map
    }

    /// Follows a change of the list: `removed` entries at `position` gave way to `added`
    /// others, and `source` is the result.
    pub fn apply(&mut self, source: &[u64], position: u32, removed: u32, added: u32)
        requires
            source@.len() <= u32::MAX,
        ensures
            final(self)@ == if only_appends(old(self)@, source@, position, removed, added) {
                extended(old(self)@, source@, position as int, source@.len() as int)
            } else {
                index_map(source@)
            },
    {
        broadcast use vstd::std_specs::hash::group_hash_axioms;

        let can_append: bool = removed == 0 && position as usize == self.by_item.len()
            && position as u64 + added as u64 == source.len() as u64;
        if can_append {
            self.extend(source, position as usize);
        } else {
            self.rebuild(source);
        }
    }

    fn extend(&mut self, source: &[u64], from: usize)
        requires
            from <= source@.len(),
        ensures
            final(self)@ == extended(old(self)@, source@, from as int, source@.len() as int),
    {
        broadcast use vstd::std_specs::hash::group_hash_axioms;

        let mut index: usize = from;
        while index < source.len()
            invariant
                from <= index <= source.len(),
                self@ == extended(old(self)@, source@, from as int, index as int),
            decreases source.len() - index,
        {
            broadcast use vstd::std_specs::hash::group_hash_axioms;

            let _replaced = self.by_item.insert(source[index], index);
            index = index + 1;
        }
    }

    /// Starts over with a list.
    pub fn rebuild(&mut self, source: &[u64])
        ensures
            final(self)@ == index_map(source@),
    {
        broadcast use vstd::std_specs::hash::group_hash_axioms;

        self.by_item = HashMap::new();
        self.extend(source, 0);
    }

    /// The place of an entry in the list.
    pub fn of_item(&self, item: u64) -> (index: Option<usize>)
        ensures
            index == if self@.contains_key(item) {
                Some(self@[item])
            } else {
                None
            },
    {
        broadcast use vstd::std_specs::hash::group_hash_axioms;

        match self.by_item.get(&item) {
            Some(index) => Some(*index),
            None => None,
        }
    }

    /// The place in the list of the entry at `position` of a view.
    pub fn of_view_position(&self, view: &[u64], position: u32) -> (index: Option<usize>)
        ensures
            index == source_of(self@, view@, position as int),
    {
        if position as u64 >= view.len() as u64 {
            return None;
        }
        self.of_item(view[position as usize])
    }
}

/// The place that `map` gives for the entry at `position` of `view`.
pub open spec fn source_of(map: Map<u64, usize>, view: Seq<u64>, position: int) -> Option<usize> {
    if 0 <= position < view.len() && map.contains_key(view[position]) {
        Some(map[view[position]])
    } else {
        None
    }
}

/// The place in the list of the entry at `position` of a view; without a view, the same.
pub fn source_position_for_view(map: &SourceIndexMap, view: Option<&[u64]>, position: u32) -> (index:
    Option<usize>)
    ensures
        index == match view {
            None => Some(position as usize),
            Some(view) => source_of(map@, view@, position as int),
        },
{
    match view {
        None => Some(position as usize),
        Some(view) => map.of_view_position(view, position),
    }
}

/// Whether the entry `item` is at `position` of `view`.
pub open spec fn stands_at(view: Seq<u64>, position: int, item: u64) -> bool {
    0 <= position < view.len() && view[position] == item
}

/// The first position of an entry in a view.
pub open spec fn first_position(view: Seq<u64>, item: u64) -> Option<u32>
    decreases view.len(),
{
    if view.len() == 0 {
        None
    } else {
        match first_position(view.drop_last(), item) {
            Some(position) => Some(position),
            None => if view.last() == item {
                Some((view.len() - 1) as u32)
            } else {
                None
            },
        }
    }
}

/// The position in a view of the entry at `position` of the list: the same one or the next
/// if the entry is there, or else the first that has it. Positions of the list count modulo
/// two to the thirty-second.
pub open spec fn view_position(source: Seq<u64>, view: Seq<u64>, position: int) -> Option<u32> {
    let guessed = position % 0x1_0000_0000;
    if guessed >= source.len() {
        None
    } else if stands_at(view, guessed, source[guessed]) {
        Some(guessed as u32)
    } else if stands_at(view, guessed + 1, source[guessed]) {
        Some((guessed + 1) as u32)
    } else {
        first_position(view, source[guessed])
    }
}

proof fn lemma_first_position(view: Seq<u64>, item: u64, at: int)
    requires
        0 <= at <= view.len() <= u32::MAX,
        forall|i: int| 0 <= i < at ==> view[i] != item,
        at < view.len() ==> view[at] == item,
    ensures
        first_position(view, item) == if at < view.len() {
            Some(at as u32)
        } else {
            None
        },
    decreases view.len(),
{
    if view.len() > 0 {
        if at == view.len() {
            lemma_first_position(view.drop_last(), item, at - 1);
        } else {
            lemma_first_position(view.drop_last(), item, at);
        }
    }
}

/// The position of an entry of the list in a view; without a view, the same.
pub fn view_position_for_source(source: &[u64], view: Option<&[u64]>, position: usize) -> (found:
    Option<u32>)
    requires
        view matches Some(shown) ==> shown@.len() <= u32::MAX,
    ensures
        found == match view {
            None => Some((position as int % 0x1_0000_0000) as u32),
            Some(shown) => view_position(source@, shown@, position as int),
        },
{
    let guessed: u32 = (position as u64 % 0x1_0000_0000) as u32;
    let shown = match view {
        None => return Some(guessed),
        Some(shown) => shown,
    };
    if guessed as u64 >= source.len() as u64 {
        return None;
    }
    let item: u64 = source[guessed as usize];
    if (guessed as u64) < shown.len() as u64 {
        if shown[guessed as usize] == item {
            return Some(guessed);
        }
        if guessed as u64 + 1 < shown.len() as u64 {
            let shifted: u32 = guessed + 1;
            if shown[shifted as usize] == item {
                return Some(shifted);
            }
        }
    }
    let mut index: usize = 0;
    while index < shown.len() && shown[index] != item
        invariant
            index <= shown.len(),
            forall|i: int| 0 <= i < index ==> shown@[i] != item,
        decreases shown.len() - index,
    {
        index = index + 1;
    }
    proof {
        lemma_first_position(shown@, item, index as int);
    }
    if index < shown.len() {
        Some(index as u32)
    } else {
        None
    }
}

/// What an entry of the list found in a view is: the entry itself.
pub proof fn view_position_finds_the_entry(source: Seq<u64>, view: Seq<u64>, position: int)
    requires
        0 <= position < source.len() <= 0x1_0000_0000,
        view.len() <= u32::MAX,
    ensures
        match view_position(source, view, position) {
            Some(at) => stands_at(view, at as int, source[position]),
            None => !view.contains(source[position]),
        },
{
    let item = source[position];
    if !stands_at(view, position, item) && !stands_at(view, position + 1, item) {
        lemma_first_position_exists(view, item);
    }
}

proof fn lemma_first_position_exists(view: Seq<u64>, item: u64)
    requires
        view.len() <= u32::MAX,
    ensures
        match first_position(view, item) {
            Some(at) => stands_at(view, at as int, item),
            None => !view.contains(item),
        },
    decreases view.len(),
{
    if view.len() > 0 {
        lemma_first_position_exists(view.drop_last(), item);
        if first_position(view, item) is None && view.contains(item) {
            let i = view.index_of(item);
            if i < view.len() - 1 {
                assert(view.drop_last()[i] == item);
            }
        }
    }
}

/// Where to scroll to show the entry at `position` of the list: the first of the views that
/// has it, and its position there.
pub open spec fn scroll_place(source: Seq<u64>, views: Seq<Vec<u64>>, position: int) -> Option<
    (usize, u32),
>
    decreases views.len(),
{
    if views.len() == 0 {
        None
    } else {
        match scroll_place(source, views.drop_last(), position) {
            Some(place) => Some(place),
            None => match view_position(source, views.last()@, position) {
                Some(at) => Some(((views.len() - 1) as usize, at)),
                None => None,
            },
        }
    }
}

proof fn lemma_scroll_place_prefix(source: Seq<u64>, views: Seq<Vec<u64>>, position: int, taken: int)
    requires
        0 <= taken <= views.len(),
        scroll_place(source, views.take(taken), position) is Some,
    ensures
        scroll_place(source, views, position) == scroll_place(source, views.take(taken), position),
    decreases views.len(),
{
    if taken < views.len() {
        assert(views.drop_last().take(taken) =~= views.take(taken));
        lemma_scroll_place_prefix(source, views.drop_last(), position, taken);
    } else {
        assert(views.take(taken) =~= views);
    }
}

/// Where to scroll to show an entry of the list.
pub fn scroll_pane_to_source(source: &[u64], views: &[Vec<u64>], position: usize) -> (place: Option<
    (usize, u32),
>)
    requires
        forall|i: int| 0 <= i < views@.len() ==> (#[trigger] views@[i])@.len() <= u32::MAX,
    ensures
        place == scroll_place(source@, views@, position as int),
{
    let mut index: usize = 0;
    assert(views@.take(0) =~= Seq::<Vec<u64>>::empty());
    while index < views.len()
        invariant
            index <= views.len(),
            forall|i: int| 0 <= i < views@.len() ==> (#[trigger] views@[i])@.len() <= u32::MAX,
            scroll_place(source@, views@.take(index as int), position as int) is None,
        decreases views.len() - index,
    {
        assert(views@.take(index + 1).drop_last() =~= views@.take(index as int));
        assert(views@[index as int]@.len() <= u32::MAX);
        if let Some(at) = view_position_for_source(
            source,
            Some(views[index].as_slice()),
            position,
        ) {
            proof {
                assert(scroll_place(source@, views@.take(index + 1), position as int) == Some(
                    (index, at),
                ));
                lemma_scroll_place_prefix(source@, views@, position as int, index + 1);
            }
            return Some((index, at));
        }
        index = index + 1;
    }
    assert(views@.take(index as int) =~= views@);
    None
}

proof fn lemma_extended_in_steps(
    map: Map<u64, usize>,
    source: Seq<u64>,
    from: int,
    middle: int,
    to: int,
)
    requires
        from <= middle <= to,
    ensures
        extended(extended(map, source, from, middle), source, middle, to) == extended(
            map,
            source,
            from,
            to,
        ),
    decreases to - middle,
{
    if middle < to {
        lemma_extended_in_steps(map, source, from, middle, to - 1);
    }
}

proof fn lemma_extended_prefix(
    map: Map<u64, usize>,
    source: Seq<u64>,
    longer: Seq<u64>,
    from: int,
    to: int,
)
    requires
        0 <= from,
        to <= source.len() <= longer.len(),
        forall|i: int| 0 <= i < source.len() ==> source[i] == longer[i],
    ensures
        extended(map, source, from, to) == extended(map, longer, from, to),
    decreases to - from,
{
    if from < to {
        lemma_extended_prefix(map, source, longer, from, to - 1);
    }
}

proof fn lemma_index_map(source: Seq<u64>, to: int)
    requires
        0 <= to <= source.len() <= usize::MAX,
        source.no_duplicates(),
    ensures
        extended(Map::empty(), source, 0, to).dom().finite(),
        extended(Map::empty(), source, 0, to).len() == to,
        forall|item: u64| #[trigger]
            extended(Map::empty(), source, 0, to).contains_key(item) <==> exists|i: int|
                0 <= i < to && source[i] == item,
        forall|i: int|
            0 <= i < to ==> extended(Map::empty(), source, 0, to)[#[trigger] source[i]] == i,
    decreases to,
{
    if to > 0 {
        lemma_index_map(source, to - 1);
        let before = extended(Map::<u64, usize>::empty(), source, 0, to - 1);
        let after = extended(Map::<u64, usize>::empty(), source, 0, to);
        assert(!before.contains_key(source[to - 1]));
        assert forall|item: u64| #[trigger] after.contains_key(item) <==> exists|i: int|
            0 <= i < to && source[i] == item by {
            if after.contains_key(item) {
                if item == source[to - 1] {
                    assert(source[to - 1] == item);
                } else {
                    assert(before.contains_key(item));
                }
            }
            if exists|i: int| 0 <= i < to && source[i] == item {
                let i = choose|i: int| 0 <= i < to && source[i] == item;
                if i < to - 1 {
                    assert(before.contains_key(item));
                }
            }
        }
        assert forall|i: int| 0 <= i < to implies after[#[trigger] source[i]] == i by {
            if i < to - 1 {
                assert(source[i] != source[to - 1]);
            }
        }
    }
}

/// The map of a list of distinct entries knows the place of each entry, and nothing else.
pub proof fn index_map_knows_every_place(source: Seq<u64>)
    requires
        source.no_duplicates(),
        source.len() <= usize::MAX,
    ensures
        forall|item: u64| #[trigger]
            index_map(source).contains_key(item) <==> source.contains(item),
        forall|i: int|
            0 <= i < source.len() ==> index_map(source)[#[trigger] source[i]] == i,
{
    lemma_index_map(source, source.len() as int);
    assert forall|item: u64| #[trigger] index_map(source).contains_key(item)
        <==> source.contains(item) by {
        if source.contains(item) {
            let i = source.index_of(item);
            assert(source[i] == item);
        }
    }
}

/// Following a change gives the same map as starting over, whatever the change.
pub proof fn following_equals_rebuilding(
    before: Seq<u64>,
    source: Seq<u64>,
    position: u32,
    removed: u32,
    added: u32,
)
    requires
        before.no_duplicates(),
        before.len() <= u32::MAX,
        position + removed <= before.len(),
        source.len() == before.len() - removed + added,
        source.take(position as int) == before.take(position as int),
    ensures
        only_appends(index_map(before), source, position, removed, added) ==> extended(
            index_map(before),
            source,
            position as int,
            source.len() as int,
        ) == index_map(source),
{
    if only_appends(index_map(before), source, position, removed, added) {
        lemma_index_map(before, before.len() as int);
        assert(before.take(position as int) =~= before);
        assert forall|i: int| 0 <= i < before.len() implies before[i] == source[i] by {
            assert(source.take(position as int)[i] == before[i]);
        }
        lemma_extended_prefix(Map::empty(), before, source, 0, before.len() as int);
        lemma_extended_in_steps(Map::empty(), source, 0, position as int, source.len() as int);
    }
}

/// In a view of distinct entries that holds an entry of the list, going to the view and
/// back leads to where one started.
pub proof fn views_lead_back(source: Seq<u64>, view: Seq<u64>, position: int, at: int)
    requires
        source.no_duplicates(),
        source.len() <= usize::MAX,
        0 <= position < source.len(),
        stands_at(view, at, source[position]),
    ensures
        source_of(index_map(source), view, at) == Some(position as usize),
{
    index_map_knows_every_place(source);
    assert(source.contains(source[position]));
}

/// The place of what a view shows is the one that the map has for it.
pub proof fn views_lead_to_places(map: Map<u64, usize>, view: Seq<u64>, position: int)
    ensures
        source_of(map, view, position) is Some <==> 0 <= position < view.len() && map.contains_key(
            view[position],
        ),
        source_of(map, view, position) is Some ==> source_of(map, view, position)->0
            == map[view[position]],
{
}

/// A change only appends if nothing went, and everything that came is behind what the map has.
pub proof fn when_a_change_only_appends(
    map: Map<u64, usize>,
    source: Seq<u64>,
    position: u32,
    removed: u32,
    added: u32,
)
    ensures
        only_appends(map, source, position, removed, added) <==> removed == 0 && map.len()
            == position && source.len() == position + added,
{
}

/// An entry is found at its first place in a view.
pub proof fn entries_are_found_where_they_first_stand(view: Seq<u64>, item: u64)
    requires
        view.len() <= u32::MAX,
    ensures
        match first_position(view, item) {
            Some(at) => at < view.len() && view[at as int] == item && forall|i: int|
                0 <= i < at ==> view[i] != item,
            None => forall|i: int| 0 <= i < view.len() ==> view[i] != item,
        },
    decreases view.len(),
{
    if view.len() > 0 {
        let rest = view.drop_last();
        entries_are_found_where_they_first_stand(rest, item);
        assert forall|i: int| 0 <= i < rest.len() implies rest[i] == view[i] by {}
        if first_position(rest, item) is None {
            assert forall|i: int| 0 <= i < view.len() - 1 implies view[i] != item by {
                assert(rest[i] == view[i]);
            }
        } else {
            let at = first_position(rest, item)->0;
            assert forall|i: int| 0 <= i < at implies view[i] != item by {
                assert(rest[i] == view[i]);
            }
        }
    }
}

/// In a view where an entry stands once, that is where it is found.
pub proof fn entries_are_found_in_their_view(
    source: Seq<u64>,
    view: Seq<u64>,
    position: int,
    at: int,
)
    requires
        0 <= position < source.len() <= u32::MAX,
        view.len() <= u32::MAX,
        view.no_duplicates(),
        0 <= at < view.len(),
        view[at] == source[position],
    ensures
        view_position(source, view, position) == Some(at as u32),
{
    view_position_finds_the_entry(source, view, position);
    assert(view.contains(source[position]));
}

/// An entry is shown in the first of the views that has it, where that view has it.
pub proof fn the_first_view_is_scrolled(source: Seq<u64>, views: Seq<Vec<u64>>, position: int)
    requires
        views.len() <= usize::MAX,
    ensures
        match scroll_place(source, views, position) {
            Some((view, at)) => view < views.len() && view_position(
                source,
                views[view as int]@,
                position,
            ) == Some(at) && forall|i: int|
                0 <= i < view ==> view_position(source, (#[trigger] views[i])@, position) is None,
            None => forall|i: int|
                0 <= i < views.len() ==> view_position(
                    source,
                    (#[trigger] views[i])@,
                    position,
                ) is None,
        },
    decreases views.len(),
{
    if views.len() > 0 {
        let rest = views.drop_last();
        the_first_view_is_scrolled(source, rest, position);
        match scroll_place(source, rest, position) {
            Some((view, at)) => {
                assert(rest[view as int] == views[view as int]);
                assert forall|i: int| 0 <= i < view implies view_position(
                    source,
                    (#[trigger] views[i])@,
                    position,
                ) is None by {
                    assert(rest[i] == views[i]);
                }
            },
            None => {
                assert forall|i: int| 0 <= i < rest.len() implies view_position(
                    source,
                    (#[trigger] views[i])@,
                    position,
                ) is None by {
                    assert(rest[i] == views[i]);
                }
            },
        }
    }
}

} // verus!
