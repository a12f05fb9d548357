//! Groups of entries by file type.
use vstd::prelude::*;
use vstd::string::StrSliceExecFns;

use crate::path::Order;

verus! {

/// The lower-case form of a text.
pub uninterp spec fn lowercase(text: Seq<char>) -> Seq<char>;

/// Calls `str::to_lowercase`. The result is a function of the text alone; which characters
/// change, and into what, is left to the standard library and its Unicode tables.
#[verifier::external_body]
fn to_lowercase(text: &str) -> (lower: String)
    ensures
        lower@ == lowercase(text@),
{
    text.to_lowercase()
}

/// The place of a group among the kinds of groups: the row for a new entry, which has no
/// label, then folders, then the rest.
pub open spec fn group_rank(label: Seq<char>) -> int {
    if label.len() == 0 {
        0
    } else if label == "Folder"@ {
        1
    } else {
        2
    }
}

/// Character by character, a prefix before what it begins.
pub open spec fn text_order(left: Seq<char>, right: Seq<char>) -> Order
    decreases left.len(),
{
    if left.len() == 0 {
        if right.len() == 0 {
            Order::Same
        } else {
            Order::Before
        }
    } else if right.len() == 0 {
        Order::After
    } else if left[0] < right[0] {
        Order::Before
    } else if left[0] > right[0] {
        Order::After
    } else {
        text_order(left.drop_first(), right.drop_first())
    }
}

/// The order of groups by rank, then by label in lower case.
pub open spec fn ranked_order(
    left: Seq<char>,
    left_lower: Seq<char>,
    right: Seq<char>,
    right_lower: Seq<char>,
) -> Order {
    if group_rank(left) < group_rank(right) {
        Order::Before
    } else if group_rank(left) > group_rank(right) {
        Order::After
    } else {
        text_order(left_lower, right_lower)
    }
}

/// The order of groups: by rank, then by label, upper and lower case alike.
#[verifier::opaque]
pub open spec fn group_order(left: Seq<char>, right: Seq<char>) -> Order {
    ranked_order(left, lowercase(left), right, lowercase(right))
}

proof fn lemma_text_order_reversed(left: Seq<char>, right: Seq<char>)
    ensures
        text_order(right, left) == text_order(left, right).reversed(),
    decreases left.len(),
{
    if left.len() > 0 && right.len() > 0 {
        lemma_text_order_reversed(left.drop_first(), right.drop_first());
    }
}

proof fn lemma_text_order_same(left: Seq<char>, right: Seq<char>)
    requires
        text_order(left, right) == Order::Same,
    ensures
        left == right,
    decreases left.len(),
{
    if left.len() > 0 {
        lemma_text_order_same(left.drop_first(), right.drop_first());
        assert(left =~= seq![left[0]] + left.drop_first());
        assert(right =~= seq![right[0]] + right.drop_first());
    }
    assert(left =~= right);
}

proof fn lemma_text_order_chain(first: Seq<char>, second: Seq<char>, third: Seq<char>)
    requires
        text_order(first, second) == Order::Before,
        text_order(second, third) == Order::Before,
    ensures
        text_order(first, third) == Order::Before,
    decreases first.len(),
{
    if first.len() > 0 && second.len() > 0 && third.len() > 0 && first[0] == second[0] && second[0]
        == third[0] {
        lemma_text_order_chain(first.drop_first(), second.drop_first(), third.drop_first());
    }
}

/// The order of groups is one: seen from the other side it is reversed, and it carries
/// over.
pub proof fn group_order_is_an_order(first: Seq<char>, second: Seq<char>, third: Seq<char>)
    ensures
        group_order(second, first) == group_order(first, second).reversed(),
        group_order(first, second) == Order::Before && group_order(second, third) == Order::Before
            ==> group_order(first, third) == Order::Before,
        group_order(first, second) == Order::Same && group_order(second, third) == Order::Before
            ==> group_order(first, third) == Order::Before,
{
    reveal(group_order);
    lemma_text_order_reversed(lowercase(first), lowercase(second));
    if group_order(first, second) == Order::Same && text_order(
        lowercase(first),
        lowercase(second),
    ) == Order::Same {
        lemma_text_order_same(lowercase(first), lowercase(second));
    }
    if text_order(lowercase(first), lowercase(second)) == Order::Before && text_order(
        lowercase(second),
        lowercase(third),
    ) == Order::Before {
        lemma_text_order_chain(lowercase(first), lowercase(second), lowercase(third));
    }
}

/// The row for a new entry comes first, folders next, whatever else there is.
pub proof fn new_entry_and_folders_lead(label: Seq<char>)
    requires
        label.len() > 0,
        label != "Folder"@,
    ensures
        group_order(Seq::empty(), "Folder"@) == Order::Before,
        group_order(Seq::empty(), label) == Order::Before,
        group_order("Folder"@, label) == Order::Before,
{
    reveal(group_order);
    reveal_strlit("Folder");
}

fn rank(label: &str) -> (rank: u8)
    ensures
        rank == group_rank(label@),
{
    if label.unicode_len() == 0 {
        0
    } else if label.to_owned() == "Folder".to_owned() {
        1
    } else {
        2
    }
}

fn order_texts(left: &str, right: &str) -> (order: Order)
    ensures
        order == text_order(left@, right@),
{
    let left_len: usize = left.unicode_len();
    let right_len: usize = right.unicode_len();
    let mut index: usize = 0;
    assert(left@.skip(0) =~= left@);
    assert(right@.skip(0) =~= right@);
    while index < left_len && index < right_len
        invariant
            index <= left_len == left@.len(),
            index <= right_len == right@.len(),
            text_order(left@, right@) == text_order(
                left@.skip(index as int),
                right@.skip(index as int),
            ),
        decreases left_len - index,
    {
        assert(left@.skip(index as int).drop_first() =~= left@.skip(index + 1));
        assert(right@.skip(index as int).drop_first() =~= right@.skip(index + 1));
        let a = left.get_char(index);
        let b = right.get_char(index);
        if a < b {
            return Order::Before;
        }
        if a > b {
            return Order::After;
        }
        index = index + 1;
    }
    if left_len == right_len {
        Order::Same
    } else if index == left_len {
        Order::Before
    } else {
        Order::After
    }
}

/// Compares two groups by their labels.
pub fn compare_type_groups(left: &str, right: &str) -> (order: Order)
    ensures
        order == group_order(left@, right@),
        order == ranked_order(left@, lowercase(left@), right@, lowercase(right@)),
{
    proof {
        reveal(group_order);
    }
    let left_lower = to_lowercase(left);
    let right_lower = to_lowercase(right);
    order_type_groups(left, left_lower.as_str(), right, right_lower.as_str())
}

/// Compares two groups by their labels, which are also given in lower case.
pub fn order_type_groups(left: &str, left_lower: &str, right: &str, right_lower: &str) -> (order:
    Order)
    ensures
        order == ranked_order(left@, left_lower@, right@, right_lower@),
{
    let left_rank: u8 = rank(left);
    let right_rank: u8 = rank(right);
    if left_rank < right_rank {
        Order::Before
    } else if left_rank > right_rank {
        Order::After
    } else {
        order_texts(left_lower, right_lower)
    }
}

/// The views of a list of labels.
pub open spec fn label_views(labels: Seq<String>) -> Seq<Seq<char>> {
    labels.map_values(|label: String| label@)
}

/// Whether each group comes before all later ones, which also means that none is listed
/// twice.
pub open spec fn groups_in_order(labels: Seq<Seq<char>>) -> bool {
    forall|i: int, j: int|
        0 <= i < j < labels.len() ==> group_order(#[trigger] labels[i], #[trigger] labels[j])
            == Order::Before
}

/// Whether one of `labels` is the group of `label`.
pub open spec fn has_group(labels: Seq<Seq<char>>, label: Seq<char>) -> bool {
    exists|i: int| 0 <= i < labels.len() && group_order(#[trigger] labels[i], label) == Order::Same
}

/// Whether `groups` are the groups of `labels`: in order, every label has its group, and
/// every group is a label that no earlier one shares its group with.
pub open spec fn are_groups_of(groups: Seq<Seq<char>>, labels: Seq<Seq<char>>) -> bool {
    &&& groups_in_order(groups)
    &&& forall|i: int| 0 <= i < labels.len() ==> has_group(groups, #[trigger] labels[i])
    &&& forall|k: int| 0 <= k < groups.len() ==> names_group(labels, #[trigger] groups[k])
}

/// `are_groups_of`, kept closed while groups are being collected.
#[verifier::opaque]
spec fn groups_hold(groups: Seq<Seq<char>>, labels: Seq<Seq<char>>) -> bool {
    are_groups_of(groups, labels)
}

/// Whether `label` is the first label of its group.
pub open spec fn names_group(labels: Seq<Seq<char>>, label: Seq<char>) -> bool {
    exists|i: int| #[trigger] first_of_group(labels, i, label)
}

/// Whether `label` is the label at `i`, and none before it shares its group.
pub open spec fn first_of_group(labels: Seq<Seq<char>>, i: int, label: Seq<char>) -> bool {
    &&& 0 <= i < labels.len()
    &&& labels[i] == label
    &&& forall|j: int| 0 <= j < i ==> group_order(#[trigger] labels[j], label) != Order::Same
}

/// Where a label belongs among groups: at the place of its group, or before the first
/// group that comes after it.
fn group_place(groups: &Vec<String>, label: &String) -> (place: (usize, bool))
    ensures
        place.0 <= groups@.len(),
        place.1 ==> place.0 < groups@.len() && group_order(
            label_views(groups@)[place.0 as int],
            label@,
        ) == Order::Same,
        !place.1 ==> {
            &&& place.0 < groups@.len() ==> group_order(
                label_views(groups@)[place.0 as int],
                label@,
            ) == Order::After
            &&& forall|i: int|
                0 <= i < place.0 ==> group_order(#[trigger] label_views(groups@)[i], label@)
                    == Order::Before
        },
{
    let mut at: usize = 0;
    while at < groups.len()
        invariant
            at <= groups.len(),
            forall|i: int|
                0 <= i < at ==> group_order(#[trigger] label_views(groups@)[i], label@)
                    == Order::Before,
        decreases groups.len() - at,
    {
        let order = compare_type_groups(groups[at].as_str(), label.as_str());
        assert(label_views(groups@)[at as int] == groups@[at as int]@);
        if order == Order::Same {
            return (at, true);
        }
        if order == Order::After {
            return (at, false);
        }
        at = at + 1;
    }
    (at, false)
}

proof fn lemma_names_persist(labels: Seq<Seq<char>>, more: Seq<char>, label: Seq<char>)
    requires
        names_group(labels, label),
    ensures
        names_group(labels.push(more), label),
{
    let i = choose|i: int| #[trigger] first_of_group(labels, i, label);
    let longer = labels.push(more);
    assert forall|j: int| 0 <= j < i implies group_order(#[trigger] longer[j], label)
        != Order::Same by {
        assert(labels[j] == longer[j]);
    }
    assert(first_of_group(longer, i, label));
}

proof fn lemma_known_group(groups: Seq<Seq<char>>, labels: Seq<Seq<char>>, label: Seq<char>, at: int)
    requires
        groups_hold(groups, labels),
        0 <= at < groups.len(),
        group_order(groups[at], label) == Order::Same,
    ensures
        groups_hold(groups, labels.push(label)),
{
    reveal(groups_hold);
    let more = labels.push(label);
    assert forall|i: int| 0 <= i < more.len() implies has_group(groups, #[trigger] more[i]) by {
        if i < labels.len() {
            assert(more[i] == labels[i]);
        }
    }
    assert forall|k: int| 0 <= k < groups.len() implies names_group(more, #[trigger] groups[k]) by {
        lemma_names_persist(labels, label, groups[k]);
    }
}

proof fn lemma_not_known(groups: Seq<Seq<char>>, label: Seq<char>, at: int)
    requires
        groups_in_order(groups),
        0 <= at <= groups.len(),
        at < groups.len() ==> group_order(groups[at], label) == Order::After,
        forall|i: int| 0 <= i < at ==> group_order(#[trigger] groups[i], label) == Order::Before,
    ensures
        !has_group(groups, label),
{
    if has_group(groups, label) {
        let i = choose|i: int|
            0 <= i < groups.len() && group_order(#[trigger] groups[i], label) == Order::Same;
        if i > at {
            assert(group_order(groups[at], groups[i]) == Order::Before);
            lemma_before_same(groups[at], groups[i], label);
        }
    }
}

proof fn lemma_new_group_order(groups: Seq<Seq<char>>, label: Seq<char>, at: int)
    requires
        groups_in_order(groups),
        0 <= at <= groups.len(),
        at < groups.len() ==> group_order(groups[at], label) == Order::After,
        forall|i: int| 0 <= i < at ==> group_order(#[trigger] groups[i], label) == Order::Before,
    ensures
        groups_in_order(groups.insert(at, label)),
{
    let after = groups.insert(at, label);
    assert forall|i: int, j: int| 0 <= i < j < after.len() implies group_order(
        #[trigger] after[i],
        #[trigger] after[j],
    ) == Order::Before by {
        let from_i = if i < at { i } else { i - 1 };
        let from_j = if j < at { j } else { j - 1 };
        if i == at {
            assert(after[j] == groups[from_j]);
            group_order_is_an_order(groups[at], label, label);
            if from_j > at {
                assert(group_order(groups[at], groups[from_j]) == Order::Before);
                group_order_is_an_order(label, groups[at], groups[from_j]);
            }
        } else if j == at {
            assert(after[i] == groups[i]);
        } else {
            assert(after[i] == groups[from_i]);
            assert(after[j] == groups[from_j]);
        }
    }
}

proof fn lemma_new_group(groups: Seq<Seq<char>>, labels: Seq<Seq<char>>, label: Seq<char>, at: int)
    requires
        groups_hold(groups, labels),
        0 <= at <= groups.len(),
        at < groups.len() ==> group_order(groups[at], label) == Order::After,
        forall|i: int| 0 <= i < at ==> group_order(#[trigger] groups[i], label) == Order::Before,
    ensures
        groups_hold(groups.insert(at, label), labels.push(label)),
{
    reveal(groups_hold);
    let after = groups.insert(at, label);
    let more = labels.push(label);
    lemma_new_group_order(groups, label, at);
    lemma_not_known(groups, label, at);
    assert forall|i: int| 0 <= i < more.len() implies has_group(after, #[trigger] more[i]) by {
        if i < labels.len() {
            assert(more[i] == labels[i]);
            let k = choose|k: int|
                0 <= k < groups.len() && group_order(#[trigger] groups[k], labels[i])
                    == Order::Same;
            let to = if k < at { k } else { k + 1 };
            assert(after[to] == groups[k]);
        } else {
            assert(after[at] == label);
            lemma_group_order_itself(label);
        }
    }
    assert forall|j: int| 0 <= j < labels.len() implies group_order(#[trigger] more[j], label)
        != Order::Same by {
        assert(more[j] == labels[j]);
        if group_order(labels[j], label) == Order::Same {
            assert(has_group(groups, labels[j]));
            let k = choose|k: int|
                0 <= k < groups.len() && group_order(#[trigger] groups[k], labels[j])
                    == Order::Same;
            lemma_same_chain(groups[k], labels[j], label);
        }
    }
    assert(first_of_group(more, labels.len() as int, label));
    assert forall|k: int| 0 <= k < after.len() implies names_group(more, #[trigger] after[k]) by {
        if k != at {
            let from = if k < at { k } else { k - 1 };
            assert(after[k] == groups[from]);
            lemma_names_persist(labels, label, groups[from]);
        }
    }
}

proof fn lemma_text_order_itself(text: Seq<char>)
    ensures
        text_order(text, text) == Order::Same,
    decreases text.len(),
{
    if text.len() > 0 {
        lemma_text_order_itself(text.drop_first());
    }
}

proof fn lemma_group_order_itself(label: Seq<char>)
    ensures
        group_order(label, label) == Order::Same,
{
    reveal(group_order);
    lemma_text_order_itself(lowercase(label));
}

proof fn lemma_same_chain(first: Seq<char>, second: Seq<char>, third: Seq<char>)
    requires
        group_order(first, second) == Order::Same,
        group_order(second, third) == Order::Same,
    ensures
        group_order(first, third) == Order::Same,
{
    reveal(group_order);
    lemma_text_order_same(lowercase(first), lowercase(second));
    lemma_text_order_same(lowercase(second), lowercase(third));
    lemma_text_order_itself(lowercase(first));
}

proof fn lemma_before_same(first: Seq<char>, second: Seq<char>, third: Seq<char>)
    requires
        group_order(first, second) == Order::Before,
        group_order(second, third) == Order::Same,
    ensures
        group_order(first, third) == Order::Before,
{
    reveal(group_order);
    lemma_text_order_same(lowercase(second), lowercase(third));
}

/// The groups of a list of entries, by the labels of the entries' types, in the order in
/// which they are shown.
pub fn type_groups_of(labels: &[String]) -> (groups: Vec<String>)
    ensures
        are_groups_of(label_views(groups@), label_views(labels@)),
{
    let mut groups: Vec<String> = Vec::new();
    let mut index: usize = 0;
    let ghost all = label_views(labels@);
    assert(label_views(groups@) =~= Seq::<Seq<char>>::empty());
    proof {
        reveal(groups_hold);
    }
    while index < labels.len()
        invariant
            index <= labels.len(),
            all == label_views(labels@),
            groups_hold(label_views(groups@), all.take(index as int)),
        decreases labels.len() - index,
    {
        let label = &labels[index];
        let (place, known) = group_place(&groups, label);
        let ghost before = label_views(groups@);
        if !known {
            groups.insert(place, label.clone());
            proof {
                lemma_new_group(before, all.take(index as int), label@, place as int);
                assert(label_views(groups@) =~= before.insert(place as int, label@));
            }
        } else {
            proof {
                lemma_known_group(before, all.take(index as int), label@, place as int);
            }
        }
        assert(all.take(index + 1) =~= all.take(index as int).push(labels@[index as int]@));
        index = index + 1;
    }
    assert(all.take(index as int) =~= all);
    proof {
        reveal(groups_hold);
    }
    groups
}

/// The group that a model value belongs to, given the label of its type; the row for a new
/// entry has no value and belongs to a group of its own.
pub fn value_type_group(value: &str, type_label: String) -> (group: String)
    ensures
        group@ == if value@.len() == 0 {
            Seq::empty()
        } else {
            type_label@
        },
{
    if value.unicode_len() == 0 {
        String::new()
    } else {
        type_label
    }
}

/// What becomes of the groups of a pane.
#[derive(Debug)]
pub struct GroupChange {
    /// Groups to take out, by their place among the present ones.
    pub removed: Vec<usize>,
    /// The new groups in order: the place of a present group that is kept, or `None` for one
    /// that is built.
    pub placed: Vec<Option<usize>>,
}

/// The first place of a label.
pub open spec fn place_of(labels: Seq<Seq<char>>, label: Seq<char>) -> Option<usize>
    decreases labels.len(),
{
    if labels.len() == 0 {
        None
    } else {
        match place_of(labels.drop_last(), label) {
            Some(place) => Some(place),
            None => if labels.last() == label {
                Some((labels.len() - 1) as usize)
            } else {
                None
            },
        }
    }
}

fn find_label(labels: &Vec<String>, label: &String) -> (place: Option<usize>)
    ensures
        place == place_of(label_views(labels@), label@),
        place matches Some(at) ==> at < labels@.len() && labels@[at as int]@ == label@,
        place is None <==> !label_views(labels@).contains(label@),
{
    let ghost all = label_views(labels@);
    let mut index: usize = 0;
    while index < labels.len()
        invariant
            index <= labels.len(),
            all == label_views(labels@),
            place_of(all.take(index as int), label@) is None,
            forall|i: int| 0 <= i < index ==> all[i] != label@,
        decreases labels.len() - index,
    {
        assert(all.take(index + 1).drop_last() =~= all.take(index as int));
        assert(all[index as int] == labels@[index as int]@);
        if labels[index] == *label {
            proof {
                assert(place_of(all.take(index + 1), label@) == Some(index));
                lemma_place_of_prefix(all, label@, index + 1);
            }
            return Some(index);
        }
        index = index + 1;
    }
    assert(all.take(index as int) =~= all);
    None
}

proof fn lemma_place_of_prefix(labels: Seq<Seq<char>>, label: Seq<char>, taken: int)
    requires
        0 <= taken <= labels.len(),
        place_of(labels.take(taken), label) is Some,
    ensures
        place_of(labels, label) == place_of(labels.take(taken), label),
    decreases labels.len(),
{
    if taken < labels.len() {
        assert(labels.drop_last().take(taken) =~= labels.take(taken));
        lemma_place_of_prefix(labels.drop_last(), label, taken);
    } else {
        assert(labels.take(taken) =~= labels);
    }
}

/// Brings the groups of a pane from `existing` to `desired`: nothing to do if they are the
/// same in the same order; otherwise groups that are not desired go, and the desired ones
/// are put in order, built where they do not exist.
pub fn sync_grid_groups(existing: &Vec<String>, desired: &Vec<String>) -> (change: Option<GroupChange>)
    ensures
        change is None <==> label_views(existing@) == label_views(desired@),
        change matches Some(made) ==> {
            &&& crate::selection::ascending(made.removed@)
            &&& forall|i: usize| #[trigger]
                made.removed@.contains(i) <==> i < existing@.len() && !label_views(
                    desired@,
                ).contains(existing@[i as int]@)
            &&& made.placed@.len() == desired@.len()
            &&& forall|k: int|
                0 <= k < desired@.len() ==> #[trigger] made.placed@[k] == place_of(
                    label_views(existing@),
                    desired@[k]@,
                )
        },
{
    if same_labels(existing, desired) {
        return None;
    }
    let mut removed: Vec<usize> = Vec::new();
    let mut index: usize = 0;
    while index < existing.len()
        invariant
            index <= existing.len(),
            crate::selection::ascending(removed@),
            forall|i: usize| #[trigger]
                removed@.contains(i) <==> i < index && !label_views(desired@).contains(
                    existing@[i as int]@,
                ),
        decreases existing.len() - index,
    {
        if find_label(desired, &existing[index]).is_none() {
            let ghost before = removed@;
            removed.push(index);
            proof {
                assert forall|i: usize| #[trigger]
                    removed@.contains(i) <==> i < index + 1 && !label_views(desired@).contains(
                        existing@[i as int]@,
                    ) by {
                    if before.contains(i) {
                        let k = before.index_of(i);
                        assert(removed@[k] == i);
                    }
                    if i == index {
                        assert(removed@[before.len() as int] == i);
                    }
                    if removed@.contains(i) && i != index {
                        let k = removed@.index_of(i);
                        assert(before[k] == i);
                        assert(before.contains(i));
                    }
                }
                assert forall|i: int, j: int| 0 <= i < j < removed@.len() implies removed@[i]
                    < removed@[j] by {
                    if j == before.len() {
                        assert(before.contains(before[i]));
                    }
                }
            }
        }
        index = index + 1;
    }
    let mut placed: Vec<Option<usize>> = Vec::new();
    let mut next: usize = 0;
    while next < desired.len()
        invariant
            next <= desired.len(),
            placed@.len() == next,
            forall|k: int|
                0 <= k < next ==> #[trigger] placed@[k] == place_of(
                    label_views(existing@),
                    desired@[k]@,
                ),
        decreases desired.len() - next,
    {
        placed.push(find_label(existing, &desired[next]));
        next = next + 1;
    }
    Some(GroupChange { removed, placed })
}

fn same_labels(left: &Vec<String>, right: &Vec<String>) -> (same: bool)
    ensures
        same == (label_views(left@) == label_views(right@)),
{
    assert(label_views(left@).len() == left@.len());
    assert(label_views(right@).len() == right@.len());
    if left.len() != right.len() {
        return false;
    }
    let mut index: usize = 0;
    while index < left.len()
        invariant
            index <= left.len() == right.len(),
            forall|i: int| 0 <= i < index ==> left@[i]@ == right@[i]@,
        decreases left.len() - index,
    {
        if left[index] != right[index] {
            assert(label_views(left@)[index as int] != label_views(right@)[index as int]);
            return false;
        }
        index = index + 1;
    }
    assert(label_views(left@) =~= label_views(right@));
    true
}

proof fn lemma_text_order_at(left: Seq<char>, right: Seq<char>, at: int)
    requires
        0 <= at <= left.len(),
        at <= right.len(),
        forall|k: int| 0 <= k < at ==> left[k] == right[k],
    ensures
        at == left.len() && at < right.len() ==> text_order(left, right) == Order::Before,
        at < left.len() && at == right.len() ==> text_order(left, right) == Order::After,
        at == left.len() && at == right.len() ==> text_order(left, right) == Order::Same,
        at < left.len() && at < right.len() && left[at] < right[at] ==> text_order(left, right)
            == Order::Before,
        at < left.len() && at < right.len() && left[at] > right[at] ==> text_order(left, right)
            == Order::After,
    decreases at,
{
    if at > 0 {
        let rest_left = left.drop_first();
        let rest_right = right.drop_first();
        assert forall|k: int| 0 <= k < at - 1 implies rest_left[k] == rest_right[k] by {
            assert(left[k + 1] == right[k + 1]);
        }
        assert(left[0] == right[0]);
        lemma_text_order_at(rest_left, rest_right, at - 1);
    }
}

/// Labels of the same kind go alphabetically by their lower-case forms: where these first
/// differ, the one with the smaller character comes first, and one that ends there comes before
/// one that goes on. Labels with the same lower-case form share a group.
pub proof fn labels_go_alphabetically(
    left: Seq<char>,
    left_lower: Seq<char>,
    right: Seq<char>,
    right_lower: Seq<char>,
    at: int,
)
    requires
        left.len() > 0 && left != "Folder"@ && right.len() > 0 && right != "Folder"@,
        0 <= at <= left_lower.len(),
        at <= right_lower.len(),
        forall|k: int| 0 <= k < at ==> left_lower[k] == right_lower[k],
    ensures
        at < left_lower.len() && at < right_lower.len() && left_lower[at] < right_lower[at]
            ==> ranked_order(left, left_lower, right, right_lower) == Order::Before,
        at < left_lower.len() && at < right_lower.len() && left_lower[at] > right_lower[at]
            ==> ranked_order(left, left_lower, right, right_lower) == Order::After,
        at == left_lower.len() && at < right_lower.len() ==> ranked_order(
            left,
            left_lower,
            right,
            right_lower,
        ) == Order::Before,
        at < left_lower.len() && at == right_lower.len() ==> ranked_order(
            left,
            left_lower,
            right,
            right_lower,
        ) == Order::After,
        at == left_lower.len() && at == right_lower.len() ==> ranked_order(
            left,
            left_lower,
            right,
            right_lower,
        ) == Order::Same,
{
    lemma_text_order_at(left_lower, right_lower, at);
}

/// The row for a new entry, which has no label, comes before folders, and folders before all
/// else, whatever their lower-case forms; two labels of one of these kinds share a group if their
/// lower-case forms agree.
pub proof fn kinds_go_before_letters(
    label: Seq<char>,
    lower: Seq<char>,
    other: Seq<char>,
    other_lower: Seq<char>,
)
    ensures
        label.len() == 0 && other.len() > 0 ==> ranked_order(label, lower, other, other_lower)
            == Order::Before && ranked_order(other, other_lower, label, lower) == Order::After,
        label == "Folder"@ && other.len() > 0 && other != "Folder"@ ==> ranked_order(
            label,
            lower,
            other,
            other_lower,
        ) == Order::Before && ranked_order(other, other_lower, label, lower) == Order::After,
        label == other && lower == other_lower ==> ranked_order(label, lower, other, other_lower)
            == Order::Same,
{
    reveal_strlit("Folder");
    if label == other && lower == other_lower {
        lemma_text_order_itself(lower);
    }
}

/// Groups are compared by their labels' lower-case forms, as the standard library gives them.
pub proof fn groups_go_alphabetically(left: Seq<char>, right: Seq<char>, at: int)
    requires
        left.len() > 0 && left != "Folder"@ && right.len() > 0 && right != "Folder"@,
        0 <= at <= lowercase(left).len(),
        at <= lowercase(right).len(),
        forall|k: int| 0 <= k < at ==> lowercase(left)[k] == lowercase(right)[k],
    ensures
        at < lowercase(left).len() && at < lowercase(right).len() && lowercase(left)[at]
            < lowercase(right)[at] ==> group_order(left, right) == Order::Before,
        at < lowercase(left).len() && at < lowercase(right).len() && lowercase(left)[at]
            > lowercase(right)[at] ==> group_order(left, right) == Order::After,
        at == lowercase(left).len() && at < lowercase(right).len() ==> group_order(left, right)
            == Order::Before,
        at < lowercase(left).len() && at == lowercase(right).len() ==> group_order(left, right)
            == Order::After,
        at == lowercase(left).len() && at == lowercase(right).len() ==> group_order(left, right)
            == Order::Same,
{
    reveal(group_order);
    labels_go_alphabetically(left, lowercase(left), right, lowercase(right), at);
}

/// The groups of entries are shown alphabetically: of two groups that are neither the new entry's
/// nor the folders', the one that comes first does not have the greater lower-case form.
pub proof fn groups_are_shown_alphabetically(
    groups: Seq<Seq<char>>,
    labels: Seq<Seq<char>>,
    i: int,
    j: int,
    at: int,
)
    requires
        are_groups_of(groups, labels),
        0 <= i < j < groups.len(),
        groups[i].len() > 0 && groups[i] != "Folder"@,
        groups[j].len() > 0 && groups[j] != "Folder"@,
        0 <= at <= lowercase(groups[i]).len(),
        at <= lowercase(groups[j]).len(),
        forall|k: int| 0 <= k < at ==> lowercase(groups[i])[k] == lowercase(groups[j])[k],
    ensures
        at < lowercase(groups[j]).len(),
        at < lowercase(groups[i]).len() ==> lowercase(groups[i])[at] <= lowercase(groups[j])[at],
{
    groups_go_alphabetically(groups[i], groups[j], at);
    assert(group_order(groups[i], groups[j]) == Order::Before);
}

/// The new entry's group is shown first, and the folders' before all others.
pub proof fn new_entry_and_folders_are_shown_first(
    groups: Seq<Seq<char>>,
    labels: Seq<Seq<char>>,
    i: int,
    j: int,
)
    requires
        are_groups_of(groups, labels),
        0 <= i < j < groups.len(),
    ensures
        groups[j].len() > 0,
        groups[j] == "Folder"@ ==> groups[i].len() == 0,
{
    reveal(group_order);
    assert(group_order(groups[i], groups[j]) == Order::Before);
    kinds_go_before_letters(groups[j], lowercase(groups[j]), groups[i], lowercase(groups[i]));
    if groups[j].len() == 0 && groups[i].len() == 0 {
        assert(groups[i] =~= groups[j]);
        lemma_group_order_itself(groups[i]);
    }
    if groups[j] == "Folder"@ && groups[i] == "Folder"@ {
        lemma_group_order_itself(groups[i]);
    }
}

/// Every group is the label of an entry, and every entry has a group: one whose label has the
/// same lower-case form, or its own label.
pub proof fn every_entry_has_its_group(groups: Seq<Seq<char>>, labels: Seq<Seq<char>>, i: int) -> (
k: int)
    requires
        are_groups_of(groups, labels),
        0 <= i < labels.len(),
    ensures
        0 <= k < groups.len(),
        lowercase(groups[k]) == lowercase(labels[i]),
        labels[i].len() == 0 <==> groups[k].len() == 0,
        labels[i] == "Folder"@ <==> groups[k] == "Folder"@,
        forall|g: int| 0 <= g < groups.len() ==> labels.contains(#[trigger] groups[g]),
{
    reveal(group_order);
    reveal_strlit("Folder");
    assert(has_group(groups, labels[i]));
    let k = choose|k: int|
        0 <= k < groups.len() && group_order(#[trigger] groups[k], labels[i]) == Order::Same;
    lemma_text_order_same(lowercase(groups[k]), lowercase(labels[i]));
    assert forall|g: int| 0 <= g < groups.len() implies labels.contains(#[trigger] groups[g]) by {
        assert(names_group(labels, groups[g]));
        let at = choose|at: int| #[trigger] first_of_group(labels, at, groups[g]);
        assert(labels[at] == groups[g]);
    }
    k
}

/// A label is placed where it is first listed.
pub proof fn labels_keep_their_first_place(labels: Seq<Seq<char>>, label: Seq<char>)
    requires
        labels.len() <= usize::MAX,
    ensures
        match place_of(labels, label) {
            Some(at) => at < labels.len() && labels[at as int] == label && forall|i: int|
                0 <= i < at ==> labels[i] != label,
            None => !labels.contains(label),
        },
    decreases labels.len(),
{
    if labels.len() > 0 {
        let rest = labels.drop_last();
        labels_keep_their_first_place(rest, label);
        match place_of(rest, label) {
            Some(at) => {
                assert forall|i: int| 0 <= i < at implies labels[i] != label by {
                    assert(rest[i] == labels[i]);
                }
            },
            None => {
                assert forall|i: int| 0 <= i < rest.len() implies labels[i] != label by {
                    if labels[i] == label {
                        assert(rest[i] == label);
                        assert(rest.contains(label));
                    }
                }
                if labels.contains(label) {
                    let i = labels.index_of(label);
                    assert(labels[i] == label);
                }
            },
        }
    }
}

/// A group is called by the first of its labels: one with the same lower-case form is not listed
/// before it.
pub proof fn groups_are_called_by_their_first_label(
    groups: Seq<Seq<char>>,
    labels: Seq<Seq<char>>,
    g: int,
    i: int,
) -> (at: int)
    requires
        are_groups_of(groups, labels),
        0 <= g < groups.len(),
        0 <= i < labels.len(),
        groups[g].len() > 0 && groups[g] != "Folder"@,
        labels[i].len() > 0 && labels[i] != "Folder"@,
        lowercase(labels[i]) == lowercase(groups[g]),
    ensures
        0 <= at <= i,
        labels[at] == groups[g],
{
    assert(names_group(labels, groups[g]));
    let at = choose|at: int| #[trigger] first_of_group(labels, at, groups[g]);
    groups_go_alphabetically(labels[i], groups[g], lowercase(groups[g]).len() as int);
    at
}

} // verus!
