//! Paths as bytes: their components, their order, and sorting by it.
use vstd::prelude::*;

verus! {

/// The separator `/`.
pub const SEPARATOR: u8 = 0x2f;

/// The byte `.`.
pub const DOT: u8 = 0x2e;

/// How one component of a path compares with another of a different kind: the root comes
/// first, then the current directory, the parent directory, and names.
pub const ROOT: u8 = 0;

pub const CURRENT: u8 = 1;

pub const PARENT: u8 = 2;

pub const NAME: u8 = 3;

/// One component of a path; `name` is empty unless the component is a name.
#[derive(Debug, PartialEq, Eq)]
pub struct Component {
    pub rank: u8,
    pub name: Vec<u8>,
}

/// A component as a value.
pub ghost struct ComponentView {
    pub rank: u8,
    pub name: Seq<u8>,
}

impl View for Component {
    type V = ComponentView;

    open spec fn view(&self) -> ComponentView {
        ComponentView { rank: self.rank, name: self.name@ }
    }
}

/// The views of a sequence of components.
pub open spec fn component_views(components: Seq<Component>) -> Seq<ComponentView> {
    components.map_values(|c: Component| c@)
}

/// The views of a sequence of byte strings.
pub open spec fn byte_views(items: Seq<Vec<u8>>) -> Seq<Seq<u8>> {
    items.map_values(|item: Vec<u8>| item@)
}

/// The parts of a path between its separators, empty ones among them.
pub open spec fn pieces(path: Seq<u8>) -> Seq<Seq<u8>>
    decreases path.len(),
{
    if path.len() == 0 {
        seq![Seq::empty()]
    } else {
        let before = pieces(path.drop_last());
        if path.last() == SEPARATOR {
            before.push(Seq::empty())
        } else {
            before.drop_last().push(before.last().push(path.last()))
        }
    }
}

/// What one piece contributes: nothing where it is empty, nothing for a single dot
/// except at the very start of the path.
pub open spec fn piece_components(piece: Seq<u8>, at_start: bool) -> Seq<ComponentView> {
    if piece.len() == 0 {
        Seq::empty()
    } else if piece == seq![DOT] {
        if at_start {
            seq![ComponentView { rank: CURRENT, name: Seq::empty() }]
        } else {
            Seq::empty()
        }
    } else if piece == seq![DOT, DOT] {
        seq![ComponentView { rank: PARENT, name: Seq::empty() }]
    } else {
        seq![ComponentView { rank: NAME, name: piece }]
    }
}

/// What the pieces of a path contribute.
pub open spec fn joined_components(pieces: Seq<Seq<u8>>) -> Seq<ComponentView>
    decreases pieces.len(),
{
    if pieces.len() == 0 {
        Seq::empty()
    } else {
        joined_components(pieces.drop_last()) + piece_components(pieces.last(), pieces.len() == 1)
    }
}

/// The components of a path.
pub open spec fn path_components(path: Seq<u8>) -> Seq<ComponentView> {
    let rooted = path.len() > 0 && path[0] == SEPARATOR;
    (if rooted {
        seq![ComponentView { rank: ROOT, name: Seq::empty() }]
    } else {
        Seq::empty()
    }) + joined_components(pieces(path))
}

/// The final name of a path, where it ends in one.
pub open spec fn file_name_of(path: Seq<u8>) -> Option<Seq<u8>> {
    let all = path_components(path);
    if all.len() > 0 && all.last().rank == NAME {
        Some(all.last().name)
    } else {
        None
    }
}

fn push_piece(components: &mut Vec<Component>, piece: Vec<u8>, at_start: bool)
    ensures
        component_views(final(components)@) == component_views(old(components)@)
            + piece_components(piece@, at_start),
{
    let ghost before = components@;
    if piece.len() == 0 {
        assert(component_views(components@) =~= component_views(before) + piece_components(
            piece@,
            at_start,
        ));
    } else if piece.len() == 1 && piece[0] == DOT {
        assert(piece@ =~= seq![DOT]);
        if at_start {
            components.push(Component { rank: CURRENT, name: Vec::new() });
        }
        assert(component_views(components@) =~= component_views(before) + piece_components(
            piece@,
            at_start,
        ));
    } else if piece.len() == 2 && piece[0] == DOT && piece[1] == DOT {
        assert(piece@ =~= seq![DOT, DOT]);
        components.push(Component { rank: PARENT, name: Vec::new() });
        assert(component_views(components@) =~= component_views(before) + piece_components(
            piece@,
            at_start,
        ));
    } else {
        let ghost expected = piece_components(piece@, at_start);
        components.push(Component { rank: NAME, name: piece });
        assert(component_views(components@) =~= component_views(before) + expected);
    }
}

/// Splits a path into its components.
pub fn components(path: &[u8]) -> (found: Vec<Component>)
    ensures
        component_views(found@) == path_components(path@),
{
    let mut found: Vec<Component> = Vec::new();
    if path.len() > 0 && path[0] == SEPARATOR {
        found.push(Component { rank: ROOT, name: Vec::new() });
    }
    let ghost start = component_views(found@);
    let mut piece: Vec<u8> = Vec::new();
    let mut complete: usize = 0;
    let mut index: usize = 0;
    assert(pieces(path@.take(0)) =~= seq![Seq::<u8>::empty()]);
    assert(pieces(path@.take(0)).drop_last() =~= Seq::<Seq<u8>>::empty());
    assert(piece@ =~= Seq::<u8>::empty());
    assert(component_views(found@) =~= start + joined_components(Seq::empty()));
    while index < path.len()
        invariant
            index <= path.len(),
            pieces(path@.take(index as int)).len() == complete + 1,
            complete <= index,
            piece@ == pieces(path@.take(index as int)).last(),
            component_views(found@) == start + joined_components(
                pieces(path@.take(index as int)).drop_last(),
            ),
        decreases path.len() - index,
    {
        let ghost before = pieces(path@.take(index as int));
        assert(path@.take(index + 1).drop_last() =~= path@.take(index as int));
        assert(path@.take(index + 1).last() == path@[index as int]);
        if path[index] == SEPARATOR {
            let mut done: Vec<u8> = Vec::new();
            std::mem::swap(&mut done, &mut piece);
            let ghost before_views = component_views(found@);
            push_piece(&mut found, done, complete == 0);
            assert(pieces(path@.take(index + 1)).drop_last() =~= before);
            assert(component_views(found@) =~= start + joined_components(before));
            assert(piece@ =~= Seq::<u8>::empty());
            complete = complete + 1;
        } else {
            piece.push(path[index]);
            assert(pieces(path@.take(index + 1)).drop_last() =~= before.drop_last());
        }
        index = index + 1;
    }
    assert(path@.take(index as int) =~= path@);
    push_piece(&mut found, piece, complete == 0);
    assert(component_views(found@) =~= start + joined_components(pieces(path@)));
    assert(component_views(found@) =~= path_components(path@));
    found
}

/// The final name of a path.
pub fn file_name(path: &[u8]) -> (name: Option<Vec<u8>>)
    ensures
        match name {
            Some(found) => file_name_of(path@) == Some(found@),
            None => file_name_of(path@) is None,
        },
{
    let mut found = components(path);
    assert(found@.len() == component_views(found@).len());
    match found.pop() {
        Some(last) => {
            assert(path_components(path@).last() == last@);
            if last.rank == NAME {
                Some(last.name)
            } else {
                None
            }
        },
        None => None,
    }
}

/// How one value stands to another.
#[derive(Clone, Copy, Debug, PartialEq, Eq, Structural)]
pub enum Order {
    Before,
    Same,
    After,
}

impl Order {
    /// The same relation seen from the other side.
    pub open spec fn reversed(self) -> Order {
        match self {
            Order::Before => Order::After,
            Order::Same => Order::Same,
            Order::After => Order::Before,
        }
    }
}

/// Byte by byte, a prefix before what it begins.
pub open spec fn bytes_order(left: Seq<u8>, right: Seq<u8>) -> Order
    decreases left.len(),
{
    if left.len() == 0 {
        if right.len() == 0 {
            Order::Same
        } else {
            Order::Before
        }
    } else if right.len() == 0 {
        Order::After
    } else if left[0] < right[0] {
        Order::Before
    } else if left[0] > right[0] {
        Order::After
    } else {
        bytes_order(left.drop_first(), right.drop_first())
    }
}

/// By rank, then by name.
pub open spec fn component_order(left: ComponentView, right: ComponentView) -> Order {
    if left.rank < right.rank {
        Order::Before
    } else if left.rank > right.rank {
        Order::After
    } else {
        bytes_order(left.name, right.name)
    }
}

/// Component by component, a prefix before what it begins.
pub open spec fn components_order(left: Seq<ComponentView>, right: Seq<ComponentView>) -> Order
    decreases left.len(),
{
    if left.len() == 0 {
        if right.len() == 0 {
            Order::Same
        } else {
            Order::Before
        }
    } else if right.len() == 0 {
        Order::After
    } else if component_order(left[0], right[0]) != Order::Same {
        component_order(left[0], right[0])
    } else {
        components_order(left.drop_first(), right.drop_first())
    }
}

/// The order of paths: that of their components.
pub open spec fn path_order(left: Seq<u8>, right: Seq<u8>) -> Order {
    components_order(path_components(left), path_components(right))
}

proof fn lemma_bytes_order_reversed(left: Seq<u8>, right: Seq<u8>)
    ensures
        bytes_order(right, left) == bytes_order(left, right).reversed(),
    decreases left.len(),
{
    if left.len() > 0 && right.len() > 0 {
        lemma_bytes_order_reversed(left.drop_first(), right.drop_first());
    }
}

proof fn lemma_components_order_reversed(left: Seq<ComponentView>, right: Seq<ComponentView>)
    ensures
        components_order(right, left) == components_order(left, right).reversed(),
    decreases left.len(),
{
    if left.len() > 0 && right.len() > 0 {
        lemma_bytes_order_reversed(left[0].name, right[0].name);
        lemma_components_order_reversed(left.drop_first(), right.drop_first());
    }
}

/// One path comes before another exactly where the other comes after it.
pub proof fn path_order_is_antisymmetric(left: Seq<u8>, right: Seq<u8>)
    ensures
        path_order(right, left) == path_order(left, right).reversed(),
{
    lemma_components_order_reversed(path_components(left), path_components(right));
}

fn order_bytes(left: &[u8], right: &[u8]) -> (order: Order)
    ensures
        order == bytes_order(left@, right@),
{
    let mut index: usize = 0;
    assert(left@.skip(0) =~= left@);
    assert(right@.skip(0) =~= right@);
    while index < left.len() && index < right.len()
        invariant
            index <= left.len(),
            index <= right.len(),
            bytes_order(left@, right@) == bytes_order(
                left@.skip(index as int),
                right@.skip(index as int),
            ),
        decreases left.len() - index,
    {
        assert(left@.skip(index as int).drop_first() =~= left@.skip(index + 1));
        assert(right@.skip(index as int).drop_first() =~= right@.skip(index + 1));
        if left[index] < right[index] {
            return Order::Before;
        }
        if left[index] > right[index] {
            return Order::After;
        }
        index = index + 1;
    }
    if left.len() == right.len() {
        Order::Same
    } else if index == left.len() {
        Order::Before
    } else {
        Order::After
    }
}

fn order_components(left: &Vec<Component>, right: &Vec<Component>) -> (order: Order)
    ensures
        order == components_order(component_views(left@), component_views(right@)),
{
    let ghost all_left = component_views(left@);
    let ghost all_right = component_views(right@);
    let mut index: usize = 0;
    assert(all_left.skip(0) =~= all_left);
    assert(all_right.skip(0) =~= all_right);
    while index < left.len() && index < right.len()
        invariant
            index <= left.len(),
            index <= right.len(),
            all_left == component_views(left@),
            all_right == component_views(right@),
            components_order(all_left, all_right) == components_order(
                all_left.skip(index as int),
                all_right.skip(index as int),
            ),
        decreases left.len() - index,
    {
        assert(all_left.skip(index as int).drop_first() =~= all_left.skip(index + 1));
        assert(all_right.skip(index as int).drop_first() =~= all_right.skip(index + 1));
        assert(all_left.skip(index as int)[0] == left@[index as int]@);
        assert(all_right.skip(index as int)[0] == right@[index as int]@);
        if left[index].rank < right[index].rank {
            return Order::Before;
        }
        if left[index].rank > right[index].rank {
            return Order::After;
        }
        let order = order_bytes(left[index].name.as_slice(), right[index].name.as_slice());
        if order != Order::Same {
            return order;
        }
        index = index + 1;
    }
    if left.len() == right.len() {
        Order::Same
    } else if index == left.len() {
        Order::Before
    } else {
        Order::After
    }
}

/// Compares two paths.
pub fn order_paths(left: &[u8], right: &[u8]) -> (order: Order)
    ensures
        order == path_order(left@, right@),
{
    order_components(&components(left), &components(right))
}

/// `sorted` with `path` put behind everything at its end that does not come after it.
pub open spec fn with_path(sorted: Seq<Seq<u8>>, path: Seq<u8>) -> Seq<Seq<u8>>
    decreases sorted.len(),
{
    if sorted.len() == 0 || path_order(sorted.last(), path) != Order::After {
        sorted.push(path)
    } else {
        with_path(sorted.drop_last(), path).push(sorted.last())
    }
}

/// Paths in order; paths that compare the same keep theirs.
pub open spec fn sorted_paths(paths: Seq<Seq<u8>>) -> Seq<Seq<u8>>
    decreases paths.len(),
{
    if paths.len() == 0 {
        Seq::empty()
    } else {
        with_path(sorted_paths(paths.drop_last()), paths.last())
    }
}

/// Whether the path at `i` does not come after its successor.
pub open spec fn in_order_at(paths: Seq<Seq<u8>>, i: int) -> bool {
    path_order(paths[i], paths[i + 1]) != Order::After
}

/// Whether no path comes after its successor.
pub open spec fn in_order(paths: Seq<Seq<u8>>) -> bool {
    forall|i: int| 0 <= i < paths.len() - 1 ==> #[trigger] in_order_at(paths, i)
}

proof fn lemma_with_path(sorted: Seq<Seq<u8>>, path: Seq<u8>)
    requires
        in_order(sorted),
    ensures
        in_order(with_path(sorted, path)),
        with_path(sorted, path).len() == sorted.len() + 1,
        with_path(sorted, path).last() == path || sorted.len() > 0 && with_path(
            sorted,
            path,
        ).last() == sorted.last(),
    decreases sorted.len(),
{
    if sorted.len() == 0 || path_order(sorted.last(), path) != Order::After {
        let result = sorted.push(path);
        assert forall|i: int| 0 <= i < result.len() - 1 implies #[trigger] in_order_at(
            result,
            i,
        ) by {
            if i < sorted.len() - 1 {
                assert(in_order_at(sorted, i));
            }
        }
    } else {
        let rest = sorted.drop_last();
        assert forall|i: int| 0 <= i < rest.len() - 1 implies #[trigger] in_order_at(rest, i) by {
            assert(in_order_at(sorted, i));
        }
        lemma_with_path(rest, path);
        let inner = with_path(rest, path);
        let result = inner.push(sorted.last());
        path_order_is_antisymmetric(sorted.last(), path);
        assert forall|i: int| 0 <= i < result.len() - 1 implies #[trigger] in_order_at(
            result,
            i,
        ) by {
            if i < inner.len() - 1 {
                assert(in_order_at(inner, i));
            } else if inner.last() != path {
                assert(in_order_at(sorted, sorted.len() - 2));
            }
        }
    }
}

proof fn lemma_with_path_contents(sorted: Seq<Seq<u8>>, path: Seq<u8>)
    ensures
        with_path(sorted, path).to_multiset() == sorted.to_multiset().insert(path),
    decreases sorted.len(),
{
    if sorted.len() == 0 || path_order(sorted.last(), path) != Order::After {
        vstd::seq_lib::to_multiset_build(sorted, path);
    } else {
        let rest = sorted.drop_last();
        let last = sorted.last();
        lemma_with_path_contents(rest, path);
        vstd::seq_lib::to_multiset_build(with_path(rest, path), last);
        vstd::seq_lib::to_multiset_build(rest, last);
        assert(sorted =~= rest.push(last));
        assert(rest.to_multiset().insert(path).insert(last) =~= rest.to_multiset().insert(
            last,
        ).insert(path));
    }
}

/// Sorting gives the same paths, in order.
pub proof fn sorting_orders_and_keeps(paths: Seq<Seq<u8>>)
    ensures
        in_order(sorted_paths(paths)),
        sorted_paths(paths).len() == paths.len(),
        sorted_paths(paths).to_multiset() == paths.to_multiset(),
    decreases paths.len(),
{
    if paths.len() > 0 {
        sorting_orders_and_keeps(paths.drop_last());
        lemma_with_path(sorted_paths(paths.drop_last()), paths.last());
        lemma_with_path_contents(sorted_paths(paths.drop_last()), paths.last());
        vstd::seq_lib::to_multiset_build(paths.drop_last(), paths.last());
        assert(paths =~= paths.drop_last().push(paths.last()));
    } else {
        assert(paths =~= Seq::<Seq<u8>>::empty());
    }
}

/// Puts a path where it belongs among sorted ones.
pub fn insert_path(sorted: &mut Vec<Vec<u8>>, path: Vec<u8>)
    ensures
        byte_views(final(sorted)@) == with_path(byte_views(old(sorted)@), path@),
{
    let ghost all = byte_views(sorted@);
    let mut index: usize = sorted.len();
    assert(all.take(index as int) =~= all);
    assert(all.skip(index as int) =~= Seq::<Seq<u8>>::empty());
    assert(with_path(all, path@) =~= with_path(all.take(index as int), path@) + all.skip(
        index as int,
    ));
    while index > 0 && order_paths(
        sorted[index - 1].as_slice(),
        path.as_slice(),
    ) == Order::After
        invariant
            index <= sorted.len(),
            all == byte_views(sorted@),
            with_path(all, path@) == with_path(all.take(index as int), path@) + all.skip(
                index as int,
            ),
        decreases index,
    {
        proof {
            let here = all.take(index as int);
            assert(here.last() == sorted@[index - 1]@);
            assert(here.drop_last() =~= all.take(index - 1));
            assert(with_path(here, path@) == with_path(all.take(index - 1), path@).push(
                here.last(),
            ));
            assert(with_path(all.take(index - 1), path@).push(here.last()) + all.skip(index as int)
                =~= with_path(all.take(index - 1), path@) + all.skip(index - 1));
        }
        index = index - 1;
    }
    proof {
        let here = all.take(index as int);
        if index > 0 {
            assert(here.last() == sorted@[index - 1]@);
        }
        assert(with_path(here, path@) == here.push(path@));
    }
    let ghost value = path@;
    sorted.insert(index, path);
    assert(byte_views(sorted@) =~= all.take(index as int).push(value) + all.skip(index as int));
}

proof fn lemma_bytes_order_at(left: Seq<u8>, right: Seq<u8>, at: int)
    requires
        0 <= at <= left.len(),
        at <= right.len(),
        forall|k: int| 0 <= k < at ==> left[k] == right[k],
    ensures
        at == left.len() && at < right.len() ==> bytes_order(left, right) == Order::Before,
        at < left.len() && at == right.len() ==> bytes_order(left, right) == Order::After,
        at == left.len() && at == right.len() ==> bytes_order(left, right) == Order::Same,
        at < left.len() && at < right.len() && left[at] < right[at] ==> bytes_order(left, right)
            == Order::Before,
        at < left.len() && at < right.len() && left[at] > right[at] ==> bytes_order(left, right)
            == Order::After,
    decreases at,
{
    if at > 0 {
        let rest_left = left.drop_first();
        let rest_right = right.drop_first();
        assert forall|k: int| 0 <= k < at - 1 implies rest_left[k] == rest_right[k] by {
            assert(left[k + 1] == right[k + 1]);
        }
        assert(left[0] == right[0]);
        lemma_bytes_order_at(rest_left, rest_right, at - 1);
    }
}

/// Names go by their bytes: where they first differ the smaller one comes first, and a name comes
/// before those that it begins. Components of different kinds go root, current directory, parent
/// directory, names.
pub proof fn components_go_by_kind_and_bytes(left: ComponentView, right: ComponentView, at: int)
    requires
        0 <= at <= left.name.len(),
        at <= right.name.len(),
        forall|k: int| 0 <= k < at ==> left.name[k] == right.name[k],
    ensures
        left.rank < right.rank ==> component_order(left, right) == Order::Before,
        left.rank > right.rank ==> component_order(left, right) == Order::After,
        left.rank == right.rank && at == left.name.len() && at < right.name.len()
            ==> component_order(left, right) == Order::Before,
        left.rank == right.rank && at < left.name.len() && at == right.name.len()
            ==> component_order(left, right) == Order::After,
        left.rank == right.rank && at == left.name.len() && at == right.name.len()
            ==> component_order(left, right) == Order::Same,
        left.rank == right.rank && at < left.name.len() && at < right.name.len() && left.name[at]
            < right.name[at] ==> component_order(left, right) == Order::Before,
        left.rank == right.rank && at < left.name.len() && at < right.name.len() && left.name[at]
            > right.name[at] ==> component_order(left, right) == Order::After,
        ROOT < CURRENT && CURRENT < PARENT && PARENT < NAME,
{
    lemma_bytes_order_at(left.name, right.name, at);
}

proof fn lemma_components_order_at(left: Seq<ComponentView>, right: Seq<ComponentView>, at: int)
    requires
        0 <= at <= left.len(),
        at <= right.len(),
        forall|k: int| 0 <= k < at ==> left[k] == right[k],
    ensures
        at == left.len() && at < right.len() ==> components_order(left, right) == Order::Before,
        at < left.len() && at == right.len() ==> components_order(left, right) == Order::After,
        at == left.len() && at == right.len() ==> components_order(left, right) == Order::Same,
        at < left.len() && at < right.len() && component_order(left[at], right[at]) != Order::Same
            ==> components_order(left, right) == component_order(left[at], right[at]),
    decreases at,
{
    if at > 0 {
        let rest_left = left.drop_first();
        let rest_right = right.drop_first();
        assert forall|k: int| 0 <= k < at - 1 implies rest_left[k] == rest_right[k] by {
            assert(left[k + 1] == right[k + 1]);
        }
        assert(left[0] == right[0]);
        lemma_bytes_order_at(left[0].name, left[0].name, left[0].name.len() as int);
        lemma_components_order_at(rest_left, rest_right, at - 1);
    }
}

/// Paths go component by component: the first one in which they differ decides, and a path comes
/// before those that it begins.
pub proof fn paths_go_by_their_components(left: Seq<u8>, right: Seq<u8>, at: int)
    requires
        0 <= at <= path_components(left).len(),
        at <= path_components(right).len(),
        forall|k: int| 0 <= k < at ==> path_components(left)[k] == path_components(right)[k],
    ensures
        ({
            let a = path_components(left);
            let b = path_components(right);
            &&& at == a.len() && at < b.len() ==> path_order(left, right) == Order::Before
            &&& at < a.len() && at == b.len() ==> path_order(left, right) == Order::After
            &&& at == a.len() && at == b.len() ==> path_order(left, right) == Order::Same
            &&& at < a.len() && at < b.len() && component_order(a[at], b[at]) != Order::Same
                ==> path_order(left, right) == component_order(a[at], b[at])
        }),
{
    lemma_components_order_at(path_components(left), path_components(right), at);
}

/// Pieces put together again with separators between them.
pub open spec fn rejoined(pieces: Seq<Seq<u8>>) -> Seq<u8>
    decreases pieces.len(),
{
    if pieces.len() == 0 {
        Seq::empty()
    } else if pieces.len() == 1 {
        pieces[0]
    } else {
        rejoined(pieces.drop_last()).push(0x2f) + pieces.last()
    }
}

/// A path falls into the pieces between its separators: none of them holds a separator, and put
/// together again with separators between them they are the path.
pub proof fn pieces_make_up_the_path(path: Seq<u8>)
    ensures
        pieces(path).len() >= 1,
        forall|i: int|
            0 <= i < pieces(path).len() ==> !(#[trigger] pieces(path)[i]).contains(0x2f),
        rejoined(pieces(path)) == path,
    decreases path.len(),
{
    if path.len() == 0 {
        assert(pieces(path) =~= seq![Seq::<u8>::empty()]);
        assert(rejoined(pieces(path)) =~= path);
    } else {
        let shorter = path.drop_last();
        let before = pieces(shorter);
        let after = pieces(path);
        pieces_make_up_the_path(shorter);
        if path.last() == 0x2f {
            assert(after.drop_last() =~= before);
            assert(rejoined(after) =~= shorter.push(0x2f));
            assert forall|i: int| 0 <= i < after.len() implies !(#[trigger] after[i]).contains(
                0x2f,
            ) by {
                if i < before.len() {
                    assert(after[i] == before[i]);
                }
            }
        } else {
            let last = before.last();
            assert(after.drop_last() =~= before.drop_last());
            assert(after.last() == last.push(path.last()));
            assert(!before[before.len() - 1].contains(0x2f));
            assert(!last.push(path.last()).contains(0x2f)) by {
                let longer = last.push(path.last());
                if longer.contains(0x2f) {
                    let k = longer.index_of(0x2f);
                    assert(longer[k] == 0x2f);
                    assert(k < last.len());
                    assert(last[k] == 0x2f);
                }
            }
            assert forall|i: int| 0 <= i < after.len() implies !(#[trigger] after[i]).contains(
                0x2f,
            ) by {
                if i < before.len() - 1 {
                    assert(after[i] == before[i]);
                }
            }
            if before.len() == 1 {
                assert(rejoined(after) =~= shorter.push(path.last()));
            } else {
                assert(rejoined(before) == rejoined(before.drop_last()).push(0x2f) + last);
                assert(rejoined(after) =~= shorter.push(path.last()));
            }
        }
        assert(path =~= shorter.push(path.last()));
    }
}

/// A piece is a name unless it is empty or made of one or two dots: two dots are the parent
/// directory, one is the current one at the start of the path and nothing elsewhere.
pub proof fn pieces_are_names_but_for_dots(piece: Seq<u8>, at_start: bool)
    ensures
        piece.len() == 0 ==> piece_components(piece, at_start).len() == 0,
        piece.len() == 1 && piece[0] == 0x2e && !at_start ==> piece_components(
            piece,
            at_start,
        ).len() == 0,
        piece.len() == 1 && piece[0] == 0x2e && at_start ==> piece_components(piece, at_start).len()
            == 1 && piece_components(piece, at_start)[0].rank == 1,
        piece.len() == 2 && piece[0] == 0x2e && piece[1] == 0x2e ==> piece_components(
            piece,
            at_start,
        ).len() == 1 && piece_components(piece, at_start)[0].rank == 2,
        piece.len() > 2 || (piece.len() == 1 && piece[0] != 0x2e) || (piece.len() == 2 && (piece[0]
            != 0x2e || piece[1] != 0x2e)) ==> piece_components(piece, at_start).len() == 1
            && piece_components(piece, at_start)[0].rank == 3 && piece_components(
            piece,
            at_start,
        )[0].name == piece,
{
    if piece.len() == 1 && piece[0] == 0x2e {
        assert(piece =~= seq![DOT]);
    }
    if piece.len() == 2 && piece[0] == 0x2e && piece[1] == 0x2e {
        assert(piece =~= seq![DOT, DOT]);
    }
    if piece == seq![DOT] {
        assert(piece.len() == 1 && piece[0] == 0x2e);
    }
    if piece == seq![DOT, DOT] {
        assert(piece.len() == 2 && piece[0] == 0x2e && piece[1] == 0x2e);
    }
}

/// A path that goes on with a separator and a name is called by that name, whatever comes before.
pub proof fn files_are_called_by_their_last_name(folder: Seq<u8>, name: Seq<u8>)
    requires
        name.len() > 0,
        !name.contains(0x2f),
        !(name.len() == 1 && name[0] == 0x2e),
        !(name.len() == 2 && name[0] == 0x2e && name[1] == 0x2e),
    ensures
        file_name_of(folder.push(0x2f) + name) == Some(name),
{
    let path = folder.push(0x2f) + name;
    lemma_pieces_go_on(folder, name);
    let all = pieces(path);
    pieces_are_names_but_for_dots(name, false);
    pieces_make_up_the_path(folder);
    assert(all.last() == name);
    assert(all.len() >= 2);
    let joined = joined_components(all);
    let piece = piece_components(name, false);
    assert(joined == joined_components(all.drop_last()) + piece);
    assert(joined.last() == piece[0]);
    assert(path_components(path).last() == joined.last());
}

proof fn lemma_pieces_go_on(folder: Seq<u8>, name: Seq<u8>)
    requires
        !name.contains(0x2f),
    ensures
        pieces(folder.push(0x2f) + name) == pieces(folder).push(name),
    decreases name.len(),
{
    let path = folder.push(0x2f) + name;
    if name.len() == 0 {
        assert(path =~= folder.push(0x2f));
        assert(path.drop_last() =~= folder);
        assert(name =~= Seq::<u8>::empty());
    } else {
        let shorter = name.drop_last();
        assert(!shorter.contains(0x2f)) by {
            if shorter.contains(0x2f) {
                let k = shorter.index_of(0x2f);
                assert(name[k] == 0x2f);
            }
        }
        lemma_pieces_go_on(folder, shorter);
        assert(path.drop_last() =~= folder.push(0x2f) + shorter);
        assert(path.last() == name.last());
        assert(name.last() != 0x2f) by {
            assert(name[name.len() - 1] == name.last());
        }
        let before = pieces(folder).push(shorter);
        assert(before.drop_last() =~= pieces(folder));
        assert(shorter.push(name.last()) =~= name);
    }
}

/// The parts of lists of paths and components are their own, one for one.
pub proof fn paths_are_kept(items: Seq<Vec<u8>>, components: Seq<Component>, i: int)
    ensures
        byte_views(items).len() == items.len(),
        0 <= i < items.len() ==> byte_views(items)[i] == items[i]@,
        component_views(components).len() == components.len(),
        0 <= i < components.len() ==> component_views(components)[i].rank == components[i].rank
            && component_views(components)[i].name == components[i].name@,
{
}

/// A path that begins with a separator begins at the root; the components behind are those of its
/// pieces, in order.
pub proof fn rooted_paths_begin_at_the_root(path: Seq<u8>, piece: Seq<u8>, before: Seq<Seq<u8>>)
    ensures
        path.len() > 0 && path[0] == 0x2f ==> path_components(path).len() > 0
            && path_components(path)[0].rank == 0,
        path.len() == 0 ==> path_components(path).len() == 0,
        joined_components(before.push(piece)) == joined_components(before) + piece_components(
            piece,
            before.len() == 0,
        ),
{
    assert(before.push(piece).drop_last() =~= before);
    if path.len() == 0 {
        assert(pieces(path) =~= seq![Seq::<u8>::empty()]);
        assert(pieces(path).drop_last() =~= Seq::<Seq<u8>>::empty());
        reveal_with_fuel(joined_components, 2);
    }
}

/// A path goes behind those at the end that do not come after it, and leaves the others where they
/// are.
pub proof fn paths_go_behind_their_equals(sorted: Seq<Seq<u8>>, path: Seq<u8>, last: Seq<u8>)
    ensures
        path_order(last, path) != Order::After ==> with_path(sorted.push(last), path)
            == sorted.push(last).push(path),
        path_order(last, path) == Order::After ==> with_path(sorted.push(last), path) == with_path(
            sorted,
            path,
        ).push(last),
        with_path(Seq::empty(), path) == seq![path],
{
    assert(sorted.push(last).drop_last() =~= sorted);
    assert(Seq::<Seq<u8>>::empty().push(path) =~= seq![path]);
}

} // verus!
