//! The memory of a worker's processes, out of what the system tells of each process.
use vstd::prelude::*;

use crate::pool::PoolError;

verus! {

/// What the system tells of a process; `resident` counts bytes.
#[derive(Clone, Copy, Debug, PartialEq, Eq, Structural)]
pub struct ProcessSample {
    pub pid: u64,
    pub parent: u64,
    pub start: u64,
    pub resident: u64,
}

/// Whether a byte is a decimal digit.
pub open spec fn is_digit_byte(byte: u8) -> bool {
    48 <= byte <= 57
}

/// The number that digits spell.
pub open spec fn digits_number(digits: Seq<u8>) -> nat
    decreases digits.len(),
{
    if digits.len() == 0 {
        0
    } else {
        digits_number(digits.drop_last()) * 10 + (digits.last() - 48) as nat
    }
}

/// The `u64` that bytes spell: digits and nothing else, with a value in range.
pub open spec fn spelled_number(bytes: Seq<u8>) -> Option<u64> {
    if bytes.len() > 0 && (forall|i: int|
        0 <= i < bytes.len() ==> is_digit_byte(#[trigger] bytes[i])) && digits_number(bytes)
        <= u64::MAX {
        Some(digits_number(bytes) as u64)
    } else {
        None
    }
}

fn read_number(bytes: &[u8], start: usize, end: usize) -> (number: Option<u64>)
    requires
        start <= end <= bytes@.len(),
    ensures
        number == spelled_number(bytes@.subrange(start as int, end as int)),
{
    let ghost digits = bytes@.subrange(start as int, end as int);
    if start == end {
        return None;
    }
    let mut value: u64 = 0;
    let mut fits: bool = true;
    let mut index: usize = start;
    assert(digits.take(0) =~= Seq::<u8>::empty());
    while index < end
        invariant
            start <= index <= end <= bytes@.len(),
            digits == bytes@.subrange(start as int, end as int),
            forall|i: int| 0 <= i < index - start ==> is_digit_byte(#[trigger] digits[i]),
            fits ==> value == digits_number(digits.take(index - start)),
            !fits ==> digits_number(digits.take(index - start)) > u64::MAX,
        decreases end - index,
    {
        let byte = bytes[index];
        assert(byte == digits[index - start]);
        if byte < 48 || byte > 57 {
            assert(!is_digit_byte(digits[index - start]));
            return None;
        }
        proof {
            assert(digits.take(index - start + 1).drop_last() =~= digits.take(index - start));
            assert(digits.take(index - start + 1).last() == byte);
        }
        let step: u64 = (byte - 48) as u64;
        if fits {
            if value > (u64::MAX - step) / 10 {
                fits = false;
            } else {
                value = value * 10 + step;
            }
        }
        index = index + 1;
    }
    assert(digits.take(end - start) =~= digits);
    if fits {
        Some(value)
    } else {
        None
    }
}

/// How many bytes stand before the first space.
pub open spec fn until_space(text: Seq<u8>) -> nat
    decreases text.len(),
{
    if text.len() == 0 || text[0] == 32 {
        0
    } else {
        1 + until_space(text.drop_first())
    }
}

/// The field of a text behind `number` spaces, or nothing where there are fewer.
pub open spec fn field_of(text: Seq<u8>, number: nat) -> Seq<u8>
    decreases number,
{
    let length = until_space(text);
    if number == 0 {
        text.take(length as int)
    } else if length >= text.len() {
        Seq::empty()
    } else {
        field_of(text.skip(length as int + 1), (number - 1) as nat)
    }
}

fn space_from(text: &[u8], start: usize) -> (end: usize)
    requires
        start <= text@.len(),
    ensures
        start <= end <= text@.len(),
        end == start + until_space(text@.skip(start as int)),
{
    let mut end: usize = start;
    while end < text.len() && text[end] != 32
        invariant
            start <= end <= text@.len(),
            start + until_space(text@.skip(start as int)) == end + until_space(
                text@.skip(end as int),
            ),
        decreases text@.len() - end,
    {
        assert(text@.skip(end as int).drop_first() =~= text@.skip(end + 1));
        end = end + 1;
    }
    end
}

fn read_field(text: &[u8], start: usize, number: usize) -> (value: Option<u64>)
    requires
        start <= text@.len(),
    ensures
        value == spelled_number(field_of(text@.skip(start as int), number as nat)),
{
    let ghost whole = field_of(text@.skip(start as int), number as nat);
    let mut from: usize = start;
    let mut left: usize = number;
    while left > 0
        invariant
            from <= text@.len(),
            whole == field_of(text@.skip(start as int), number as nat),
            whole == field_of(text@.skip(from as int), left as nat),
        decreases left,
    {
        let end = space_from(text, from);
        if end == text.len() {
            assert(whole =~= Seq::<u8>::empty());
            return None;
        }
        assert(text@.skip(from as int).skip(end - from + 1) =~= text@.skip(end + 1));
        from = end + 1;
        left = left - 1;
    }
    let end = space_from(text, from);
    assert(text@.skip(from as int).take(end - from) =~= text@.subrange(from as int, end as int));
    read_number(text, from, end)
}

/// Where the last closing parenthesis of a text stands, or -1.
pub open spec fn last_close(text: Seq<u8>) -> int
    decreases text.len(),
{
    if text.len() == 0 {
        -1
    } else if text.last() == 41 {
        text.len() - 1
    } else {
        last_close(text.drop_last())
    }
}

/// Spaces that stand before the parent's number, counted from the end of the name.
pub const PARENT_FIELD: usize = 2;

/// Spaces that stand before the start time, counted from the end of the name.
pub const START_FIELD: usize = 20;

/// Spaces that stand before the resident pages, counted from the end of the name.
pub const RESIDENT_FIELD: usize = 22;

/// `pages` pages in bytes, as far as they can be counted.
pub open spec fn page_total(pages: u64, page_bytes: u64) -> u64 {
    if pages * page_bytes > u64::MAX {
        u64::MAX
    } else {
        (pages * page_bytes) as u64
    }
}

/// The process that a line of the system's process table tells of. The name stands in
/// parentheses and may hold any byte, so the fields behind it are counted from the last
/// closing one.
pub open spec fn sample_of(line: Seq<u8>, page_bytes: u64) -> Option<ProcessSample> {
    let rest = line.skip(last_close(line) + 1);
    let pid = spelled_number(field_of(line, 0));
    let parent = spelled_number(field_of(rest, PARENT_FIELD as nat));
    let start = spelled_number(field_of(rest, START_FIELD as nat));
    let pages = spelled_number(field_of(rest, RESIDENT_FIELD as nat));
    if last_close(line) < 0 || pid is None || parent is None || start is None || pages is None {
        None
    } else {
        Some(
            ProcessSample {
                pid: pid->0,
                parent: parent->0,
                start: start->0,
                resident: page_total(pages->0, page_bytes),
            },
        )
    }
}

/// Reads a line of the system's process table.
pub fn process_sample(line: &[u8], page_bytes: u64) -> (sample: Option<ProcessSample>)
    ensures
        sample == sample_of(line@, page_bytes),
{
    let mut rest: usize = line.len();
    assert(line@.take(rest as int) =~= line@);
    while rest > 0 && line[rest - 1] != 41
        invariant
            rest <= line@.len(),
            last_close(line@) == last_close(line@.take(rest as int)),
        decreases rest,
    {
        assert(line@.take(rest as int).drop_last() =~= line@.take(rest - 1));
        rest = rest - 1;
    }
    if rest == 0 {
        return None;
    }
    assert(line@.skip(0) =~= line@);
    let pid = read_field(line, 0, 0);
    let parent = read_field(line, rest, PARENT_FIELD);
    let start = read_field(line, rest, START_FIELD);
    let pages = read_field(line, rest, RESIDENT_FIELD);
    match (pid, parent, start, pages) {
        (Some(pid), Some(parent), Some(start), Some(pages)) => {
            let resident = match pages.checked_mul(page_bytes) {
                Some(bytes) => bytes,
                None => u64::MAX,
            };
            Some(ProcessSample { pid, parent, start, resident })
        },
        _ => None,
    }
}

/// Whether places name the host, then a child of it, then a child of that one, and so on.
pub open spec fn is_line(processes: Seq<ProcessSample>, host: u64, line: Seq<int>) -> bool {
    &&& line.len() > 0
    &&& forall|k: int| 0 <= k < line.len() ==> 0 <= #[trigger] line[k] < processes.len()
    &&& processes[line[0]].pid == host
    &&& forall|k: int, next: int|
        #![trigger line[k], line[next]]
        0 <= k < line.len() - 1 && next == k + 1 ==> processes[line[next]].parent
            == processes[line[k]].pid
}

/// Whether a process is the host or comes of it.
pub open spec fn in_tree(processes: Seq<ProcessSample>, host: u64, index: int) -> bool {
    exists|line: Seq<int>| #[trigger] is_line(processes, host, line) && line.last() == index
}

/// The memory of those of the first `count` processes that are the host or come of it.
pub open spec fn tree_memory(processes: Seq<ProcessSample>, host: u64, count: nat) -> nat
    decreases count,
{
    if count == 0 {
        0
    } else {
        tree_memory(processes, host, (count - 1) as nat) + if in_tree(
            processes,
            host,
            count - 1,
        ) {
            processes[count - 1].resident as nat
        } else {
            0
        }
    }
}

/// Whether the host that was started at `start` is among the processes.
pub open spec fn host_is_there(processes: Seq<ProcessSample>, host: u64, start: u64) -> bool {
    exists|i: int|
        0 <= i < processes.len() && (#[trigger] processes[i]).pid == host && processes[i].start
            == start
}

/// How many are not marked.
spec fn unmarked(marks: Seq<bool>) -> nat
    decreases marks.len(),
{
    if marks.len() == 0 {
        0
    } else {
        unmarked(marks.drop_last()) + if marks.last() {
            0nat
        } else {
            1nat
        }
    }
}

proof fn lemma_mark(marks: Seq<bool>, index: int)
    requires
        0 <= index < marks.len(),
        !marks[index],
    ensures
        unmarked(marks.update(index, true)) + 1 == unmarked(marks),
    decreases marks.len(),
{
    let after = marks.update(index, true);
    if index == marks.len() - 1 {
        assert(after.drop_last() =~= marks.drop_last());
    } else {
        assert(after.drop_last() =~= marks.drop_last().update(index, true));
        lemma_mark(marks.drop_last(), index);
    }
}

/// Whether only the host's tree is marked.
spec fn sound(processes: Seq<ProcessSample>, host: u64, marks: Seq<bool>) -> bool {
    &&& marks.len() == processes.len()
    &&& forall|i: int| 0 <= i < marks.len() && #[trigger] marks[i] ==> in_tree(processes, host, i)
}

/// Whether the host is marked.
spec fn rooted(processes: Seq<ProcessSample>, host: u64, marks: Seq<bool>) -> bool {
    forall|i: int|
        0 <= i < processes.len() && (#[trigger] processes[i]).pid == host ==> marks[i]
}

/// Whether a child of a marked process is marked.
spec fn settled(processes: Seq<ProcessSample>, marks: Seq<bool>, index: int) -> bool {
    forall|j: int|
        0 <= j < processes.len() && #[trigger] marks[j] && processes[j].pid
            == processes[index].parent ==> marks[index]
}

proof fn lemma_complete(
    processes: Seq<ProcessSample>,
    host: u64,
    marks: Seq<bool>,
    line: Seq<int>,
)
    requires
        marks.len() == processes.len(),
        rooted(processes, host, marks),
        forall|i: int| 0 <= i < processes.len() ==> #[trigger] settled(processes, marks, i),
        is_line(processes, host, line),
    ensures
        marks[line.last()],
    decreases line.len(),
{
    if line.len() > 1 {
        let rest = line.drop_last();
        assert(rest.last() == line[line.len() - 2]);
        lemma_complete(processes, host, marks, rest);
        assert(settled(processes, marks, line.last()));
    }
}

/// A child of a process in the host's tree is in that tree too.
pub proof fn children_join_the_tree(
    processes: Seq<ProcessSample>,
    host: u64,
    parent: int,
    child: int,
)
    requires
        in_tree(processes, host, parent),
        0 <= child < processes.len(),
        processes[child].parent == processes[parent].pid,
    ensures
        in_tree(processes, host, child),
{
    let line = choose|line: Seq<int>| #[trigger]
        is_line(processes, host, line) && line.last() == parent;
    let longer = line.push(child);
    assert(is_line(processes, host, longer));
    assert(longer.last() == child);
}

/// What any process of the host's tree uses is part of what the tree uses.
pub proof fn tree_memory_counts_descendants(
    processes: Seq<ProcessSample>,
    host: u64,
    index: int,
    count: nat,
)
    requires
        in_tree(processes, host, index),
        0 <= index < count <= processes.len(),
    ensures
        processes[index].resident <= tree_memory(processes, host, count),
    decreases count,
{
    if index < count - 1 {
        tree_memory_counts_descendants(processes, host, index, (count - 1) as nat);
    }
}

fn marked_with(processes: &[ProcessSample], marks: &Vec<bool>, pid: u64) -> (place: Option<usize>)
    requires
        marks@.len() == processes@.len(),
    ensures
        match place {
            Some(j) => j < processes@.len() && marks@[j as int] && processes@[j as int].pid == pid,
            None => forall|j: int|
                0 <= j < processes@.len() && #[trigger] marks@[j] ==> processes@[j].pid != pid,
        },
{
    let mut index: usize = 0;
    while index < processes.len()
        invariant
            index <= processes@.len(),
            marks@.len() == processes@.len(),
            forall|j: int| 0 <= j < index && #[trigger] marks@[j] ==> processes@[j].pid != pid,
        decreases processes@.len() - index,
    {
        if marks[index] && processes[index].pid == pid {
            return Some(index);
        }
        index = index + 1;
    }
    None
}

/// Marks children of marked processes and says whether there were any.
fn mark_children(processes: &[ProcessSample], host: u64, marks: &mut Vec<bool>) -> (marked: bool)
    requires
        sound(processes@, host, old(marks)@),
        rooted(processes@, host, old(marks)@),
    ensures
        sound(processes@, host, final(marks)@),
        rooted(processes@, host, final(marks)@),
        marked ==> unmarked(final(marks)@) < unmarked(old(marks)@),
        !marked ==> final(marks)@ == old(marks)@ && forall|i: int|
            0 <= i < processes@.len() ==> #[trigger] settled(processes@, final(marks)@, i),
{
    let ghost before = marks@;
    let mut marked: bool = false;
    let mut index: usize = 0;
    while index < processes.len()
        invariant
            index <= processes@.len(),
            sound(processes@, host, marks@),
            rooted(processes@, host, marks@),
            marked ==> unmarked(marks@) < unmarked(before),
            !marked ==> marks@ == before && forall|i: int|
                0 <= i < index ==> #[trigger] settled(processes@, marks@, i),
        decreases processes@.len() - index,
    {
        if !marks[index] {
            if let Some(parent) = marked_with(processes, marks, processes[index].parent) {
                proof {
                    children_join_the_tree(processes@, host, parent as int, index as int);
                    lemma_mark(marks@, index as int);
                }
                marks.set(index, true);
                marked = true;
            }
        }
        index = index + 1;
    }
    marked
}

/// The memory of the processes in the host's tree, as far as it can be counted. A host that
/// is not there, or is another process than the one started at `start`, cannot be measured.
pub fn process_tree_rss(processes: &[ProcessSample], host: u64, start: u64) -> (rss: Result<
    u64,
    PoolError,
>)
    ensures
        rss is Ok <==> host_is_there(processes@, host, start),
        rss matches Ok(bytes) ==> bytes == if tree_memory(processes@, host, processes@.len())
            > u64::MAX {
            u64::MAX as nat
        } else {
            tree_memory(processes@, host, processes@.len())
        },
        rss matches Err(error) ==> error == PoolError::Unmeasured,
{
    let mut marks: Vec<bool> = Vec::new();
    let mut found: bool = false;
    let mut index: usize = 0;
    while index < processes.len()
        invariant
            index <= processes@.len(),
            marks@.len() == index,
            forall|i: int|
                0 <= i < index ==> #[trigger] marks@[i] == (processes@[i].pid == host),
            found ==> host_is_there(processes@, host, start),
            !found ==> forall|i: int|
                0 <= i < index ==> !((#[trigger] processes@[i]).pid == host
                    && processes@[i].start == start),
        decreases processes@.len() - index,
    {
        let process = processes[index];
        if process.pid == host && process.start == start {
            found = true;
        }
        marks.push(process.pid == host);
        index = index + 1;
    }
    if !found {
        return Err(PoolError::Unmeasured);
    }
    assert forall|i: int| 0 <= i < marks@.len() && #[trigger] marks@[i] implies in_tree(
        processes@,
        host,
        i,
    ) by {
        assert(is_line(processes@, host, seq![i]));
        assert(seq![i].last() == i);
    }
    let mut growing: bool = true;
    while growing
        invariant
            sound(processes@, host, marks@),
            rooted(processes@, host, marks@),
            !growing ==> forall|i: int|
                0 <= i < processes@.len() ==> #[trigger] settled(processes@, marks@, i),
        decreases
                unmarked(marks@),
                (if growing {
                    1int
                } else {
                    0int
                }),
    {
        growing = mark_children(processes, host, &mut marks);
    }
    assert forall|i: int| 0 <= i < marks@.len() && in_tree(processes@, host, i) implies #[trigger]
    marks@[i] by {
        let line = choose|line: Seq<int>| #[trigger]
            is_line(processes@, host, line) && line.last() == i;
        lemma_complete(processes@, host, marks@, line);
    }
    let mut total: u64 = 0;
    let mut next: usize = 0;
    while next < processes.len()
        invariant
            next <= processes@.len(),
            sound(processes@, host, marks@),
            forall|i: int|
                0 <= i < marks@.len() && in_tree(processes@, host, i) ==> #[trigger] marks@[i],
            total == if tree_memory(processes@, host, next as nat) > u64::MAX {
                u64::MAX as nat
            } else {
                tree_memory(processes@, host, next as nat)
            },
        decreases processes@.len() - next,
    {
        assert(tree_memory(processes@, host, (next + 1) as nat) == tree_memory(
            processes@,
            host,
            next as nat,
        ) + if marks@[next as int] {
            processes@[next as int].resident as nat
        } else {
            0
        });
        if marks[next] {
            total = total.saturating_add(processes[next].resident);
        }
        next = next + 1;
    }
    Ok(total)
}

/// Digits are read as a decimal number, the last one with the least weight; anything else, and a
/// number that does not fit, is none.
pub proof fn digits_are_read_in_decimal(bytes: Seq<u8>, more: u8, i: int)
    ensures
        digits_number(Seq::<u8>::empty()) == 0,
        48 <= more <= 57 ==> digits_number(bytes.push(more)) == digits_number(bytes) * 10 + (more
            - 48),
        bytes.len() == 0 ==> spelled_number(bytes) is None,
        0 <= i < bytes.len() && !(48 <= bytes[i] <= 57) ==> spelled_number(bytes) is None,
        spelled_number(bytes) matches Some(number) ==> number == digits_number(bytes),
        bytes.len() > 0 && digits_number(bytes) <= u64::MAX && (forall|k: int|
            0 <= k < bytes.len() ==> 48 <= #[trigger] bytes[k] <= 57) ==> spelled_number(
            bytes,
        ) is Some,
{
    assert(bytes.push(more).drop_last() =~= bytes);
    if 0 <= i < bytes.len() && !(48 <= bytes[i] <= 57) {
        assert(!is_digit_byte(bytes[i]));
    }
}

/// A field is what stands between two spaces: it holds none itself, and each space begins the next
/// one.
pub proof fn fields_stand_between_spaces(text: Seq<u8>, rest: Seq<u8>, number: nat)
    requires
        !text.contains(32),
    ensures
        field_of(text, 0) == text,
        field_of(text.push(32) + rest, 0) == text,
        field_of(text.push(32) + rest, number + 1) == field_of(rest, number),
        field_of(text, number + 1).len() == 0,
{
    let line = text.push(32) + rest;
    lemma_until_space(text, Seq::empty());
    lemma_until_space(text, seq![32u8] + rest);
    assert(text + Seq::<u8>::empty() =~= text);
    assert(text + (seq![32u8] + rest) =~= line);
    assert(text.take(text.len() as int) =~= text);
    assert(line.take(text.len() as int) =~= text);
    assert(line.skip(text.len() as int + 1) =~= rest);
}

proof fn lemma_until_space(text: Seq<u8>, rest: Seq<u8>)
    requires
        !text.contains(32),
        rest.len() > 0 ==> rest[0] == 32,
    ensures
        until_space(text + rest) == text.len(),
    decreases text.len(),
{
    let line = text + rest;
    if text.len() > 0 {
        let shorter = text.drop_first();
        assert(!shorter.contains(32)) by {
            if shorter.contains(32) {
                let k = shorter.index_of(32);
                assert(text[k + 1] == 32);
            }
        }
        assert(text[0] != 32) by {
            assert(text.contains(text[0]));
        }
        lemma_until_space(shorter, rest);
        assert(line.drop_first() =~= shorter + rest);
        assert(line[0] == text[0]);
    } else {
        assert(line =~= rest);
    }
}

/// The name of a process ends at the last closing parenthesis, whatever it holds.
pub proof fn names_end_at_the_last_parenthesis(text: Seq<u8>, i: int)
    ensures
        -1 <= last_close(text) < text.len(),
        last_close(text) >= 0 ==> text[last_close(text)] == 41,
        last_close(text) < i < text.len() ==> text[i] != 41,
    decreases text.len(),
{
    if text.len() > 0 && text.last() != 41 {
        names_end_at_the_last_parenthesis(text.drop_last(), i);
        if i == text.len() - 1 {
            assert(text[i] == text.last());
        }
    }
}

/// What a line of the process table says: the number at its start, and behind the name the parent,
/// the time of the start, and the pages in memory, which count with their size. A line that lacks
/// one of these says nothing.
pub proof fn lines_tell_of_processes(line: Seq<u8>, page_bytes: u64)
    ensures
        ({
            let rest = line.skip(last_close(line) + 1);
            let pid = spelled_number(field_of(line, 0));
            let parent = spelled_number(field_of(rest, 2));
            let start = spelled_number(field_of(rest, 20));
            let pages = spelled_number(field_of(rest, 22));
            let told = last_close(line) >= 0 && pid is Some && parent is Some && start is Some
                && pages is Some;
            &&& sample_of(line, page_bytes) is Some <==> told
            &&& sample_of(line, page_bytes) matches Some(process) ==> {
                &&& process.pid == pid->0
                &&& process.parent == parent->0
                &&& process.start == start->0
                &&& process.resident == vstd::math::min(pages->0 * page_bytes, u64::MAX as int)
            }
        }),
{
}

/// A process is in the tree exactly if it is the host, or its parent is in the tree.
pub proof fn the_tree_is_the_host_and_its_descendants(
    processes: Seq<ProcessSample>,
    host: u64,
    index: int,
)
    requires
        0 <= index < processes.len(),
    ensures
        processes[index].pid == host ==> in_tree(processes, host, index),
        in_tree(processes, host, index) && processes[index].pid != host ==> exists|parent: int|
            #![trigger processes[parent]]
            {
                &&& 0 <= parent < processes.len()
                &&& in_tree(processes, host, parent)
                &&& processes[parent].pid == processes[index].parent
            },
{
    if processes[index].pid == host {
        let line = seq![index];
        assert(is_line(processes, host, line));
        assert(line.last() == index);
    } else if in_tree(processes, host, index) {
        let line = choose|line: Seq<int>| #[trigger]
            is_line(processes, host, line) && line.last() == index;
        let shorter = line.drop_last();
        assert(line.len() > 1) by {
            if line.len() == 1 {
                assert(line[0] == index);
            }
        }
        assert(is_line(processes, host, shorter));
        let parent = line[line.len() - 2];
        assert(shorter.last() == parent);
        assert(line[line.len() - 1] == index);
        assert(0 <= parent < processes.len());
        assert(in_tree(processes, host, parent));
        assert(processes[parent].pid == processes[index].parent);
    }
}

/// The memory of a tree is that of its processes, each counted once; what the others use does not
/// count.
pub proof fn tree_memory_adds_up(processes: Seq<ProcessSample>, host: u64, count: nat)
    requires
        count < processes.len(),
    ensures
        tree_memory(processes, host, 0) == 0,
        in_tree(processes, host, count as int) ==> tree_memory(processes, host, count + 1)
            == tree_memory(processes, host, count) + processes[count as int].resident,
        !in_tree(processes, host, count as int) ==> tree_memory(processes, host, count + 1)
            == tree_memory(processes, host, count),
{
}

/// A host is there exactly if a process has both its number and the time of its start.
pub proof fn hosts_are_known_by_number_and_start(
    processes: Seq<ProcessSample>,
    host: u64,
    start: u64,
)
    ensures
        host_is_there(processes, host, start) ==> exists|i: int|
            0 <= i < processes.len() && (#[trigger] processes[i]).pid == host && processes[i].start
                == start,
        (forall|i: int|
            0 <= i < processes.len() ==> (#[trigger] processes[i]).pid != host
                || processes[i].start != start) ==> !host_is_there(processes, host, start),
        (exists|i: int|
            0 <= i < processes.len() && (#[trigger] processes[i]).pid == host && processes[i].start
                == start) ==> host_is_there(processes, host, start),
{
}

} // verus!
