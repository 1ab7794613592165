//! Repeated stretches in a run of frames: two frames with the same text
//! that are not neighbours mark a stretch that can be played in a loop.

use vstd::prelude::*;

verus! {

/// Whether the frames at places `start` and `end` mark a loop: they hold
/// the same text, and the number of the second is more than one above
/// the number of the first.
pub open spec fn is_loop(
    numbers: Seq<usize>,
    contents: Seq<Vec<u8>>,
    start: int,
    end: int,
) -> bool {
    &&& 0 <= start < end < contents.len()
    &&& contents[start]@ == contents[end]@
    &&& numbers[end] > numbers[start] + 1
}

/// Whether a list of loops holds the loop from `start` to `end`.
pub open spec fn holds(loops: Seq<(usize, usize)>, start: int, end: int) -> bool {
    exists|k: int| 0 <= k < loops.len() && #[trigger] loops[k] == (start as usize, end as usize)
}

/// Whether one loop comes before another: it starts earlier, or starts at
/// the same place and ends earlier.
pub open spec fn loop_before(a: (usize, usize), b: (usize, usize)) -> bool {
    a.0 < b.0 || (a.0 == b.0 && a.1 < b.1)
}

/// A list that holds a loop still holds it when another is added.
proof fn lemma_holds_after_push(
    loops: Seq<(usize, usize)>,
    added: (usize, usize),
    start: int,
    end: int,
)
    requires
        holds(loops, start, end) || added == (start as usize, end as usize),
    ensures
        holds(loops.push(added), start, end),
{
    if holds(loops, start, end) {
        let k = choose|k: int|
            0 <= k < loops.len() && #[trigger] loops[k] == (start as usize, end as usize);
        assert(loops.push(added)[k] == (start as usize, end as usize));
    } else {
        assert(loops.push(added)[loops.len() as int] == added);
    }
}

fn same_bytes(a: &Vec<u8>, b: &Vec<u8>) -> (same: bool)
    ensures
        same == (a@ == b@),
{
    if a.len() != b.len() {
        return false;
    }
    let mut k: usize = 0;
    while k < a.len()
        invariant
            k <= a@.len(),
            a@.len() == b@.len(),
            forall|j: int| 0 <= j < k ==> a@[j] == b@[j],
        decreases a@.len() - k,
    {
        if a[k] != b[k] {
            return false;
        }
        k += 1;
    }
    assert(a@ =~= b@);
    true
}

/// Finds the loops in a run of frames, given the number and the text of
/// each frame in order.
///
/// The result holds every loop once, ordered by start and then by end.
pub fn find_loops(numbers: &Vec<usize>, contents: &Vec<Vec<u8>>) -> (loops: Vec<(usize, usize)>)
    requires
        numbers@.len() == contents@.len(),
    ensures
        forall|k: int|
            0 <= k < loops@.len() ==> is_loop(
                numbers@,
                contents@,
                (#[trigger] loops@[k]).0 as int,
                loops@[k].1 as int,
            ),
        forall|start: int, end: int|
            is_loop(numbers@, contents@, start, end) ==> holds(loops@, start, end),
        forall|i: int, j: int| 0 <= i < j < loops@.len() ==> loop_before(loops@[i], loops@[j]),
{
    let count = contents.len();
    let mut loops: Vec<(usize, usize)> = Vec::new();
    let mut start: usize = 0;
    while start < count
        invariant
            start <= count,
            count == contents@.len(),
            numbers@.len() == count,
            forall|k: int|
                0 <= k < loops@.len() ==> is_loop(
                    numbers@,
                    contents@,
                    (#[trigger] loops@[k]).0 as int,
                    loops@[k].1 as int,
                ) && loops@[k].0 < start,
            forall|s: int, e: int|
                is_loop(numbers@, contents@, s, e) && s < start ==> holds(loops@, s, e),
            forall|i: int, j: int| 0 <= i < j < loops@.len() ==> loop_before(loops@[i], loops@[j]),
        decreases count - start,
    {
        let mut end: usize = start + 1;
        while end < count
            invariant
                start < end <= count,
                count == contents@.len(),
                numbers@.len() == count,
                forall|k: int|
                    0 <= k < loops@.len() ==> is_loop(
                        numbers@,
                        contents@,
                        (#[trigger] loops@[k]).0 as int,
                        loops@[k].1 as int,
                    ) && (loops@[k].0 < start || (loops@[k].0 == start && loops@[k].1 < end)),
                forall|s: int, e: int|
                    is_loop(numbers@, contents@, s, e) && (s < start || (s == start && e < end))
                        ==> holds(loops@, s, e),
                forall|i: int, j: int|
                    0 <= i < j < loops@.len() ==> loop_before(loops@[i], loops@[j]),
            decreases count - end,
        {
            let apart = numbers[start] < usize::MAX && numbers[end] > numbers[start] + 1;
            if apart && same_bytes(&contents[start], &contents[end]) {
                let ghost before = loops@;
                loops.push((start, end));
                proof {
                    assert forall|s: int, e: int|
                        is_loop(numbers@, contents@, s, e) && (s < start || (s == start && e < end
                            + 1)) implies holds(loops@, s, e) by {
                        lemma_holds_after_push(before, (start, end), s, e);
                    }
                }
            }
            end += 1;
        }
        start += 1;
    }
    loops
}

/// The order of the frames after a loop has been repeated: the frames up
/// to the end of the loop, the loop once more, and the frames after it.
pub open spec fn repeated_order(count: int, start: int, end: int) -> Seq<usize> {
    let span = end - start + 1;
    Seq::new(
        (count + span) as nat,
        |i: int|
            if i <= end {
                i as usize
            } else if i <= end + span {
                (start + (i - end - 1)) as usize
            } else {
                (i - span) as usize
            },
    )
}

/// Lists the places of the frames in the order that repeats a loop.
pub fn repeat_loop(count: usize, start: usize, end: usize) -> (order: Vec<usize>)
    requires
        start <= end < count,
    ensures
        order@ == repeated_order(count as int, start as int, end as int),
{
    let ghost wanted = repeated_order(count as int, start as int, end as int);
    let mut order: Vec<usize> = Vec::new();
    let mut i: usize = 0;
    while i <= end
        invariant
            i <= end + 1,
            start <= end < count,
            wanted == repeated_order(count as int, start as int, end as int),
            order@ == wanted.take(i as int),
        decreases end + 1 - i,
    {
        order.push(i);
        assert(order@ =~= wanted.take(i + 1));
        i += 1;
    }
    let mut j: usize = start;
    while j <= end
        invariant
            start <= j <= end + 1,
            start <= end < count,
            wanted == repeated_order(count as int, start as int, end as int),
            order@ == wanted.take(end + 1 + (j - start)),
        decreases end + 1 - j,
    {
        order.push(j);
        assert(order@ =~= wanted.take(end + 1 + (j + 1 - start)));
        j += 1;
    }
    let mut k: usize = end + 1;
    while k < count
        invariant
            end + 1 <= k <= count,
            start <= end < count,
            wanted == repeated_order(count as int, start as int, end as int),
            order@ == wanted.take(k + (end - start + 1)),
        decreases count - k,
    {
        order.push(k);
        assert(order@ =~= wanted.take(k + 1 + (end - start + 1)));
        k += 1;
    }
    assert(order@ =~= wanted);
    order
}

} // verus!
