//! The counts behind a flame graph: how often each collapsed stack was seen, and
//! the lines that a flame-graph renderer reads.

use vstd::prelude::*;
use crate::stack_trace::{lines_view, spec_collapsed, traces_view, StackTrace, TraceView};
use crate::text::{push_decimal, push_text, spec_decimal, string_from_chars};

verus! {

/// Collapsed stacks with the number of times each was seen, in the order in which
/// they were first seen.
#[derive(Clone, Debug)]
pub struct FlameCounts {
    pub stacks: Vec<(String, u64)>,
}

/// The counts as a mathematical value.
pub open spec fn counts_view(stacks: Seq<(String, u64)>) -> Seq<(Seq<char>, u64)> {
    Seq::new(stacks.len(), |i: int| (stacks[i].0@, stacks[i].1))
}

/// A count with one more: it stays where it is at the most that 64 bits hold.
pub open spec fn spec_bump(count: u64) -> u64 {
    if count < u64::MAX {
        (count + 1) as u64
    } else {
        count
    }
}

/// How often a stack was seen: the count of its first entry, or zero where it has
/// none.
pub open spec fn spec_count_of(counts: Seq<(Seq<char>, u64)>, stack: Seq<char>) -> u64
    decreases counts.len(),
{
    if counts.len() == 0 {
        0
    } else if counts[0].0 == stack {
        counts[0].1
    } else {
        spec_count_of(counts.skip(1), stack)
    }
}

/// The counts after a stack was seen once more: its first entry counts one more,
/// or a new entry with the count one goes to the end.
pub open spec fn spec_add(counts: Seq<(Seq<char>, u64)>, stack: Seq<char>) -> Seq<(Seq<char>, u64)>
    decreases counts.len(),
{
    if counts.len() == 0 {
        seq![(stack, 1u64)]
    } else if counts[0].0 == stack {
        seq![(stack, spec_bump(counts[0].1))] + counts.skip(1)
    } else {
        seq![counts[0]] + spec_add(counts.skip(1), stack)
    }
}

/// The counts after a sample: the collapsed stack of every active trace was seen
/// once more, in the order of the traces.
pub open spec fn spec_increment(counts: Seq<(Seq<char>, u64)>, traces: Seq<TraceView>) -> Seq<
    (Seq<char>, u64),
>
    decreases traces.len(),
{
    if traces.len() == 0 {
        counts
    } else {
        let before = spec_increment(counts, traces.drop_last());
        if traces.last().active {
            spec_add(before, spec_collapsed(traces.last().frames))
        } else {
            before
        }
    }
}

/// The counts after the stacks of a sequence were seen one after the other.
pub open spec fn spec_tally(stacks: Seq<Seq<char>>) -> Seq<(Seq<char>, u64)>
    decreases stacks.len(),
{
    if stacks.len() == 0 {
        Seq::empty()
    } else {
        spec_add(spec_tally(stacks.drop_last()), stacks.last())
    }
}

/// How often a stack occurs in a sequence.
pub open spec fn spec_occurrences(stacks: Seq<Seq<char>>, stack: Seq<char>) -> nat
    decreases stacks.len(),
{
    if stacks.len() == 0 {
        0
    } else {
        spec_occurrences(stacks.drop_last(), stack) + if stacks.last() == stack {
            1nat
        } else {
            0nat
        }
    }
}

/// The line of the collapsed-stack format for one entry: the stack, a space, the
/// count.
pub open spec fn spec_flame_line(entry: (Seq<char>, u64)) -> Seq<char> {
    entry.0 + " "@ + spec_decimal(entry.1 as nat)
}

impl FlameCounts {
    /// No counts.
    pub fn new() -> (counts: FlameCounts)
        ensures
            counts_view(counts.stacks@) == Seq::<(Seq<char>, u64)>::empty(),
    {
        let counts = FlameCounts { stacks: Vec::new() };
        assert(counts_view(counts.stacks@) =~= Seq::<(Seq<char>, u64)>::empty());
        counts
    }

    /// Counts a stack once more.
    #[verifier::loop_isolation(false)]
    pub fn add(&mut self, stack: String)
        ensures
            counts_view(final(self).stacks@) == spec_add(counts_view(old(self).stacks@), stack@),
    {
        let ghost start = counts_view(self.stacks@);
        let mut i: usize = 0;
        proof {
            assert(start.skip(0) =~= start);
            assert(start.take(0) + spec_add(start, stack@) =~= spec_add(start, stack@));
        }
        while i < self.stacks.len()
            invariant
                i <= self.stacks@.len(),
                counts_view(self.stacks@) == start,
                spec_add(start, stack@) == start.take(i as int) + spec_add(
                    start.skip(i as int),
                    stack@,
                ),
            decreases self.stacks@.len() - i,
        {
            proof {
                assert(start.skip(i as int)[0] == start[i as int]);
                assert(start.skip(i as int).skip(1) =~= start.skip(i + 1));
            }
            if self.stacks[i].0 == stack {
                let count = self.stacks[i].1;
                let more = if count < u64::MAX {
                    count + 1
                } else {
                    count
                };
                self.stacks.set(i, (stack, more));
                proof {
                    assert(start[i as int].0 == stack@);
                    assert(start[i as int].1 == count);
                    assert(spec_add(start.skip(i as int), stack@) =~= seq![
                        (stack@, spec_bump(count)),
                    ] + start.skip(i + 1));
                    assert(counts_view(self.stacks@) =~= start.take(i as int) + (seq![
                        (stack@, spec_bump(count)),
                    ] + start.skip(i + 1)));
                }
                return ;
            }
            proof {
                assert(start.take(i + 1) =~= start.take(i as int) + seq![start[i as int]]);
                assert(start.take(i as int) + (seq![start[i as int]] + spec_add(
                    start.skip(i + 1),
                    stack@,
                )) =~= start.take(i + 1) + spec_add(start.skip(i + 1), stack@));
            }
            i += 1;
        }
        self.stacks.push((stack, 1));
        proof {
            assert(start.take(i as int) =~= start);
            assert(start.skip(i as int) =~= Seq::<(Seq<char>, u64)>::empty());
            assert(counts_view(self.stacks@) =~= start + seq![(stack@, 1u64)]);
        }
    }

    /// Takes in a sample: the collapsed stack of every active trace is counted once
    /// more.
    pub fn increment(&mut self, traces: &Vec<StackTrace>)
        ensures
            counts_view(final(self).stacks@) == spec_increment(
                counts_view(old(self).stacks@),
                traces_view(traces@),
            ),
    {
        let ghost start = counts_view(self.stacks@);
        let ghost all = traces_view(traces@);
        let mut i: usize = 0;
        while i < traces.len()
            invariant
                i <= traces@.len(),
                all == traces_view(traces@),
                counts_view(self.stacks@) == spec_increment(start, all.take(i as int)),
            decreases traces@.len() - i,
        {
            proof {
                assert(all.take(i + 1).drop_last() =~= all.take(i as int));
                assert(all.take(i + 1).last() == traces@[i as int]@);
            }
            if traces[i].active {
                self.add(traces[i].collapsed());
            }
            i += 1;
        }
        proof {
            assert(all.take(i as int) =~= all);
        }
    }

    /// How often a stack was seen.
    pub fn count_of(&self, stack: &str) -> (count: u64)
        ensures
            count == spec_count_of(counts_view(self.stacks@), stack@),
    {
        let wanted: String = stack.to_owned();
        let ghost all = counts_view(self.stacks@);
        let mut i: usize = 0;
        proof {
            assert(all.skip(0) =~= all);
        }
        while i < self.stacks.len()
            invariant
                i <= self.stacks@.len(),
                all == counts_view(self.stacks@),
                wanted@ == stack@,
                spec_count_of(all, stack@) == spec_count_of(all.skip(i as int), stack@),
            decreases self.stacks@.len() - i,
        {
            proof {
                assert(all.skip(i as int)[0] == all[i as int]);
                assert(all.skip(i as int).skip(1) =~= all.skip(i + 1));
            }
            if self.stacks[i].0 == wanted {
                return self.stacks[i].1;
            }
            i += 1;
        }
        0
    }

    /// The lines of the collapsed-stack format: one for each stack, in the order in
    /// which the stacks were first seen.
    pub fn lines(&self) -> (lines: Vec<String>)
        ensures
            lines_view(lines@) == Seq::new(
                self.stacks@.len(),
                |i: int| spec_flame_line(counts_view(self.stacks@)[i]),
            ),
    {
        let mut lines: Vec<String> = Vec::new();
        let mut i: usize = 0;
        while i < self.stacks.len()
            invariant
                i <= self.stacks@.len(),
                lines_view(lines@) == Seq::new(
                    i as nat,
                    |k: int| spec_flame_line(counts_view(self.stacks@)[k]),
                ),
            decreases self.stacks@.len() - i,
        {
            let mut line: Vec<char> = Vec::new();
            push_text(&mut line, self.stacks[i].0.as_str());
            push_text(&mut line, " ");
            push_decimal(&mut line, self.stacks[i].1);
            let ghost before = lines@;
            lines.push(string_from_chars(&line));
            proof {
                assert(lines_view(lines@) =~= lines_view(before).push(
                    spec_flame_line(counts_view(self.stacks@)[i as int]),
                ));
                assert(lines_view(lines@) =~= Seq::new(
                    (i + 1) as nat,
                    |k: int| spec_flame_line(counts_view(self.stacks@)[k]),
                ));
            }
            i += 1;
        }
        lines
    }
}

/// Seeing a stack once more counts one more for that stack, up to the most that
/// 64 bits hold, and leaves the count of every other stack as it was.
pub proof fn lemma_add_counts(counts: Seq<(Seq<char>, u64)>, seen: Seq<char>, stack: Seq<char>)
    ensures
        spec_count_of(spec_add(counts, seen), stack) == if stack == seen {
            spec_bump(spec_count_of(counts, stack))
        } else {
            spec_count_of(counts, stack)
        },
    decreases counts.len(),
{
    let out = spec_add(counts, seen);
    if counts.len() == 0 {
        assert(out =~= seq![(seen, 1u64)]);
        assert(out[0] == (seen, 1u64));
        assert(out.skip(1) =~= Seq::<(Seq<char>, u64)>::empty());
        assert(spec_count_of(out.skip(1), stack) == 0);
    } else if counts[0].0 == seen {
        assert(out[0] == (seen, spec_bump(counts[0].1)));
        assert(out.skip(1) =~= counts.skip(1));
    } else {
        lemma_add_counts(counts.skip(1), seen, stack);
        assert(out[0] == counts[0]);
        assert(out.skip(1) =~= spec_add(counts.skip(1), seen));
    }
}

/// The count of a stack is the number of times it was seen. For no more stacks
/// than 64 bits count, the tally of a sequence of stacks holds for each stack the
/// number of its occurrences: where one stack occurs nine times as often as
/// another, its count is nine times the other's.
pub proof fn lemma_tally_counts(stacks: Seq<Seq<char>>, stack: Seq<char>)
    requires
        stacks.len() <= u64::MAX,
    ensures
        spec_count_of(spec_tally(stacks), stack) == spec_occurrences(stacks, stack),
        spec_occurrences(stacks, stack) <= stacks.len(),
    decreases stacks.len(),
{
    if stacks.len() > 0 {
        lemma_tally_counts(stacks.drop_last(), stack);
        lemma_add_counts(spec_tally(stacks.drop_last()), stacks.last(), stack);
    }
}

} // verus!
