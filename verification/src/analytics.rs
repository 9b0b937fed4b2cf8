//! Play statistics: how often each artist and each track occurs in a list of
//! tracks.

use crate::text::{first_index, lemma_first_index, lemma_first_index_is, str_eq};
use crate::normalizer::CanonicalRecord;
use crate::types::{LovedTrack, RecentTrack, Timestamped};
use vstd::prelude::*;
use vstd::string::StringExecFns;

verus! {

/// A name with the number of times it was counted.
pub type Count = (Seq<char>, usize);

/// How often `name` occurs among `names`.
pub open spec fn occurrences(names: Seq<Seq<char>>, name: Seq<char>) -> nat
    decreases names.len(),
{
    if names.len() == 0 {
        0
    } else if names.last() == name {
        occurrences(names.drop_last(), name) + 1
    } else {
        occurrences(names.drop_last(), name)
    }
}

/// The names that occur among `names`, each once, in the order in which they
/// first occur.
pub open spec fn distinct_names(names: Seq<Seq<char>>) -> Seq<Seq<char>>
    decreases names.len(),
{
    if names.len() == 0 {
        Seq::empty()
    } else {
        let before = distinct_names(names.drop_last());
        if first_index(before, names.last()) < before.len() {
            before
        } else {
            before.push(names.last())
        }
    }
}

/// The tally of `names`: each name that occurs, in the order in which the
/// names first occur, with the number of times it occurs.
pub open spec fn tallied(names: Seq<Seq<char>>) -> Seq<Count> {
    distinct_names(names).map_values(|n: Seq<char>| (n, occurrences(names, n) as usize))
}

/// The names of the counts, in order.
pub open spec fn counted_names(counts: Seq<Count>) -> Seq<Seq<char>> {
    counts.map_values(|c: Count| c.0)
}

/// The number counted for `name`, if it was counted.
pub open spec fn count_of(counts: Seq<Count>, name: Seq<char>) -> Option<usize> {
    let i = first_index(counted_names(counts), name);
    if i < counts.len() {
        Some(counts[i].1)
    } else {
        None
    }
}

/// `n` and one more, as far as the machine can count.
pub open spec fn one_more(n: usize) -> usize {
    if n < usize::MAX {
        (n + 1) as usize
    } else {
        n
    }
}

/// The counts after `name` is counted once more: its count goes up by one,
/// or it is entered at the end with the count 1.
pub open spec fn with_one_more(counts: Seq<Count>, name: Seq<char>) -> Seq<Count> {
    let i = first_index(counted_names(counts), name);
    if i < counts.len() {
        counts.update(i, (name, one_more(counts[i].1)))
    } else {
        counts.push((name, 1usize))
    }
}

/// Those of `counts` whose number is below `threshold`, in their order.
pub open spec fn below(counts: Seq<Count>, threshold: usize) -> Seq<Count>
    decreases counts.len(),
{
    if counts.len() == 0 {
        Seq::empty()
    } else if counts.last().1 < threshold {
        below(counts.drop_last(), threshold).push(counts.last())
    } else {
        below(counts.drop_last(), threshold)
    }
}

/// Those of `counts` whose number is `threshold` or more, in their order.
pub open spec fn at_or_above(counts: Seq<Count>, threshold: usize) -> Seq<Count>
    decreases counts.len(),
{
    if counts.len() == 0 {
        Seq::empty()
    } else if counts.last().1 >= threshold {
        at_or_above(counts.drop_last(), threshold).push(counts.last())
    } else {
        at_or_above(counts.drop_last(), threshold)
    }
}

/// The count with the highest number; of several with that number, the
/// last. None where nothing was counted.
pub open spec fn most_played(counts: Seq<Count>) -> Option<Count>
    decreases counts.len(),
{
    if counts.len() == 0 {
        None
    } else {
        match most_played(counts.drop_last()) {
            None => Some(counts.last()),
            Some(best) => if counts.last().1 >= best.1 {
                Some(counts.last())
            } else {
                Some(best)
            },
        }
    }
}

/// Where a count of `number` goes among counts that are ranked already:
/// behind every count that is as high or higher.
pub open spec fn rank_position(ranked: Seq<Count>, number: usize) -> int
    decreases ranked.len(),
{
    if ranked.len() == 0 {
        0
    } else if ranked[0].1 < number {
        0
    } else {
        1 + rank_position(ranked.drop_first(), number)
    }
}

/// The counts ranked: the highest number first; counts with the same number
/// stay in their order.
pub open spec fn ranked(counts: Seq<Count>) -> Seq<Count>
    decreases counts.len(),
{
    if counts.len() == 0 {
        Seq::empty()
    } else {
        let before = ranked(counts.drop_last());
        before.insert(rank_position(before, counts.last().1), counts.last())
    }
}

/// The first `n` of the ranked counts, or all of them where there are fewer.
pub open spec fn top_ranked(counts: Seq<Count>, n: usize) -> Seq<Count> {
    if n < ranked(counts).len() {
        ranked(counts).take(n as int)
    } else {
        ranked(counts)
    }
}

/// `rank_position` is the first position with a lower number, or the end.
pub proof fn lemma_rank_position(ranked: Seq<Count>, number: usize)
    ensures
        0 <= rank_position(ranked, number) <= ranked.len(),
        forall|j: int| 0 <= j < rank_position(ranked, number) ==> (#[trigger] ranked[j]).1 >= number,
        rank_position(ranked, number) < ranked.len() ==> ranked[rank_position(ranked, number)].1
            < number,
    decreases ranked.len(),
{
    if ranked.len() > 0 && ranked[0].1 >= number {
        let rest = ranked.drop_first();
        lemma_rank_position(rest, number);
        assert forall|j: int| 0 <= j < rank_position(ranked, number) implies (
        #[trigger] ranked[j]).1 >= number by {
            if j > 0 {
                assert(ranked[j] == rest[j - 1]);
            }
        }
    }
}

/// A position before which no number is lower, and which holds a lower
/// number or is the end, is `rank_position`.
pub proof fn lemma_rank_position_is(ranked: Seq<Count>, number: usize, p: int)
    requires
        0 <= p <= ranked.len(),
        forall|j: int| 0 <= j < p ==> (#[trigger] ranked[j]).1 >= number,
        p < ranked.len() ==> ranked[p].1 < number,
    ensures
        rank_position(ranked, number) == p,
{
    lemma_rank_position(ranked, number);
    let k = rank_position(ranked, number);
    if k < p {
        assert(ranked[k].1 >= number);
    }
}

/// The ranked counts are the counts in another order, and no count stands
/// before one with a higher number.
pub proof fn lemma_ranked(counts: Seq<Count>)
    ensures
        ranked(counts).len() == counts.len(),
        ranked(counts).to_multiset() == counts.to_multiset(),
        forall|i: int, j: int|
            0 <= i < j < ranked(counts).len() ==> (#[trigger] ranked(counts)[i]).1 >= (
            #[trigger] ranked(counts)[j]).1,
    decreases counts.len(),
{
    broadcast use vstd::seq_lib::group_to_multiset_ensures;

    if counts.len() == 0 {
        assert(ranked(counts) =~= counts);
    } else {
        let rest = counts.drop_last();
        let before = ranked(rest);
        let last = counts.last();
        lemma_ranked(rest);
        lemma_rank_position(before, last.1);
        let p = rank_position(before, last.1);
        let after = before.insert(p, last);
        assert(after.to_multiset() =~= before.to_multiset().insert(last));
        assert(rest.push(last) =~= counts);
        assert(counts.to_multiset() =~= rest.to_multiset().insert(last));
        assert forall|i: int, j: int| 0 <= i < j < after.len() implies (#[trigger] after[i]).1 >= (
        #[trigger] after[j]).1 by {
            if j < p {
                assert(after[i] == before[i] && after[j] == before[j]);
            } else if j == p {
                assert(after[i] == before[i]);
            } else if i < p {
                assert(after[i] == before[i] && after[j] == before[j - 1]);
            } else if i == p {
                assert(after[j] == before[j - 1]);
                assert(before[p].1 < last.1);
                if j - 1 > p {
                    assert(before[p].1 >= before[j - 1].1);
                }
            } else {
                assert(after[i] == before[i - 1] && after[j] == before[j - 1]);
            }
        }
    }
}

/// The distinct names have no name twice, each of them occurs among the
/// names, and they are no more than the names.
pub proof fn lemma_distinct_names(names: Seq<Seq<char>>)
    ensures
        distinct_names(names).no_duplicates(),
        distinct_names(names).len() <= names.len(),
        forall|i: int|
            0 <= i < distinct_names(names).len() ==> 1 <= occurrences(
                names,
                #[trigger] distinct_names(names)[i],
            ) <= names.len(),
    decreases names.len(),
{
    if names.len() > 0 {
        let rest = names.drop_last();
        let before = distinct_names(rest);
        lemma_distinct_names(rest);
        lemma_first_index(before, names.last());
        lemma_occurrences_bound(names, names.last());
        assert forall|i: int| 0 <= i < distinct_names(names).len() implies 1 <= occurrences(
            names,
            #[trigger] distinct_names(names)[i],
        ) <= names.len() by {
            if i < before.len() {
                assert(distinct_names(names)[i] == before[i]);
            }
        }
    }
}

/// A name occurs no more often than there are names.
pub proof fn lemma_occurrences_bound(names: Seq<Seq<char>>, name: Seq<char>)
    ensures
        occurrences(names, name) <= names.len(),
    decreases names.len(),
{
    if names.len() > 0 {
        lemma_occurrences_bound(names.drop_last(), name);
    }
}

/// A name that occurs among the names is among the distinct names.
pub proof fn lemma_occurring_is_distinct(names: Seq<Seq<char>>, name: Seq<char>)
    requires
        occurrences(names, name) > 0,
    ensures
        first_index(distinct_names(names), name) < distinct_names(names).len(),
    decreases names.len(),
{
    let rest = names.drop_last();
    let before = distinct_names(rest);
    let all = distinct_names(names);
    lemma_first_index(before, names.last());
    lemma_first_index(before, name);
    if names.last() == name {
        if first_index(before, name) >= before.len() {
            lemma_first_index_is(all, name, before.len() as int);
        }
    } else {
        lemma_occurring_is_distinct(rest, name);
        if first_index(before, names.last()) >= before.len() {
            lemma_first_index_is(all, name, first_index(before, name));
        }
    }
}

/// Counting one more name in a tally gives the tally of the names with that
/// name at their end.
pub proof fn lemma_tally_step(names: Seq<Seq<char>>, name: Seq<char>)
    requires
        names.len() < usize::MAX,
    ensures
        with_one_more(tallied(names), name) == tallied(names.push(name)),
{
    let longer = names.push(name);
    let before = distinct_names(names);
    let after = distinct_names(longer);
    let counts = tallied(names);
    assert(longer.drop_last() =~= names);
    assert(counted_names(counts) =~= before);
    lemma_distinct_names(names);
    lemma_first_index(before, name);
    lemma_occurrences_bound(names, name);
    let i = first_index(before, name);
    let stepped = with_one_more(counts, name);
    let goal = tallied(longer);
    if i < before.len() {
        assert(stepped.len() == goal.len());
        assert forall|j: int| 0 <= j < goal.len() implies stepped[j] == goal[j] by {
            lemma_occurrences_bound(names, before[j]);
            if j != i {
                assert(before[j] != before[i]);
            }
        }
    } else {
        if occurrences(names, name) > 0 {
            lemma_occurring_is_distinct(names, name);
        }
        assert(stepped.len() == goal.len());
        assert forall|j: int| 0 <= j < goal.len() implies stepped[j] == goal[j] by {
            if j < before.len() {
                lemma_occurrences_bound(names, before[j]);
            }
        }
    }
    assert(stepped =~= goal);
}

/// Whether no name occurs twice among the counts.
pub open spec fn distinct_counts(counts: Seq<Count>) -> bool {
    forall|i: int, j: int|
        0 <= i < j < counts.len() ==> (#[trigger] counts[i]).0 != (#[trigger] counts[j]).0
}

/// What a vector of names and numbers stands for.
pub open spec fn counts_view(entries: Seq<(String, usize)>) -> Seq<Count> {
    entries.map_values(|e: (String, usize)| (e.0@, e.1))
}

/// Counting a name once more keeps any name from occurring twice.
pub proof fn lemma_with_one_more_distinct(counts: Seq<Count>, name: Seq<char>)
    requires
        distinct_counts(counts),
    ensures
        distinct_counts(with_one_more(counts, name)),
{
    let names = counted_names(counts);
    lemma_first_index(names, name);
    let k = first_index(names, name);
    let after = with_one_more(counts, name);
    assert forall|i: int, j: int| 0 <= i < j < after.len() implies (#[trigger] after[i]).0 != (
    #[trigger] after[j]).0 by {
        if k < counts.len() {
            assert(names[k] == counts[k].0);
            assert(after[i].0 == counts[i].0);
            assert(after[j].0 == counts[j].0);
        } else if j < counts.len() {
            assert(after[i] == counts[i] && after[j] == counts[j]);
        } else {
            assert(after[i] == counts[i]);
            assert(names[i] == counts[i].0);
        }
    }
}

/// The counts below a threshold are among the counts, and no name occurs
/// twice among them where none does among the counts.
pub proof fn lemma_below(counts: Seq<Count>, threshold: usize)
    ensures
        forall|i: int|
            0 <= i < below(counts, threshold).len() ==> counts.contains(
                #[trigger] below(counts, threshold)[i],
            ) && below(counts, threshold)[i].1 < threshold,
        distinct_counts(counts) ==> distinct_counts(below(counts, threshold)),
    decreases counts.len(),
{
    if counts.len() > 0 {
        let rest = counts.drop_last();
        let kept = below(rest, threshold);
        let all = below(counts, threshold);
        lemma_below(rest, threshold);
        assert forall|i: int| 0 <= i < all.len() implies counts.contains(#[trigger] all[i])
            && all[i].1 < threshold by {
            if i < kept.len() {
                assert(all[i] == kept[i]);
                let j = choose|j: int| 0 <= j < rest.len() && rest[j] == kept[i];
                assert(counts[j] == kept[i]);
            } else {
                assert(counts[counts.len() - 1] == all[i]);
            }
        }
        if distinct_counts(counts) {
            assert(distinct_counts(rest)) by {
                assert forall|i: int, j: int| 0 <= i < j < rest.len() implies (#[trigger] rest[i]).0
                    != (#[trigger] rest[j]).0 by {
                    assert(rest[i] == counts[i] && rest[j] == counts[j]);
                }
            }
            assert forall|i: int, j: int| 0 <= i < j < all.len() implies (#[trigger] all[i]).0 != (
            #[trigger] all[j]).0 by {
                if j < kept.len() {
                    assert(all[i] == kept[i] && all[j] == kept[j]);
                } else {
                    assert(all[i] == kept[i]);
                    let k = choose|k: int| 0 <= k < rest.len() && rest[k] == kept[i];
                    assert(counts[k] == kept[i]);
                    assert(counts[counts.len() - 1] == all[j]);
                }
            }
        }
    }
}

/// The counts at or above a threshold are among the counts, and no name
/// occurs twice among them where none does among the counts.
pub proof fn lemma_at_or_above(counts: Seq<Count>, threshold: usize)
    ensures
        forall|i: int|
            0 <= i < at_or_above(counts, threshold).len() ==> counts.contains(
                #[trigger] at_or_above(counts, threshold)[i],
            ) && at_or_above(counts, threshold)[i].1 >= threshold,
        distinct_counts(counts) ==> distinct_counts(at_or_above(counts, threshold)),
    decreases counts.len(),
{
    if counts.len() > 0 {
        let rest = counts.drop_last();
        let kept = at_or_above(rest, threshold);
        let all = at_or_above(counts, threshold);
        lemma_at_or_above(rest, threshold);
        assert forall|i: int| 0 <= i < all.len() implies counts.contains(#[trigger] all[i])
            && all[i].1 >= threshold by {
            if i < kept.len() {
                assert(all[i] == kept[i]);
                let j = choose|j: int| 0 <= j < rest.len() && rest[j] == kept[i];
                assert(counts[j] == kept[i]);
            } else {
                assert(counts[counts.len() - 1] == all[i]);
            }
        }
        if distinct_counts(counts) {
            assert(distinct_counts(rest)) by {
                assert forall|i: int, j: int| 0 <= i < j < rest.len() implies (#[trigger] rest[i]).0
                    != (#[trigger] rest[j]).0 by {
                    assert(rest[i] == counts[i] && rest[j] == counts[j]);
                }
            }
            assert forall|i: int, j: int| 0 <= i < j < all.len() implies (#[trigger] all[i]).0 != (
            #[trigger] all[j]).0 by {
                if j < kept.len() {
                    assert(all[i] == kept[i] && all[j] == kept[j]);
                } else {
                    assert(all[i] == kept[i]);
                    let k = choose|k: int| 0 <= k < rest.len() && rest[k] == kept[i];
                    assert(counts[k] == kept[i]);
                    assert(counts[counts.len() - 1] == all[j]);
                }
            }
        }
    }
}

/// Ranking keeps any name from occurring twice.
pub proof fn lemma_ranked_distinct(counts: Seq<Count>)
    requires
        distinct_counts(counts),
    ensures
        distinct_counts(ranked(counts)),
        forall|i: int| 0 <= i < ranked(counts).len() ==> counts.contains(#[trigger] ranked(counts)[i]),
    decreases counts.len(),
{
    if counts.len() > 0 {
        let rest = counts.drop_last();
        let last = counts.last();
        let before = ranked(rest);
        let after = ranked(counts);
        assert(distinct_counts(rest)) by {
            assert forall|i: int, j: int| 0 <= i < j < rest.len() implies (#[trigger] rest[i]).0 != (
            #[trigger] rest[j]).0 by {
                assert(rest[i] == counts[i] && rest[j] == counts[j]);
            }
        }
        lemma_ranked_distinct(rest);
        lemma_rank_position(before, last.1);
        let p = rank_position(before, last.1);
        assert forall|i: int| 0 <= i < before.len() implies counts.contains(#[trigger] before[i])
            && before[i].0 != last.0 by {
            let j = choose|j: int| 0 <= j < rest.len() && rest[j] == before[i];
            assert(counts[j] == before[i]);
            assert(counts[counts.len() - 1] == last);
        }
        assert forall|i: int| 0 <= i < after.len() implies counts.contains(#[trigger] after[i]) by {
            if i < p {
                assert(after[i] == before[i]);
            } else if i == p {
                assert(counts[counts.len() - 1] == after[i]);
            } else {
                assert(after[i] == before[i - 1]);
            }
        }
        assert forall|i: int, j: int| 0 <= i < j < after.len() implies (#[trigger] after[i]).0 != (
        #[trigger] after[j]).0 by {
            let x = if i < p {
                i
            } else {
                i - 1
            };
            let y = if j < p {
                j
            } else {
                j - 1
            };
            if i != p {
                assert(after[i] == before[x]);
            }
            if j != p {
                assert(after[j] == before[y]);
            }
        }
    }
}

/// An ordered tally: names with the number of times each was counted. No
/// name occurs twice.
#[derive(Debug)]
pub struct PlayCounts {
    entries: Vec<(String, usize)>,
}

impl View for PlayCounts {
    type V = Seq<Count>;

    closed spec fn view(&self) -> Seq<Count> {
        counts_view(self.entries@)
    }
}

impl PlayCounts {
    /// What holds of every tally: no name occurs twice.
    #[verifier::type_invariant]
    pub open spec fn well_formed(&self) -> bool {
        distinct_counts(self@)
    }

    /// A tally of nothing.
    pub fn new() -> (counts: PlayCounts)
        ensures
            counts@ == Seq::<Count>::empty(),
    {
        let entries: Vec<(String, usize)> = Vec::new();
        assert(counts_view(entries@) =~= Seq::<Count>::empty());
        PlayCounts { entries }
    }

    /// The number of names counted.
    pub fn len(&self) -> (n: usize)
        ensures
            n == self@.len(),
    {
        self.entries.len()
    }

    /// The name and the number at position `index`.
    pub fn entry(&self, index: usize) -> (e: (&str, usize))
        requires
            index < self@.len(),
        ensures
            (e.0@, e.1) == self@[index as int],
    {
        (self.entries[index].0.as_str(), self.entries[index].1)
    }

    /// The position of `name`, or the number of names where it was not
    /// counted.
    fn position(&self, name: &str) -> (i: usize)
        ensures
            i == first_index(counted_names(self@), name@),
            i <= self@.len(),
    {
        let ghost names = counted_names(self@);
        let mut i: usize = 0;
        while i < self.entries.len()
            invariant
                i <= self.entries.len(),
                names == counted_names(self@),
                forall|j: int| 0 <= j < i ==> #[trigger] names[j] != name@,
            decreases self.entries.len() - i,
        {
            assert(names[i as int] == self.entries[i as int].0@);
            if str_eq(self.entries[i].0.as_str(), name) {
                proof {
                    lemma_first_index_is(names, name@, i as int);
                }
                return i;
            }
            i = i + 1;
        }
        proof {
            lemma_first_index_is(names, name@, i as int);
        }
        i
    }

    /// The number counted for `name`, if it was counted.
    pub fn get(&self, name: &str) -> (count: Option<usize>)
        ensures
            count == count_of(self@, name@),
    {
        let i = self.position(name);
        if i < self.entries.len() {
            Some(self.entries[i].1)
        } else {
            None
        }
    }

    /// Counts `name` once more.
    pub fn record(&mut self, name: &str)
        ensures
            final(self)@ == with_one_more(old(self)@, name@),
    {
        proof {
            use_type_invariant(&*self);
            lemma_with_one_more_distinct(self@, name@);
        }
        let i = self.position(name);
        // The entries are taken out, changed and put back: the tally is
        // well-formed at every step.
        let mut entries: Vec<(String, usize)> = Vec::new();
        assert(counts_view(entries@) =~= Seq::<Count>::empty());
        core::mem::swap(&mut self.entries, &mut entries);
        if i < entries.len() {
            let count = entries[i].1;
            let more = if count < usize::MAX {
                count + 1
            } else {
                count
            };
            entries.set(i, (name.to_owned(), more));
        } else {
            entries.push((name.to_owned(), 1));
        }
        assert(counts_view(entries@) =~= with_one_more(old(self)@, name@));
        self.entries = entries;
    }

    /// The counts below `threshold`, in their order.
    pub fn below(&self, threshold: usize) -> (kept: PlayCounts)
        ensures
            kept@ == below(self@, threshold),
    {
        let mut kept: Vec<(String, usize)> = Vec::new();
        let mut i: usize = 0;
        assert(self@.take(0) =~= Seq::<Count>::empty());
        assert(counts_view(kept@) =~= Seq::<Count>::empty());
        while i < self.entries.len()
            invariant
                i <= self.entries.len(),
                counts_view(kept@) == below(self@.take(i as int), threshold),
            decreases self.entries.len() - i,
        {
            let e = self.entry(i);
            assert(self@.take(i + 1).drop_last() =~= self@.take(i as int));
            if e.1 < threshold {
                let ghost before = counts_view(kept@);
                kept.push((e.0.to_owned(), e.1));
                assert(counts_view(kept@) =~= before.push((e.0@, e.1)));
            }
            i = i + 1;
        }
        proof {
            assert(self@.take(i as int) =~= self@);
            use_type_invariant(self);
            lemma_below(self@, threshold);
        }
        PlayCounts { entries: kept }
    }

    /// The counts of `threshold` or more, in their order.
    pub fn at_or_above(&self, threshold: usize) -> (kept: PlayCounts)
        ensures
            kept@ == at_or_above(self@, threshold),
    {
        let mut kept: Vec<(String, usize)> = Vec::new();
        let mut i: usize = 0;
        assert(self@.take(0) =~= Seq::<Count>::empty());
        assert(counts_view(kept@) =~= Seq::<Count>::empty());
        while i < self.entries.len()
            invariant
                i <= self.entries.len(),
                counts_view(kept@) == at_or_above(self@.take(i as int), threshold),
            decreases self.entries.len() - i,
        {
            let e = self.entry(i);
            assert(self@.take(i + 1).drop_last() =~= self@.take(i as int));
            if e.1 >= threshold {
                let ghost before = counts_view(kept@);
                kept.push((e.0.to_owned(), e.1));
                assert(counts_view(kept@) =~= before.push((e.0@, e.1)));
            }
            i = i + 1;
        }
        proof {
            assert(self@.take(i as int) =~= self@);
            use_type_invariant(self);
            lemma_at_or_above(self@, threshold);
        }
        PlayCounts { entries: kept }
    }

    /// The entries ranked: the highest number first; entries with the same
    /// number stay in their order.
    fn ranked_entries(&self) -> (sorted: Vec<(String, usize)>)
        ensures
            counts_view(sorted@) == ranked(self@),
            distinct_counts(ranked(self@)),
    {
        let mut sorted: Vec<(String, usize)> = Vec::new();
        let mut i: usize = 0;
        assert(self@.take(0) =~= Seq::<Count>::empty());
        assert(counts_view(sorted@) =~= Seq::<Count>::empty());
        while i < self.entries.len()
            invariant
                i <= self.entries.len(),
                counts_view(sorted@) == ranked(self@.take(i as int)),
            decreases self.entries.len() - i,
        {
            let e = self.entry(i);
            assert(self@.take(i + 1).drop_last() =~= self@.take(i as int));
            let ghost before = counts_view(sorted@);
            let mut p: usize = 0;
            while p < sorted.len() && sorted[p].1 >= e.1
                invariant
                    p <= sorted.len(),
                    counts_view(sorted@) == before,
                    forall|j: int| 0 <= j < p ==> (#[trigger] before[j]).1 >= e.1,
                decreases sorted.len() - p,
            {
                p = p + 1;
            }
            proof {
                lemma_rank_position_is(before, e.1, p as int);
            }
            sorted.insert(p, (e.0.to_owned(), e.1));
            assert(counts_view(sorted@) =~= before.insert(p as int, (e.0@, e.1)));
            i = i + 1;
        }
        proof {
            assert(self@.take(i as int) =~= self@);
            use_type_invariant(self);
            lemma_ranked_distinct(self@);
        }
        sorted
    }

    /// The counts ranked: the highest number first; counts with the same
    /// number stay in their order.
    pub fn ranked(&self) -> (sorted: PlayCounts)
        ensures
            sorted@ == ranked(self@),
    {
        PlayCounts { entries: self.ranked_entries() }
    }

    /// The `n` counts with the highest numbers, the highest first; all
    /// counts where there are no more than `n`.
    pub fn top(&self, n: usize) -> (first: PlayCounts)
        ensures
            first@ == top_ranked(self@, n),
    {
        let mut first = self.ranked_entries();
        let ghost all = counts_view(first@);
        if n < first.len() {
            first.truncate(n);
            assert(counts_view(first@) =~= all.take(n as int));
        }
        PlayCounts { entries: first }
    }

    /// The name counted most often, with its number.
    pub fn most_played(&self) -> (best: Option<(String, usize)>)
        ensures
            match best {
                Some(b) => most_played(self@) == Some((b.0@, b.1)),
                None => most_played(self@).is_none(),
            },
    {
        if self.entries.len() == 0 {
            return None;
        }
        let mut at: usize = 0;
        let mut i: usize = 1;
        assert(self@.take(1).drop_last() =~= Seq::<Count>::empty());
        assert(most_played(self@.take(1).drop_last()).is_none());
        while i < self.entries.len()
            invariant
                1 <= i <= self.entries.len(),
                at < i,
                most_played(self@.take(i as int)) == Some(self@[at as int]),
            decreases self.entries.len() - i,
        {
            assert(self@.take(i + 1).drop_last() =~= self@.take(i as int));
            if self.entries[i].1 >= self.entries[at].1 {
                at = i;
            }
            i = i + 1;
        }
        assert(self@.take(i as int) =~= self@);
        Some((self.entries[at].0.clone(), self.entries[at].1))
    }
}

/// Counts how often each of `names` occurs.
pub fn count_names(names: &Vec<String>) -> (counts: PlayCounts)
    ensures
        counts@ == tallied(names@.map_values(|n: String| n@)),
{
    let ghost all = names@.map_values(|n: String| n@);
    let mut counts = PlayCounts::new();
    let mut i: usize = 0;
    assert(all.take(0) =~= Seq::<Seq<char>>::empty());
    assert(tallied(all.take(0)) =~= Seq::<Count>::empty());
    while i < names.len()
        invariant
            i <= names.len(),
            all == names@.map_values(|n: String| n@),
            counts@ == tallied(all.take(i as int)),
        decreases names.len() - i,
    {
        counts.record(names[i].as_str());
        proof {
            lemma_tally_step(all.take(i as int), all[i as int]);
            assert(all.take(i as int).push(all[i as int]) =~= all.take(i + 1));
        }
        i = i + 1;
    }
    assert(all.take(i as int) =~= all);
    counts
}

/// The text that names a track: the artist, ` - `, and the name of the
/// track.
pub open spec fn track_identifier(artist: Seq<char>, track: Seq<char>) -> Seq<char> {
    artist + " - "@ + track
}

/// A track whose plays can be counted: it names its artist and itself.
pub trait TrackAnalyzable {
    /// The name of the artist.
    spec fn artist_name(&self) -> Seq<char>;

    /// The name of the track.
    spec fn track_name(&self) -> Seq<char>;

    /// The name of the artist.
    fn get_artist_name(&self) -> (name: String)
        ensures
            name@ == self.artist_name(),
    ;

    /// The name of the track.
    fn get_track_name(&self) -> (name: String)
        ensures
            name@ == self.track_name(),
    ;

    /// The text that names the track: the artist, ` - `, and the name of the
    /// track.
    fn get_track_identifier(&self) -> (id: String)
        ensures
            id@ == track_identifier(self.artist_name(), self.track_name()),
    {
        let mut id = self.get_artist_name();
        id.append(" - ");
        id.append(self.get_track_name().as_str());
        id
    }
}

impl TrackAnalyzable for RecentTrack {
    open spec fn artist_name(&self) -> Seq<char> {
        self.artist.text@
    }

    open spec fn track_name(&self) -> Seq<char> {
        self.name@
    }

    fn get_artist_name(&self) -> (name: String) {
        self.artist.text.clone()
    }

    fn get_track_name(&self) -> (name: String) {
        self.name.clone()
    }
}

impl TrackAnalyzable for LovedTrack {
    open spec fn artist_name(&self) -> Seq<char> {
        self.artist.name@
    }

    open spec fn track_name(&self) -> Seq<char> {
        self.name@
    }

    fn get_artist_name(&self) -> (name: String) {
        self.artist.name.clone()
    }

    fn get_track_name(&self) -> (name: String) {
        self.name.clone()
    }
}

impl TrackAnalyzable for CanonicalRecord {
    open spec fn artist_name(&self) -> Seq<char> {
        self.artist@
    }

    open spec fn track_name(&self) -> Seq<char> {
        self.name@
    }

    fn get_artist_name(&self) -> (name: String) {
        self.artist.clone()
    }

    fn get_track_name(&self) -> (name: String) {
        self.name.clone()
    }
}

/// The play statistics of a list of tracks.
#[derive(Debug)]
pub struct TrackStats {
    /// The number of tracks in the list.
    pub total_tracks: usize,
    /// How often each artist occurs.
    pub artist_play_counts: PlayCounts,
    /// How often each track occurs, by its identifier.
    pub track_play_counts: PlayCounts,
    /// The tracks that occur less often than the threshold.
    pub tracks_below_threshold: PlayCounts,
    /// The tracks that occur as often as the threshold, or more often.
    pub tracks_above_threshold: PlayCounts,
    /// The artist that occurs most often.
    pub most_played_artist: Option<(String, usize)>,
    /// The track that occurs most often.
    pub most_played_track: Option<(String, usize)>,
}

/// The view of [`TrackStats`].
pub struct TrackStatsView {
    pub total_tracks: usize,
    pub artist_play_counts: Seq<Count>,
    pub track_play_counts: Seq<Count>,
    pub tracks_below_threshold: Seq<Count>,
    pub tracks_above_threshold: Seq<Count>,
    pub most_played_artist: Option<Count>,
    pub most_played_track: Option<Count>,
}

/// The view of an optional name with its number.
pub open spec fn optional_count(c: Option<(String, usize)>) -> Option<Count> {
    match c {
        Some(c) => Some((c.0@, c.1)),
        None => None,
    }
}

impl View for TrackStats {
    type V = TrackStatsView;

    open spec fn view(&self) -> TrackStatsView {
        TrackStatsView {
            total_tracks: self.total_tracks,
            artist_play_counts: self.artist_play_counts@,
            track_play_counts: self.track_play_counts@,
            tracks_below_threshold: self.tracks_below_threshold@,
            tracks_above_threshold: self.tracks_above_threshold@,
            most_played_artist: optional_count(self.most_played_artist),
            most_played_track: optional_count(self.most_played_track),
        }
    }
}

/// The names of the artists of the tracks, in order.
pub open spec fn artist_names<T: TrackAnalyzable>(tracks: Seq<T>) -> Seq<Seq<char>> {
    tracks.map_values(|t: T| t.artist_name())
}

/// The identifiers of the tracks, in order.
pub open spec fn track_identifiers<T: TrackAnalyzable>(tracks: Seq<T>) -> Seq<Seq<char>> {
    tracks.map_values(|t: T| track_identifier(t.artist_name(), t.track_name()))
}

/// The statistics of tracks with the given artists and identifiers.
pub open spec fn analysis(artists: Seq<Seq<char>>, identifiers: Seq<Seq<char>>, threshold: usize)
    -> TrackStatsView {
    TrackStatsView {
        total_tracks: identifiers.len() as usize,
        artist_play_counts: tallied(artists),
        track_play_counts: tallied(identifiers),
        tracks_below_threshold: below(tallied(identifiers), threshold),
        tracks_above_threshold: at_or_above(tallied(identifiers), threshold),
        most_played_artist: most_played(tallied(artists)),
        most_played_track: most_played(tallied(identifiers)),
    }
}

/// The latest of the times, if any of them is set.
pub open spec fn latest(stamps: Seq<Option<u32>>) -> Option<u32>
    decreases stamps.len(),
{
    if stamps.len() == 0 {
        None
    } else {
        match (latest(stamps.drop_last()), stamps.last()) {
            (None, t) => t,
            (Some(best), None) => Some(best),
            (Some(best), Some(t)) => if t > best {
                Some(t)
            } else {
                Some(best)
            },
        }
    }
}

/// The latest time is one of the times, and none of them is later.
pub proof fn lemma_latest(stamps: Seq<Option<u32>>)
    ensures
        latest(stamps).is_some() <==> exists|i: int| 0 <= i < stamps.len() && stamps[i].is_some(),
        latest(stamps).is_some() ==> exists|i: int| 0 <= i < stamps.len() && stamps[i] == latest(stamps),
        forall|i: int|
            0 <= i < stamps.len() && (#[trigger] stamps[i]).is_some() ==> latest(stamps).is_some()
                && stamps[i].unwrap() <= latest(stamps).unwrap(),
    decreases stamps.len(),
{
    if stamps.len() > 0 {
        let rest = stamps.drop_last();
        lemma_latest(rest);
        let n = stamps.len() - 1;
        assert forall|i: int| 0 <= i < stamps.len() && (#[trigger] stamps[i]).is_some() implies latest(
            stamps,
        ).is_some() && stamps[i].unwrap() <= latest(stamps).unwrap() by {
            if i < n {
                assert(rest[i] == stamps[i]);
            }
        }
        if latest(stamps).is_some() {
            if latest(stamps) == stamps[n] {
                assert(stamps[n].is_some());
            } else {
                let i = choose|i: int| 0 <= i < rest.len() && rest[i] == latest(rest);
                assert(stamps[i] == latest(stamps));
                assert(stamps[i].is_some());
            }
        }
        if exists|i: int| 0 <= i < stamps.len() && stamps[i].is_some() {
            let i = choose|i: int| 0 <= i < stamps.len() && stamps[i].is_some();
            assert(stamps[i].is_some());
        }
    }
}

/// The entry point of the play statistics.
pub struct AnalysisHandler;

impl AnalysisHandler {
    /// The play statistics of `tracks`: how often each artist and each track
    /// occurs, which tracks occur less often than `threshold` and which do
    /// not, and the artist and the track that occur most often.
    pub fn analyze_tracks<T: TrackAnalyzable>(tracks: &[T], threshold: usize) -> (stats: TrackStats)
        ensures
            stats@ == analysis(artist_names(tracks@), track_identifiers(tracks@), threshold),
    {
        let mut artists: Vec<String> = Vec::new();
        let mut identifiers: Vec<String> = Vec::new();
        let ghost artist_views = artist_names(tracks@);
        let ghost identifier_views = track_identifiers(tracks@);
        let mut i: usize = 0;
        while i < tracks.len()
            invariant
                i <= tracks.len(),
                artists.len() == i,
                identifiers.len() == i,
                artist_views == artist_names(tracks@),
                identifier_views == track_identifiers(tracks@),
                forall|j: int| 0 <= j < i ==> (#[trigger] artists[j])@ == artist_views[j],
                forall|j: int| 0 <= j < i ==> (#[trigger] identifiers[j])@ == identifier_views[j],
            decreases tracks.len() - i,
        {
            artists.push(tracks[i].get_artist_name());
            identifiers.push(tracks[i].get_track_identifier());
            i = i + 1;
        }
        assert(artists@.map_values(|n: String| n@) =~= artist_views);
        assert(identifiers@.map_values(|n: String| n@) =~= identifier_views);
        let artist_play_counts = count_names(&artists);
        let track_play_counts = count_names(&identifiers);
        let tracks_below_threshold = track_play_counts.below(threshold);
        let tracks_above_threshold = track_play_counts.at_or_above(threshold);
        let most_played_artist = artist_play_counts.most_played();
        let most_played_track = track_play_counts.most_played();
        TrackStats {
            total_tracks: tracks.len(),
            artist_play_counts,
            track_play_counts,
            tracks_below_threshold,
            tracks_above_threshold,
            most_played_artist,
            most_played_track,
        }
    }

    /// The latest time that any of `tracks` says it happened at.
    pub fn get_most_recent_timestamp<T: Timestamped>(tracks: &[T]) -> (latest_time: Option<u32>)
        ensures
            latest_time == latest(tracks@.map_values(|t: T| t.timestamp())),
    {
        let ghost stamps = tracks@.map_values(|t: T| t.timestamp());
        let mut best: Option<u32> = None;
        let mut i: usize = 0;
        assert(stamps.take(0) =~= Seq::<Option<u32>>::empty());
        while i < tracks.len()
            invariant
                i <= tracks.len(),
                stamps == tracks@.map_values(|t: T| t.timestamp()),
                best == latest(stamps.take(i as int)),
            decreases tracks.len() - i,
        {
            let t = tracks[i].get_timestamp();
            assert(stamps.take(i + 1).drop_last() =~= stamps.take(i as int));
            assert(stamps.take(i + 1).last() == t);
            best = match (best, t) {
                (None, t) => t,
                (Some(b), None) => Some(b),
                (Some(b), Some(t)) => if t > b {
                    Some(t)
                } else {
                    Some(b)
                },
            };
            i = i + 1;
        }
        assert(stamps.take(i as int) =~= stamps);
        best
    }
}

} // verus!
