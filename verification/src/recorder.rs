//! The adapter that wraps an iterator and stamps a record on every element.

use vstd::prelude::*;
use vstd::std_specs::iter::IteratorSpec;
use crate::clock::{lemma_whole_seconds_monotone, Timestamp};
use crate::record::{upper_bound, ProgressRecord, RecordModel};

verus! {

/// Wraps an iterator and keeps what the records are made from: how many
/// elements have come, and when the iteration started.
pub struct ProgressRecorderIter<I> {
    /// The iterator that we are iterating on.
    iter: I,
    /// How many elements have been seen.
    count: usize,
    /// When we started iterating.
    started_iterating: Timestamp,
}

/// The element of what a pull returned, without its record.
pub open spec fn element_of<T>(pulled: Option<(ProgressRecord, T)>) -> Option<T> {
    match pulled {
        Some((_, element)) => Some(element),
        None => None,
    }
}

/// The count after a pull, from the count before it: one more if an element
/// came, the same if none did.
pub open spec fn count_after_pull(before: nat, came: bool) -> nat {
    if came {
        before + 1
    } else {
        before
    }
}

/// One pull from a source that keeps the iterator protocol. `pulled` elements
/// have come and `remaining` are still to come; afterwards it is
/// `pulled_after` and `remaining_after`, and `element` is what the pull
/// returned. While elements remain, the first of them comes and is counted;
/// once none remains, nothing comes and nothing changes.
pub open spec fn pull_outcome<T>(
    pulled: nat,
    remaining: Seq<T>,
    pulled_after: nat,
    remaining_after: Seq<T>,
    element: Option<T>,
) -> bool {
    if remaining.len() > 0 {
        &&& element == Some(remaining[0])
        &&& remaining_after == remaining.drop_first()
        &&& pulled_after == pulled + 1
    } else {
        &&& element is None
        &&& remaining_after == remaining
        &&& pulled_after == pulled
    }
}

/// `elapsed` nanoseconds is the span from the reading `start` to the reading
/// `now`.
pub open spec fn measured_from(elapsed: int, start: Timestamp, now: Timestamp) -> bool {
    elapsed == now@ - start@
}

/// What a pull leaves of the source's standing as an iterator: `before` and
/// `after` keep the protocol or break it alike, and where they keep it, a
/// measure by which loops over the source end stays in place and goes down
/// with every element that `came`.
pub open spec fn source_advanced<I: Iterator>(before: I, after: I, came: bool) -> bool {
    &&& after.obeys_prophetic_iter_laws() == before.obeys_prophetic_iter_laws()
    &&& before.obeys_prophetic_iter_laws() ==> (before.decrease() is Some <==> after.decrease() is Some)
    &&& before.obeys_prophetic_iter_laws() && came && after.decrease() is Some ==> decreases_to!(
        before.decrease()->0 => after.decrease()->0
    )
}

/// Asks the source how many elements it has left, with
/// `Iterator::size_hint`.
///
/// Trusted, and nothing is claimed of the answer: the estimate is the
/// source's own, and the iterator protocol does not hold it to the elements
/// that come.
#[verifier::external_body]
fn source_size_hint<I: Iterator>(iter: &I) -> (size_hint: (usize, Option<usize>)) {
    iter.size_hint()
}

impl<I> ProgressRecorderIter<I> {
    /// The wrapped iterator.
    pub closed spec fn source(&self) -> I {
        self.iter
    }

    /// How many elements have come through the adapter.
    pub closed spec fn num_pulled(&self) -> nat {
        self.count as nat
    }

    /// The clock reading from which elapsed time is measured.
    pub closed spec fn started(&self) -> Timestamp {
        self.started_iterating
    }
}

impl<I: Iterator> ProgressRecorderIter<I> {
    /// Wraps `iter`; elapsed time is measured from now.
    pub fn new(iter: I) -> (recorder: ProgressRecorderIter<I>)
        ensures
            recorder.source() == iter,
            recorder.num_pulled() == 0,
            recorder.started().is_normal(),
    {
        ProgressRecorderIter::with_start(iter, Timestamp::now())
    }

    /// Wraps `iter`; elapsed time is measured from the reading `start`.
    pub fn with_start(iter: I, start: Timestamp) -> (recorder: ProgressRecorderIter<I>)
        ensures
            recorder.source() == iter,
            recorder.num_pulled() == 0,
            recorder.started() == start,
    {
        ProgressRecorderIter { iter: iter, count: 0, started_iterating: start }
    }

    /// How many elements have come through the adapter so far.
    pub fn pulled_so_far(&self) -> (n: usize)
        ensures
            n == self.num_pulled(),
    {
        self.count
    }

    /// Counts one more element and makes its record, for an element that
    /// came at the reading `now` while the source reported `size_hint` as
    /// left. This is the step that [`next`](Self::next) takes once an element
    /// has come; called on its own, it counts an element that the caller
    /// vouches for.
    pub fn generate_record_at(
        &mut self,
        now: Timestamp,
        size_hint: (usize, Option<usize>),
    ) -> (rec: ProgressRecord)
        requires
            old(self).num_pulled() < usize::MAX,
        ensures
            final(self).num_pulled() == old(self).num_pulled() + 1,
            final(self).started() == old(self).started(),
            final(self).source() == old(self).source(),
            rec@ == (RecordModel {
                count: final(self).num_pulled(),
                elapsed: now@ - old(self).started()@,
                lower: size_hint.0 as nat,
                upper: upper_bound(size_hint.1),
            }),
    {
        self.count += 1;
        ProgressRecord::stamped(self.count, now.since(&self.started_iterating), size_hint)
    }

    /// Calculates the record for where we are now: reads the clock and asks
    /// the source what is left.
    fn generate_record(&mut self) -> (rec: ProgressRecord)
        requires
            old(self).num_pulled() < usize::MAX,
        ensures
            final(self).num_pulled() == old(self).num_pulled() + 1,
            final(self).started() == old(self).started(),
            final(self).source() == old(self).source(),
            rec@.count == final(self).num_pulled(),
            exists|now: Timestamp|
                now.is_normal() && #[trigger] measured_from(rec@.elapsed, old(self).started(), now),
    {
        let now = Timestamp::now();
        let size_hint = source_size_hint(&self.iter);
        let rec = self.generate_record_at(now, size_hint);
        assert(measured_from(rec@.elapsed, old(self).started(), now));
        rec
    }

    /// Pulls the next element from the source. If one comes, it is counted
    /// and returned with its record; if none comes, neither the count nor
    /// the start changes.
    pub fn next(&mut self) -> (pulled: Option<(ProgressRecord, I::Item)>)
        requires
            old(self).num_pulled() < usize::MAX,
        ensures
            final(self).started() == old(self).started(),
            final(self).num_pulled() == count_after_pull(old(self).num_pulled(), pulled is Some),
            pulled matches Some((rec, _)) ==> rec@.count == final(self).num_pulled(),
            pulled matches Some((rec, _)) ==> exists|now: Timestamp|
                now.is_normal() && #[trigger] measured_from(rec@.elapsed, old(self).started(), now),
            source_advanced(old(self).source(), final(self).source(), pulled is Some),
            old(self).source().obeys_prophetic_iter_laws() ==> pull_outcome(
                old(self).num_pulled(),
                old(self).source().remaining(),
                final(self).num_pulled(),
                final(self).source().remaining(),
                element_of(pulled),
            ),
    {
        match self.iter.next() {
            None => None,
            Some(element) => Some((self.generate_record(), element)),
        }
    }

    /// As [`next`](Self::next), for an element that came at the reading
    /// `now`: its record tells the time from the start to `now`.
    pub fn next_at(&mut self, now: Timestamp) -> (pulled: Option<(ProgressRecord, I::Item)>)
        requires
            old(self).num_pulled() < usize::MAX,
        ensures
            final(self).started() == old(self).started(),
            final(self).num_pulled() == count_after_pull(old(self).num_pulled(), pulled is Some),
            pulled matches Some((rec, _)) ==> rec@.count == final(self).num_pulled(),
            pulled matches Some((rec, _)) ==> measured_from(rec@.elapsed, old(self).started(), now),
            source_advanced(old(self).source(), final(self).source(), pulled is Some),
            old(self).source().obeys_prophetic_iter_laws() ==> pull_outcome(
                old(self).num_pulled(),
                old(self).source().remaining(),
                final(self).num_pulled(),
                final(self).source().remaining(),
                element_of(pulled),
            ),
    {
        match self.iter.next() {
            None => None,
            Some(element) => {
                let size_hint = source_size_hint(&self.iter);
                Some((self.generate_record_at(now, size_hint), element))
            },
        }
    }

    /// What the source says is left. The adapter passes the source's own
    /// estimate on and does not correct it for the elements that have come.
    pub fn size_hint(&self) -> (size_hint: (usize, Option<usize>))
        ensures
            reported_by(self.source(), size_hint),
    {
        source_size_hint(&self.iter)
    }

    /// Uses the adapter up and counts the elements that the source still
    /// had, without making records.
    pub fn count(self) -> (left: usize)
        requires
            self.source().obeys_prophetic_iter_laws(),
            self.source().decrease() is Some,
            self.source().remaining().len() <= usize::MAX,
        ensures
            left == self.source().remaining().len(),
    {
        let ghost total: nat = self.iter.remaining().len();
        let mut iter = self.iter;
        let mut left: usize = 0;
        loop
            invariant
                iter.obeys_prophetic_iter_laws(),
                iter.decrease() is Some,
                total == self.source().remaining().len(),
                total <= usize::MAX,
                left + iter.remaining().len() == total,
            decreases iter.decrease()->0,
        {
            match iter.next() {
                None => {
                    return left;
                },
                Some(_) => {
                    left += 1;
                },
            }
        }
    }
}

/// `size_hint` is an answer that `source` itself gives when it is asked, with
/// `Iterator::size_hint`, how many elements it has left. No more is known of
/// the answer than that it is the source's own: two answers of one source
/// need not agree, and none is held to the elements that come.
pub closed spec fn reported_by<I: Iterator>(source: I, size_hint: (usize, Option<usize>)) -> bool {
    call_ensures(source_size_hint::<I>, (&source,), size_hint)
}

/// Elapsed time does not shrink from one record of an adapter to the next,
/// unless the clock was set back between them: of two records measured from
/// the same start, the one stamped at the later reading tells at least as
/// long a time, in nanoseconds and in whole seconds.
pub proof fn lemma_elapsed_non_decreasing(
    earlier: RecordModel,
    later: RecordModel,
    start: Timestamp,
    first: Timestamp,
    second: Timestamp,
)
    requires
        measured_from(earlier.elapsed, start, first),
        measured_from(later.elapsed, start, second),
        first@ <= second@,
    ensures
        earlier.elapsed <= later.elapsed,
        earlier.seconds() <= later.seconds(),
{
    lemma_whole_seconds_monotone(earlier.elapsed, later.elapsed);
}

/// How many of the pulls in `came` brought an element.
pub open spec fn elements_in(came: Seq<bool>) -> nat {
    came.filter(|brought: bool| brought).len()
}

/// The counts of an adapter along a series of pulls, whatever its source:
/// `pulled[0]` is the count of the fresh adapter, `pulled[i + 1]` the count
/// after the pull numbered `i`, and `came[i]` tells whether that pull brought
/// an element.
pub open spec fn is_count_run(pulled: Seq<nat>, came: Seq<bool>) -> bool {
    &&& pulled.len() == came.len() + 1
    &&& pulled[0] == 0
    &&& forall|i: int|
        0 <= i < came.len() ==> pulled[i + 1] == count_after_pull(pulled[i], #[trigger] came[i])
}

/// After any number of pulls the count is the number of pulls that brought an
/// element. So the record that comes with the `n`-th element counts `n`.
pub proof fn lemma_count_is_number_of_elements(pulled: Seq<nat>, came: Seq<bool>, pulls: int)
    requires
        is_count_run(pulled, came),
        0 <= pulls <= came.len(),
    ensures
        pulled[pulls] == elements_in(came.take(pulls)),
    decreases pulls,
{
    if pulls > 0 {
        lemma_count_is_number_of_elements(pulled, came, pulls - 1);
        assert(came.take(pulls).drop_last() =~= came.take(pulls - 1));
        assert(came.take(pulls).last() == came[pulls - 1]);
    }
    reveal(Seq::filter);
}

/// A series of pulls from a source that keeps the iterator protocol: before
/// the pull numbered `i` the count is `pulled[i]` and `remaining[i]` is still
/// to come; the pull returns `elements[i]` and leaves `pulled[i + 1]` and
/// `remaining[i + 1]`.
pub open spec fn is_run<T>(pulled: Seq<nat>, remaining: Seq<Seq<T>>, elements: Seq<Option<T>>) -> bool {
    &&& pulled.len() == elements.len() + 1
    &&& remaining.len() == elements.len() + 1
    &&& forall|i: int|
        0 <= i < elements.len() ==> pull_outcome(
            pulled[i],
            remaining[i],
            pulled[i + 1],
            remaining[i + 1],
            #[trigger] elements[i],
        )
}

/// Exhaustion is final. Once a pull has brought nothing, no later pull brings
/// anything, and the count and what remains stay as they were.
pub proof fn lemma_exhaustion_is_sticky<T>(
    pulled: Seq<nat>,
    remaining: Seq<Seq<T>>,
    elements: Seq<Option<T>>,
    first: int,
    later: int,
)
    requires
        is_run(pulled, remaining, elements),
        0 <= first <= later < elements.len(),
        elements[first] is None,
    ensures
        elements[later] is None,
        pulled[later + 1] == pulled[first],
        remaining[later + 1] == remaining[first],
    decreases later - first,
{
    if first < later {
        lemma_exhaustion_is_sticky(pulled, remaining, elements, first, later - 1);
    }
}

/// From a fresh adapter the elements come in the order of the source, each
/// with its number: if the pull numbered `i` brings an element, it is the
/// element `i` of what the source had to give, it is counted `i + 1`, and
/// what remains is the rest of the source.
pub proof fn lemma_nth_pull_counts_n<T>(
    pulled: Seq<nat>,
    remaining: Seq<Seq<T>>,
    elements: Seq<Option<T>>,
    i: int,
)
    requires
        is_run(pulled, remaining, elements),
        pulled[0] == 0,
        0 <= i < elements.len(),
        elements[i] is Some,
    ensures
        i < remaining[0].len(),
        elements[i] == Some(remaining[0][i]),
        pulled[i + 1] == i + 1,
        remaining[i + 1] == remaining[0].skip(i + 1),
    decreases i,
{
    if i == 0 {
        assert(remaining[0].drop_first() =~= remaining[0].skip(1));
    } else {
        if elements[i - 1] is None {
            lemma_exhaustion_is_sticky(pulled, remaining, elements, i - 1, i);
        }
        lemma_nth_pull_counts_n(pulled, remaining, elements, i - 1);
        assert(remaining[0].skip(i).drop_first() =~= remaining[0].skip(i + 1));
    }
}

/// An iterator that can record its progress as it goes along.
pub trait ProgressableIter<I> {
    /// Wraps the iterator in an adapter that has counted nothing yet.
    fn progress(self) -> (recorder: ProgressRecorderIter<I>)
        ensures
            recorder.num_pulled() == 0,
    ;
}

impl<I> ProgressableIter<I> for I where I: Iterator {
    /// Converts an iterator into a `ProgressRecorderIter` over itself.
    fn progress(self) -> (recorder: ProgressRecorderIter<I>)
        ensures
            recorder.source() == self,
    {
        ProgressRecorderIter::new(self)
    }
}

} // verus!
