//! The worker that sets one monitor's brightness in the background. Setting it is
//! slow, so values that queued up meanwhile are coalesced into the last of them.
use vstd::prelude::*;

verus! {

/// What a worker does next.
#[derive(Clone, Copy, Debug, PartialEq, Eq, Structural)]
pub enum Worker {
    /// Wait until a value arrives or the channel is closed.
    Waiting,
    /// Look for another queued value, having taken this one.
    Draining(u32),
    /// Set the brightness.
    Setting(u32),
    /// Exit.
    Done,
}

impl Worker {
    /// What follows, once a value has been received, or none was there.
    pub open spec fn after(self, received: Option<u32>) -> Worker {
        match self {
            Worker::Waiting => match received {
                Some(value) => Worker::Draining(value),
                None => Worker::Done,
            },
            Worker::Draining(last) => match received {
                Some(value) => Worker::Draining(value),
                None => Worker::Setting(last),
            },
            Worker::Setting(_) => Worker::Waiting,
            Worker::Done => Worker::Done,
        }
    }

    /// A worker that has just been started.
    pub fn new() -> (worker: Worker)
        ensures
            worker == Worker::Waiting,
    {
        Worker::Waiting
    }

    /// What follows. `received` is the value that was taken from the channel: none
    /// where it was closed while waiting, where it was empty or closed while
    /// draining, and once the brightness has been set.
    pub fn next(self, received: Option<u32>) -> (worker: Worker)
        ensures
            worker == self.after(received),
    {
        match self {
            Worker::Waiting => match received {
                Some(value) => Worker::Draining(value),
                None => Worker::Done,
            },
            Worker::Draining(last) => match received {
                Some(value) => Worker::Draining(value),
                None => Worker::Setting(last),
            },
            Worker::Setting(_) => Worker::Waiting,
            Worker::Done => Worker::Done,
        }
    }
}

/// Where a worker is after a course of receptions.
pub open spec fn work(worker: Worker, received: Seq<Option<u32>>) -> Worker
    decreases received.len(),
{
    if received.len() == 0 {
        worker
    } else {
        work(worker, received.drop_last()).after(received.last())
    }
}

/// The receptions while values are queued.
pub open spec fn queued(values: Seq<u32>) -> Seq<Option<u32>> {
    values.map_values(|value: u32| Some(value))
}

/// Of all values that have queued up only the most recent one is set, once; then
/// the worker waits for more.
pub proof fn law_last_value_is_set(values: Seq<u32>)
    requires
        values.len() > 0,
    ensures
        forall|k: int|
            0 < k <= values.len() ==> #[trigger] work(Worker::Waiting, queued(values).take(k))
                == Worker::Draining(values[k - 1]),
        work(Worker::Waiting, queued(values).push(None)) == Worker::Setting(values.last()),
        work(Worker::Waiting, queued(values).push(None).push(None)) == Worker::Waiting,
{
    let all = queued(values);
    assert forall|k: int| 0 < k <= values.len() implies #[trigger] work(
        Worker::Waiting,
        all.take(k),
    ) == Worker::Draining(values[k - 1]) by {
        lemma_draining(values, k);
    }
    assert(all.take(all.len() as int) =~= all);
    assert(work(Worker::Waiting, all) == Worker::Draining(values.last()));
    assert(all.push(None).drop_last() =~= all);
    assert(all.push(None).push(None).drop_last() =~= all.push(None));
}

proof fn lemma_draining(values: Seq<u32>, k: int)
    requires
        0 < k <= values.len(),
    ensures
        work(Worker::Waiting, queued(values).take(k)) == Worker::Draining(values[k - 1]),
    decreases k,
{
    let all = queued(values);
    assert(all.take(k).drop_last() =~= all.take(k - 1));
    assert(all.take(k).last() == Some(values[k - 1]));
    if k > 1 {
        lemma_draining(values, k - 1);
    } else {
        assert(all.take(0).len() == 0);
    }
}

/// A worker sets no value that it has not received.
pub proof fn law_set_was_received(received: Seq<Option<u32>>, value: u32)
    requires
        work(Worker::Waiting, received) == Worker::Setting(value) || work(
            Worker::Waiting,
            received,
        ) == Worker::Draining(value),
    ensures
        received.contains(Some(value)),
    decreases received.len(),
{
    let init = received.drop_last();
    if received.last() == Some(value) {
        assert(received[received.len() - 1] == Some(value));
    } else {
        law_set_was_received(init, value);
        let k = choose|k: int| 0 <= k < init.len() && init[k] == Some(value);
        assert(received[k] == Some(value));
    }
}

/// Whether a worker looks for a value in the channel.
pub open spec fn asks(worker: Worker) -> bool {
    worker is Waiting || worker is Draining
}

/// The values that a worker takes from the channel over a course of receptions.
pub open spec fn taken(received: Seq<Option<u32>>) -> Seq<u32>
    decreases received.len(),
{
    if received.len() == 0 {
        Seq::empty()
    } else {
        let before = received.drop_last();
        match received.last() {
            Some(value) if asks(work(Worker::Waiting, before)) => taken(before).push(value),
            _ => taken(before),
        }
    }
}

/// The values that a worker sets over a course of receptions: those with which it
/// comes to setting the brightness.
pub open spec fn values_set(received: Seq<Option<u32>>) -> Seq<u32>
    decreases received.len(),
{
    if received.len() == 0 {
        Seq::empty()
    } else {
        let before = received.drop_last();
        match work(Worker::Waiting, received) {
            Worker::Setting(value) => values_set(before).push(value),
            _ => values_set(before),
        }
    }
}

/// Whether the positions increase from each to the next, within `0..len`.
pub open spec fn increasing(positions: Seq<int>, len: int) -> bool {
    &&& forall|k: int| 0 <= k < positions.len() ==> 0 <= #[trigger] positions[k] < len
    &&& forall|j: int, k: int|
        0 <= j < k < positions.len() ==> #[trigger] positions[j] < #[trigger] positions[k]
}

/// Whether the first list is what is left of the second when some of its values
/// are skipped.
pub open spec fn is_subsequence(part: Seq<u32>, whole: Seq<u32>) -> bool {
    exists|positions: Seq<int>|
        {
            &&& #[trigger] increasing(positions, whole.len() as int)
            &&& positions.len() == part.len()
            &&& forall|k: int| 0 <= k < part.len() ==> part[k] == whole[#[trigger] positions[k]]
        }
}

/// Over any course of receptions, the values set are among those received, in the
/// order in which they came, and none is set twice for one reception.
pub proof fn law_set_in_order_received(received: Seq<Option<u32>>)
    ensures
        exists|positions: Seq<int>|
            {
                &&& #[trigger] increasing(positions, received.len() as int)
                &&& positions.len() == values_set(received).len()
                &&& forall|k: int|
                    0 <= k < positions.len() ==> received[#[trigger] positions[k]] == Some(
                        values_set(received)[k],
                    )
            },
{
    let (positions, _) = lemma_positions_received(received);
    assert(increasing(positions, received.len() as int));
}

/// The positions at which the values set were received, and the one at which the
/// value that a draining worker holds was.
proof fn lemma_positions_received(received: Seq<Option<u32>>) -> (found: (Seq<int>, int))
    ensures
        increasing(found.0, received.len() as int),
        found.0.len() == values_set(received).len(),
        forall|k: int|
            0 <= k < found.0.len() ==> received[#[trigger] found.0[k]] == Some(
                values_set(received)[k],
            ),
        work(Worker::Waiting, received) matches Worker::Draining(held) ==> {
            &&& 0 <= found.1 < received.len()
            &&& received[found.1] == Some(held)
            &&& increasing(found.0, found.1)
        },
    decreases received.len(),
{
    if received.len() == 0 {
        (Seq::empty(), 0)
    } else {
        let before = received.drop_last();
        let (positions, holding) = lemma_positions_received(before);
        match work(Worker::Waiting, received) {
            Worker::Setting(_) => (positions.push(holding), holding),
            _ => if received.last() is Some {
                (positions, received.len() - 1)
            } else {
                (positions, holding)
            },
        }
    }
}

/// Over any course of receptions, the values set are those taken from the channel
/// with some skipped, and the last of them is the last one taken, unless the
/// worker is still draining the channel.
pub proof fn law_set_of_taken(received: Seq<Option<u32>>)
    ensures
        is_subsequence(values_set(received), taken(received)),
        values_set(received).len() <= taken(received).len(),
        taken(received).len() > 0 && !(work(Worker::Waiting, received) is Draining) ==> {
            &&& values_set(received).len() > 0
            &&& values_set(received).last() == taken(received).last()
        },
        work(Worker::Waiting, received) matches Worker::Draining(held) ==> taken(received).len()
            > 0 && held == taken(received).last(),
{
    let positions = lemma_positions_taken(received);
    assert(increasing(positions, taken(received).len() as int));
    lemma_increasing_len(positions, taken(received).len() as int);
}

proof fn lemma_positions_taken(received: Seq<Option<u32>>) -> (positions: Seq<int>)
    ensures
        ({
            let whole = taken(received);
            let part = values_set(received);
            &&& positions.len() == part.len()
            &&& forall|k: int| 0 <= k < part.len() ==> part[k] == whole[#[trigger] positions[k]]
            &&& increasing(positions, whole.len() as int)
            &&& match work(Worker::Waiting, received) {
                Worker::Draining(held) => {
                    &&& whole.len() > 0
                    &&& whole.last() == held
                    &&& increasing(positions, whole.len() - 1)
                },
                Worker::Setting(value) => {
                    &&& part.len() > 0
                    &&& part.last() == value
                    &&& whole.len() > 0
                    &&& whole.last() == value
                },
                _ => whole.len() > 0 ==> part.len() > 0 && part.last() == whole.last(),
            }
        }),
    decreases received.len(),
{
    if received.len() == 0 {
        Seq::empty()
    } else {
        let before = received.drop_last();
        let positions = lemma_positions_taken(before);
        if work(Worker::Waiting, received) is Setting {
            positions.push(taken(received).len() - 1)
        } else {
            positions
        }
    }
}

proof fn lemma_increasing_len(positions: Seq<int>, len: int)
    requires
        increasing(positions, len),
        len >= 0,
    ensures
        positions.len() <= len,
    decreases positions.len(),
{
    if positions.len() > 0 {
        let init = positions.drop_last();
        assert(increasing(init, positions.last())) by {
            assert forall|k: int| 0 <= k < init.len() implies 0 <= #[trigger] init[k]
                < positions.last() by {
                assert(init[k] == positions[k]);
            }
            assert forall|j: int, k: int| 0 <= j < k < init.len() implies #[trigger] init[j]
                < #[trigger] init[k] by {
                assert(init[j] == positions[j] && init[k] == positions[k]);
            }
        }
        lemma_increasing_len(init, positions.last());
    }
}

/// Where values come only when the worker looks for one, all of them are taken:
/// in the order in which they came.
pub proof fn law_taken_is_received(received: Seq<Option<u32>>)
    requires
        forall|k: int|
            0 <= k < received.len() && #[trigger] received[k] is Some ==> asks(
                work(Worker::Waiting, received.take(k)),
            ),
    ensures
        taken(received) == received.filter(|r: Option<u32>| r is Some).map_values(
            |r: Option<u32>| r->0,
        ),
    decreases received.len(),
{
    reveal(Seq::filter);
    let some = |r: Option<u32>| r is Some;
    let value = |r: Option<u32>| r->0;
    if received.len() > 0 {
        let before = received.drop_last();
        assert forall|k: int| 0 <= k < before.len() && #[trigger] before[k] is Some implies asks(
            work(Worker::Waiting, before.take(k)),
        ) by {
            assert(before[k] == received[k]);
            assert(before.take(k) =~= received.take(k));
        }
        law_taken_is_received(before);
        assert(received.take(received.len() - 1) =~= before);
        assert(received[received.len() - 1] == received.last());
        if received.last() is Some {
            assert(received.filter(some).map_values(value) =~= before.filter(some).map_values(
                value,
            ).push(received.last()->0));
        }
    } else {
        assert(received.filter(some).map_values(value) =~= Seq::empty());
    }
}

/// The last value received, if the worker was looking for one, is the last value
/// set as soon as a reception without a value has followed it.
pub proof fn law_last_received_is_set(received: Seq<Option<u32>>, j: int)
    requires
        0 <= j < received.len() - 1,
        received[j] is Some,
        forall|k: int| j < k < received.len() ==> #[trigger] received[k] is None,
        asks(work(Worker::Waiting, received.take(j))),
    ensures
        values_set(received).len() > 0,
        values_set(received).last() == received[j]->0,
    decreases received.len(),
{
    let before = received.drop_last();
    assert(received.last() == received[received.len() - 1]);
    if j == received.len() - 2 {
        let earlier = before.drop_last();
        assert(earlier =~= received.take(j));
        assert(before.last() == received[j]);
        assert(work(Worker::Waiting, before) == Worker::Draining(received[j]->0));
    } else {
        assert(before.take(j) =~= received.take(j));
        assert(before[j] == received[j]);
        assert forall|k: int| j < k < before.len() implies #[trigger] before[k] is None by {
            assert(before[k] == received[k]);
        }
        law_last_received_is_set(before, j);
        lemma_not_draining_after_none(before);
        assert(before.last() == received[before.len() - 1]);
    }
}

proof fn lemma_not_draining_after_none(received: Seq<Option<u32>>)
    requires
        received.len() > 0,
        received.last() is None,
    ensures
        !(work(Worker::Waiting, received) is Draining),
{
}

/// Once the channel is closed, so that nothing more is received, the worker ends
/// after any course, and has then set the last value that it took.
pub proof fn law_worker_finishes(received: Seq<Option<u32>>)
    ensures
        ({
            let course = received.push(None).push(None).push(None);
            &&& work(Worker::Waiting, course) == Worker::Done
            &&& taken(course) == taken(received)
            &&& is_subsequence(values_set(course), taken(received))
            &&& values_set(course).len() <= taken(received).len()
            &&& taken(received).len() > 0 ==> values_set(course).len() > 0 && values_set(
                course,
            ).last() == taken(received).last()
        }),
{
    let one = received.push(None);
    let two = one.push(None);
    let three = two.push(None);
    assert(one.drop_last() =~= received);
    assert(two.drop_last() =~= one);
    assert(three.drop_last() =~= two);
    assert(work(Worker::Waiting, one) == work(Worker::Waiting, received).after(None));
    assert(work(Worker::Waiting, two) == work(Worker::Waiting, one).after(None));
    assert(work(Worker::Waiting, three) == work(Worker::Waiting, two).after(None));
    assert(taken(one) == taken(received));
    assert(taken(two) == taken(one));
    assert(taken(three) == taken(two));
    law_set_of_taken(three);
}

/// Once it has set a brightness, a worker waits for the next value, whatever it set.
pub proof fn law_waits_after_setting(value: u32, received: Option<u32>)
    ensures
        Worker::Setting(value).after(received) == Worker::Waiting,
{
}

/// Closing the channel ends the worker for good, but not before the last value
/// that was queued has been set.
pub proof fn law_closing_ends_worker(values: Seq<u32>, later: Option<u32>)
    ensures
        work(Worker::Waiting, seq![None]) == Worker::Done,
        Worker::Done.after(later) == Worker::Done,
        values.len() > 0 ==> {
            &&& work(Worker::Waiting, queued(values).push(None)) == Worker::Setting(values.last())
            &&& work(Worker::Waiting, queued(values).push(None).push(None).push(None))
                == Worker::Done
        },
{
    assert(seq![None::<u32>].drop_last() =~= Seq::empty());
    assert(work(Worker::Waiting, seq![None::<u32>].drop_last()) == Worker::Waiting);
    if values.len() > 0 {
        law_last_value_is_set(values);
        let course = queued(values).push(None).push(None);
        assert(course.push(None).drop_last() =~= course);
    }
}

} // verus!
