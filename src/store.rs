use vstd::prelude::*;
use crate::es::event::{Entry, Event};

verus! {

/// An append whose expected version is not the aggregate's current version.
#[derive(Debug, Clone, Copy, PartialEq, Eq)]
pub struct ConcurrencyConflict {
    /// The version the caller last observed.
    pub expected: u64,
    /// The version stored for the aggregate.
    pub actual: u64,
}

/// The envelopes of `log` that belong to aggregate `id`, in log order.
pub open spec fn entries_for<E>(log: Seq<Entry<E>>, id: Seq<char>) -> Seq<Entry<E>>
    decreases log.len(),
{
    if log.len() == 0 {
        Seq::empty()
    } else {
        let prev = entries_for(log.drop_last(), id);
        if log.last().aggregate_id@ == id {
            prev.push(log.last())
        } else {
            prev
        }
    }
}

/// Positions count 1, 2, ... over the whole log; each tag matches its
/// payload; the versions of every aggregate count 1, 2, ... with no gaps.
pub open spec fn log_wf<E: Event>(log: Seq<Entry<E>>) -> bool {
    &&& forall|i: int|
        0 <= i < log.len() ==> (#[trigger] log[i]).position == i + 1
            && log[i].event_type@ == log[i].payload.type_tag()
    &&& forall|id: Seq<char>, k: int|
        0 <= k < entries_for(log, id).len() ==> (#[trigger] entries_for(log, id)[k]).version == k
            + 1
}

/// Current version of aggregate `id`: the number of its envelopes.
pub open spec fn version_of<E>(log: Seq<Entry<E>>, id: Seq<char>) -> nat {
    entries_for(log, id).len()
}

proof fn lemma_entries_for_push<E>(log: Seq<Entry<E>>, x: Entry<E>, id: Seq<char>)
    ensures
        entries_for(log.push(x), id) == if x.aggregate_id@ == id {
            entries_for(log, id).push(x)
        } else {
            entries_for(log, id)
        },
{
    assert(log.push(x).drop_last() =~= log);
}

proof fn lemma_entries_for_len<E>(log: Seq<Entry<E>>, id: Seq<char>)
    ensures
        entries_for(log, id).len() <= log.len(),
    decreases log.len(),
{
    if log.len() > 0 {
        lemma_entries_for_len(log.drop_last(), id);
    }
}

proof fn lemma_push_keeps_wf<E: Event>(log: Seq<Entry<E>>, x: Entry<E>)
    requires
        log_wf(log),
        x.position == log.len() + 1,
        x.event_type@ == x.payload.type_tag(),
        x.version == version_of(log, x.aggregate_id@) + 1,
    ensures
        log_wf(log.push(x)),
{
    let l2 = log.push(x);
    assert forall|i: int| 0 <= i < l2.len() implies (#[trigger] l2[i]).position == i + 1
        && l2[i].event_type@ == l2[i].payload.type_tag() by {
        if i < log.len() {
            assert(l2[i] == log[i]);
        }
    }
    assert forall|id: Seq<char>, k: int| 0 <= k < entries_for(l2, id).len() implies (
    #[trigger] entries_for(l2, id)[k]).version == k + 1 by {
        lemma_entries_for_push(log, x, id);
        if x.aggregate_id@ == id && k < entries_for(log, id).len() {
            assert(entries_for(l2, id)[k] == entries_for(log, id)[k]);
        }
    }
}

proof fn lemma_entries_for_tags<E: Event>(log: Seq<Entry<E>>, id: Seq<char>)
    requires
        forall|i: int|
            0 <= i < log.len() ==> (#[trigger] log[i]).event_type@ == log[i].payload.type_tag(),
    ensures
        forall|k: int|
            0 <= k < entries_for(log, id).len() ==> (#[trigger] entries_for(log, id)[k]).event_type@
                == entries_for(log, id)[k].payload.type_tag(),
    decreases log.len(),
{
    if log.len() > 0 {
        let prev = log.drop_last();
        assert forall|i: int| 0 <= i < prev.len() implies (#[trigger] prev[i]).event_type@
            == prev[i].payload.type_tag() by {
            assert(prev[i] == log[i]);
        }
        lemma_entries_for_tags(prev, id);
        assert(log.last() == log[log.len() - 1]);
        let pe = entries_for(prev, id);
        let le = entries_for(log, id);
        assert forall|k: int| 0 <= k < le.len() implies (#[trigger] le[k]).event_type@
            == le[k].payload.type_tag() by {
            if k < pe.len() {
                assert(le[k] == pe[k]);
            }
        }
    }
}

/// In a well-formed log, the envelopes of any one aggregate carry versions
/// 1, 2, ... in order, each with the tag of its payload.
pub proof fn lemma_aggregate_log_in_sequence<E: Event>(log: Seq<Entry<E>>, id: Seq<char>)
    requires
        log_wf(log),
    ensures
        forall|k: int|
            0 <= k < entries_for(log, id).len() ==> {
                &&& (#[trigger] entries_for(log, id)[k]).version == k + 1
                &&& entries_for(log, id)[k].event_type@ == entries_for(log, id)[k].payload.type_tag()
            },
{
    lemma_entries_for_tags(log, id);
}

/// What an append of `events` for aggregate `id` at `expected_version` does
/// to log `before`, giving log `after` and result `r`. When the aggregate is
/// at that version, the events are stored in order under the next versions
/// and positions and returned as envelopes. Otherwise a conflict is reported
/// and nothing is written.
pub open spec fn appended<E>(
    before: Seq<Entry<E>>,
    after: Seq<Entry<E>>,
    id: Seq<char>,
    expected_version: u64,
    events: Seq<E>,
    timestamp: u64,
    r: Result<Vec<Entry<E>>, ConcurrencyConflict>,
) -> bool {
    match r {
        Ok(new) => {
            &&& expected_version == version_of(before, id)
            &&& after == before + new@
            &&& new@.len() == events.len()
            &&& forall|k: int|
                0 <= k < new@.len() ==> {
                    &&& (#[trigger] new@[k]).version == expected_version + k + 1
                    &&& new@[k].position == before.len() + k + 1
                    &&& new@[k].aggregate_id@ == id
                    &&& new@[k].payload == events[k]
                    &&& new@[k].timestamp == timestamp
                }
            &&& entries_for(after, id) == entries_for(before, id) + new@
        },
        Err(c) => {
            &&& expected_version != version_of(before, id)
            &&& c.expected == expected_version
            &&& c.actual == version_of(before, id)
            &&& after == before
        },
    }
}

/// Appending k events to an aggregate at version v gives envelopes with
/// versions v+1, ..., v+k in the order of the events. The aggregate's history
/// then runs 1, ..., v+k with no gap, and positions keep increasing.
pub proof fn lemma_append_numbers_versions<E: Event>(
    before: Seq<Entry<E>>,
    after: Seq<Entry<E>>,
    id: Seq<char>,
    expected_version: u64,
    events: Seq<E>,
    timestamp: u64,
    r: Result<Vec<Entry<E>>, ConcurrencyConflict>,
)
    requires
        log_wf(before),
        log_wf(after),
        appended(before, after, id, expected_version, events, timestamp, r),
        expected_version == version_of(before, id),
    ensures
        r is Ok,
        ({
            let new = r->Ok_0@;
            &&& new.len() == events.len()
            &&& forall|k: int|
                0 <= k < new.len() ==> (#[trigger] new[k]).version == expected_version + k + 1
                    && new[k].payload == events[k]
            &&& version_of(after, id) == expected_version + events.len()
            &&& forall|k: int|
                0 <= k < entries_for(after, id).len() ==> (#[trigger] entries_for(
                    after,
                    id,
                )[k]).version == k + 1
            &&& forall|i: int, j: int|
                0 <= i < j < after.len() ==> after[i].position < after[j].position
        }),
{
    assert forall|i: int, j: int| 0 <= i < j < after.len() implies after[i].position
        < after[j].position by {
        assert(after[i].position == i + 1);
        assert(after[j].position == j + 1);
    }
}

/// An append at a version other than the aggregate's current one fails with
/// a conflict, whatever the events, and leaves the log as it was.
pub proof fn lemma_conflicting_append_writes_nothing<E>(
    before: Seq<Entry<E>>,
    after: Seq<Entry<E>>,
    id: Seq<char>,
    expected_version: u64,
    events: Seq<E>,
    timestamp: u64,
    r: Result<Vec<Entry<E>>, ConcurrencyConflict>,
)
    requires
        appended(before, after, id, expected_version, events, timestamp, r),
        expected_version != version_of(before, id),
    ensures
        r == Err::<Vec<Entry<E>>, ConcurrencyConflict>(
            ConcurrencyConflict { expected: expected_version, actual: version_of(before, id) as u64 },
        ),
        after == before,
{
}

/// An in-memory, append-only event log shared by all aggregates of one type.
pub struct EventStore<E> {
    entries: Vec<Entry<E>>,
}

impl<E> View for EventStore<E> {
    type V = Seq<Entry<E>>;

    closed spec fn view(&self) -> Seq<Entry<E>> {
        self.entries@
    }
}

impl<E: Event> EventStore<E> {
    pub open spec fn wf(&self) -> bool {
        log_wf(self@)
    }

    pub fn new() -> (r: EventStore<E>)
        ensures
            r.wf(),
            r@ == Seq::<Entry<E>>::empty(),
    {
        let r = EventStore { entries: Vec::new() };
        proof {
            assert forall|id: Seq<char>, k: int|
                0 <= k < entries_for(r@, id).len() implies (#[trigger] entries_for(
                r@,
                id,
            )[k]).version == k + 1 by {}
        }
        r
    }

    /// Number of envelopes in the whole log.
    pub fn len(&self) -> (r: usize)
        ensures
            r == self@.len(),
    {
        self.entries.len()
    }

    /// The version of the last envelope of aggregate `id`; 0 if it has none.
    pub fn current_version(&self, id: &String) -> (r: u64)
        ensures
            r == version_of(self@, id@),
    {
        let mut n: u64 = 0;
        let mut i: usize = 0;
        while i < self.entries.len()
            invariant
                0 <= i <= self@.len(),
                n <= i,
                n == version_of(self@.take(i as int), id@),
            decreases self@.len() - i,
        {
            proof {
                lemma_entries_for_push(self@.take(i as int), self@[i as int], id@);
                assert(self@.take(i as int).push(self@[i as int]) =~= self@.take(i + 1));
            }
            if self.entries[i].aggregate_id == *id {
                n = n + 1;
            }
            i += 1;
        }
        proof {
            assert(self@.take(i as int) =~= self@);
        }
        n
    }

    /// All envelopes of aggregate `id`, in ascending version order; empty for
    /// an id never seen.
    pub fn load(&self, id: &String) -> (r: Vec<Entry<E>>)
        ensures
            r@ == entries_for(self@, id@),
    {
        let mut r: Vec<Entry<E>> = Vec::new();
        let mut i: usize = 0;
        while i < self.entries.len()
            invariant
                0 <= i <= self@.len(),
                r@ == entries_for(self@.take(i as int), id@),
            decreases self@.len() - i,
        {
            proof {
                lemma_entries_for_push(self@.take(i as int), self@[i as int], id@);
                assert(self@.take(i as int).push(self@[i as int]) =~= self@.take(i + 1));
            }
            if self.entries[i].aggregate_id == *id {
                r.push(self.entries[i].duplicate());
            }
            i += 1;
        }
        proof {
            assert(self@.take(i as int) =~= self@);
        }
        r
    }

    /// Appends `events` for aggregate `id`, provided the aggregate is still at
    /// `expected_version`. They take versions `expected_version + 1`, ... and
    /// the next global positions; the new envelopes are returned. On a
    /// version mismatch nothing is written.
    pub fn append(
        &mut self,
        id: &String,
        expected_version: u64,
        events: Vec<E>,
        timestamp: u64,
    ) -> (r: Result<Vec<Entry<E>>, ConcurrencyConflict>)
        requires
            old(self).wf(),
            old(self)@.len() + events@.len() < u64::MAX,
        ensures
            final(self).wf(),
            appended(old(self)@, final(self)@, id@, expected_version, events@, timestamp, r),
    {
        let actual = self.current_version(id);
        if actual != expected_version {
            return Err(ConcurrencyConflict { expected: expected_version, actual });
        }
        let ghost start = self@;
        let mut events = events;
        let ghost todo = events@;
        let mut new: Vec<Entry<E>> = Vec::new();
        let mut k: u64 = 0;
        let mut version: u64 = expected_version;
        while events.len() > 0
            invariant
                self.wf(),
                k == new@.len(),
                k + events@.len() == todo.len(),
                events@ == todo.subrange(k as int, todo.len() as int),
                version == expected_version + k,
                version == version_of(self@, id@),
                start.len() + todo.len() < u64::MAX,
                self@ == start + new@,
                entries_for(self@, id@) == entries_for(start, id@) + new@,
                forall|j: int|
                    0 <= j < new@.len() ==> {
                        &&& (#[trigger] new@[j]).version == expected_version + j + 1
                        &&& new@[j].position == start.len() + j + 1
                        &&& new@[j].aggregate_id@ == id@
                        &&& new@[j].payload == todo[j]
                        &&& new@[j].timestamp == timestamp
                    },
            decreases events@.len(),
        {
            proof {
                lemma_entries_for_len(self@, id@);
            }
            let e = events.remove(0);
            let position = self.entries.len() as u64 + 1;
            version = version + 1;
            let entry = Entry::new(position, version, id.clone(), e, timestamp);
            proof {
                lemma_push_keeps_wf(self@, entry);
                lemma_entries_for_push(self@, entry, id@);
            }
            new.push(entry.duplicate());
            self.entries.push(entry);
            k = k + 1;
            proof {
                assert(events@ =~= todo.subrange(k as int, todo.len() as int));
                assert(self@ =~= start + new@);
            }
        }
        Ok(new)
    }
}

} // verus!
