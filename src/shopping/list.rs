use vstd::prelude::*;
use crate::es::event::{CorruptLog, Entry, Event};
use crate::store::{
    entries_for, lemma_aggregate_log_in_sequence, log_wf, ConcurrencyConflict, EventStore,
};

verus! {

/// Abstract state of a shopping list: identity, name and version.
pub struct ListModel {
    pub id: Seq<char>,
    pub name: Seq<char>,
    pub version: nat,
}

/// Abstract value of a shopping-list event.
pub enum ListEventModel {
    Created { id: Seq<char>, name: Seq<char> },
    Renamed { former: Seq<char>, new: Seq<char> },
}

/// The state before any event: empty id, empty name, version 0.
pub open spec fn zero_list() -> ListModel {
    ListModel { id: Seq::empty(), name: Seq::empty(), version: 0 }
}

/// One reducer step: the event sets the fields it carries, and the state
/// moves to the next version.
pub open spec fn apply_event(l: ListModel, e: ListEventModel) -> ListModel {
    match e {
        ListEventModel::Created { id, name } => ListModel { id, name, version: l.version + 1 },
        ListEventModel::Renamed { new, .. } => ListModel {
            id: l.id,
            name: new,
            version: l.version + 1,
        },
    }
}

/// Folds `events` in order from the zero state.
pub open spec fn fold_events(events: Seq<ListEventModel>) -> ListModel
    decreases events.len(),
{
    if events.len() == 0 {
        zero_list()
    } else {
        apply_event(fold_events(events.drop_last()), events.last())
    }
}

/// The version of a folded list is the number of events applied, which is
/// the version of the last one.
pub proof fn lemma_fold_version(events: Seq<ListEventModel>)
    ensures
        fold_events(events).version == events.len(),
    decreases events.len(),
{
    if events.len() > 0 {
        lemma_fold_version(events.drop_last());
    }
}

/// Events that a creation command emits.
pub open spec fn create_events(id: Seq<char>, name: Seq<char>) -> Seq<ListEventModel> {
    seq![ListEventModel::Created { id, name }]
}

/// Events that a rename command emits: none when the name would not change.
pub open spec fn rename_events(current: ListModel, new: Seq<char>) -> Seq<ListEventModel> {
    if new == current.name {
        Seq::empty()
    } else {
        seq![ListEventModel::Renamed { former: current.name, new }]
    }
}

/// Abstract values of a sequence of events.
pub open spec fn events_view(events: Seq<ListEvent>) -> Seq<ListEventModel> {
    events.map_values(|e: ListEvent| e@)
}

/// What handling `command` against `current` emits.
pub open spec fn decide(current: ListModel, command: ListCommand) -> Seq<ListEventModel> {
    match command {
        ListCommand::Create(c) => create_events(c.id@, c.name@),
        ListCommand::Rename(c) => rename_events(current, c.new@),
    }
}

/// Abstract value of a command result: the emitted events, or `None` on failure.
pub open spec fn outcome(r: Result<Vec<ListEvent>, ValidationError>) -> Option<
    Seq<ListEventModel>,
> {
    match r {
        Ok(v) => Some(events_view(v@)),
        Err(_) => None,
    }
}

/// The envelope at `i` carries version `i + 1` and a tag matching its payload.
pub open spec fn entry_ok(e: Entry<ListEvent>, i: int) -> bool {
    &&& e.version == i + 1
    &&& e.event_type@ == e.payload.type_tag()
}

pub open spec fn log_ok(log: Seq<Entry<ListEvent>>) -> bool {
    forall|i: int| 0 <= i < log.len() ==> #[trigger] entry_ok(log[i], i)
}

/// Abstract values of the payloads of a log.
pub open spec fn payloads(log: Seq<Entry<ListEvent>>) -> Seq<ListEventModel> {
    log.map_values(|e: Entry<ListEvent>| e.payload@)
}

/// What replaying `log` gives: the folded state of a well-formed log, or
/// the first envelope that breaks it.
pub open spec fn replayed(log: Seq<Entry<ListEvent>>, r: Result<List, CorruptLog>) -> bool {
    match r {
        Ok(l) => log_ok(log) && l@ == fold_events(payloads(log)),
        Err(e) => {
            &&& e.index < log.len()
            &&& !entry_ok(log[e.index as int], e.index as int)
            &&& forall|i: int| 0 <= i < e.index ==> #[trigger] entry_ok(log[i], i)
        },
    }
}

/// A shopping list, as rebuilt from its events.
#[derive(Debug, Clone, PartialEq, Eq)]
pub struct List {
    pub id: String,
    pub name: String,
    /// Version of the last applied event; 0 if none.
    pub version: u64,
}

impl View for List {
    type V = ListModel;

    open spec fn view(&self) -> ListModel {
        ListModel { id: self.id@, name: self.name@, version: self.version as nat }
    }
}

#[derive(Debug, Clone, PartialEq, Eq)]
pub struct CustomerCreatedList {
    pub id: String,
    pub name: String,
}

#[derive(Debug, Clone, PartialEq, Eq)]
pub struct CustomerRenamedList {
    pub former: String,
    pub new: String,
}

/// The closed set of events of a shopping list.
#[derive(Debug, Clone, PartialEq, Eq)]
pub enum ListEvent {
    CustomerCreatedList(CustomerCreatedList),
    CustomerRenamedList(CustomerRenamedList),
}

impl View for ListEvent {
    type V = ListEventModel;

    open spec fn view(&self) -> ListEventModel {
        match self {
            ListEvent::CustomerCreatedList(e) => ListEventModel::Created {
                id: e.id@,
                name: e.name@,
            },
            ListEvent::CustomerRenamedList(e) => ListEventModel::Renamed {
                former: e.former@,
                new: e.new@,
            },
        }
    }
}

/// Command: create a list with a caller-chosen id.
#[derive(Debug, Clone, PartialEq, Eq)]
pub struct CustomerCreateList {
    pub id: String,
    pub name: String,
}

/// Command: give the list a new name.
#[derive(Debug, Clone, PartialEq, Eq)]
pub struct CustomerRenameList {
    pub new: String,
}

/// Any command on a shopping list.
#[derive(Debug, Clone, PartialEq, Eq)]
pub enum ListCommand {
    Create(CustomerCreateList),
    Rename(CustomerRenameList),
}

/// A command whose preconditions do not hold. No shopping-list command has
/// such preconditions yet, so the handlers never return it.
#[derive(Debug, Clone, PartialEq, Eq)]
pub struct ValidationError {
    pub message: String,
}

impl Default for List {
    fn default() -> (r: List)
        ensures
            r@ == zero_list(),
    {
        List { id: String::new(), name: String::new(), version: 0 }
    }
}

impl List {
    /// Decides a creation: one `CustomerCreatedList` with the command's id and name.
    pub fn create(&self, event: CustomerCreateList) -> (r: Result<Vec<ListEvent>, ValidationError>)
        ensures
            outcome(r) == Some(create_events(event.id@, event.name@)),
    {
        let mut v: Vec<ListEvent> = Vec::new();
        v.push(
            ListEvent::CustomerCreatedList(CustomerCreatedList { id: event.id, name: event.name }),
        );
        proof {
            assert(events_view(v@) =~= create_events(event.id@, event.name@));
        }
        Ok(v)
    }

    /// Decides a rename: nothing when the name is already the current one,
    /// else one `CustomerRenamedList` from the current name to the new one.
    pub fn rename(&self, event: CustomerRenameList) -> (r: Result<Vec<ListEvent>, ValidationError>)
        ensures
            outcome(r) == Some(rename_events(self@, event.new@)),
    {
        let mut v: Vec<ListEvent> = Vec::new();
        if event.new == self.name {
            proof {
                assert(events_view(v@) =~= rename_events(self@, event.new@));
            }
            return Ok(v);
        }
        v.push(
            ListEvent::CustomerRenamedList(
                CustomerRenamedList { former: self.name.clone(), new: event.new },
            ),
        );
        proof {
            assert(events_view(v@) =~= rename_events(self@, event.new@));
        }
        Ok(v)
    }

    /// Handles any command against the current state.
    pub fn handle(&self, command: ListCommand) -> (r: Result<Vec<ListEvent>, ValidationError>)
        ensures
            outcome(r) == Some(decide(self@, command)),
    {
        match command {
            ListCommand::Create(c) => self.create(c),
            ListCommand::Rename(c) => self.rename(c),
        }
    }
}

impl CustomerCreateList {
    pub fn handle(self, list: &List) -> (r: Result<Vec<ListEvent>, ValidationError>)
        ensures
            outcome(r) == Some(create_events(self.id@, self.name@)),
    {
        list.create(self)
    }
}

impl CustomerRenameList {
    pub fn handle(self, list: &List) -> (r: Result<Vec<ListEvent>, ValidationError>)
        ensures
            outcome(r) == Some(rename_events(list@, self.new@)),
    {
        list.rename(self)
    }
}

impl ListEvent {
    /// The reducer: applies this event to `aggregate` and advances its
    /// version by one.
    pub fn apply(&self, aggregate: &mut List)
        requires
            old(aggregate).version < u64::MAX,
        ensures
            final(aggregate)@ == apply_event(old(aggregate)@, self@),
    {
        aggregate.version = aggregate.version + 1;
        match self {
            ListEvent::CustomerCreatedList(e) => {
                aggregate.id = e.id.clone();
                aggregate.name = e.name.clone();
            },
            ListEvent::CustomerRenamedList(e) => {
                aggregate.name = e.new.clone();
            },
        }
    }
}

impl Event for ListEvent {
    open spec fn type_tag(&self) -> Seq<char> {
        match self {
            ListEvent::CustomerCreatedList(_) => "CustomerCreatedList"@,
            ListEvent::CustomerRenamedList(_) => "CustomerRenamedList"@,
        }
    }

    fn event_type(&self) -> (r: String) {
        match self {
            ListEvent::CustomerCreatedList(_) => "CustomerCreatedList".to_owned(),
            ListEvent::CustomerRenamedList(_) => "CustomerRenamedList".to_owned(),
        }
    }

    fn duplicate(&self) -> (r: ListEvent) {
        match self {
            ListEvent::CustomerCreatedList(e) => ListEvent::CustomerCreatedList(
                CustomerCreatedList { id: e.id.clone(), name: e.name.clone() },
            ),
            ListEvent::CustomerRenamedList(e) => ListEvent::CustomerRenamedList(
                CustomerRenamedList { former: e.former.clone(), new: e.new.clone() },
            ),
        }
    }
}

impl ListEvent {
    /// Whether two events carry the same variant and field values.
    pub fn same_as(&self, other: &ListEvent) -> (r: bool)
        ensures
            r == (self@ == other@),
    {
        match (self, other) {
            (ListEvent::CustomerCreatedList(a), ListEvent::CustomerCreatedList(b)) => a.id == b.id
                && a.name == b.name,
            (ListEvent::CustomerRenamedList(a), ListEvent::CustomerRenamedList(b)) => a.former
                == b.former && a.new == b.new,
            _ => false,
        }
    }
}

impl List {
    /// Folds `events` from the zero state; the n-th event brings version n.
    pub fn from_events(events: &Vec<ListEvent>) -> (r: List)
        ensures
            r@ == fold_events(events_view(events@)),
    {
        let mut l = List::default();
        let mut i: usize = 0;
        while i < events.len()
            invariant
                0 <= i <= events.len(),
                l@ == fold_events(events_view(events@).take(i as int)),
            decreases events.len() - i,
        {
            proof {
                lemma_fold_version(events_view(events@).take(i as int));
            }
            events[i].apply(&mut l);
            proof {
                assert(events_view(events@).take(i + 1).drop_last() =~= events_view(events@).take(
                    i as int,
                ));
            }
            i += 1;
        }
        proof {
            assert(events_view(events@).take(events.len() as int) =~= events_view(events@));
        }
        l
    }

    /// Rebuilds the list from its envelopes, in ascending version order.
    /// Fails on the first envelope whose version is not its place in the log
    /// plus one, or whose tag does not match its payload.
    pub fn replay(log: &Vec<Entry<ListEvent>>) -> (r: Result<List, CorruptLog>)
        ensures
            replayed(log@, r),
    {
        let mut l = List::default();
        let mut i: usize = 0;
        while i < log.len()
            invariant
                0 <= i <= log.len(),
                forall|j: int| 0 <= j < i ==> #[trigger] entry_ok(log@[j], j),
                l@ == fold_events(payloads(log@).take(i as int)),
            decreases log.len() - i,
        {
            let e = &log[i];
            let tag = e.payload.event_type();
            if e.version != i as u64 + 1 || !(e.event_type == tag) {
                return Err(CorruptLog { index: i });
            }
            proof {
                lemma_fold_version(payloads(log@).take(i as int));
            }
            e.payload.apply(&mut l);
            proof {
                assert(payloads(log@).take(i + 1).drop_last() =~= payloads(log@).take(i as int));
            }
            i += 1;
        }
        proof {
            assert(payloads(log@).take(log.len() as int) =~= payloads(log@));
        }
        Ok(l)
    }
}

/// A creation emits exactly one event, carrying the command's id and name, and
/// replaying it alone gives a list with that id and name at version 1.
pub proof fn lemma_create_replays_to_command(id: Seq<char>, name: Seq<char>)
    ensures
        create_events(id, name).len() == 1,
        create_events(id, name)[0] == (ListEventModel::Created { id, name }),
        fold_events(create_events(id, name)) == (ListModel { id, name, version: 1 }),
{
    let d = create_events(id, name);
    assert(d.drop_last() =~= Seq::<ListEventModel>::empty());
    assert(fold_events(d.drop_last()) == zero_list());
    assert(d.last() == (ListEventModel::Created { id, name }));
}

/// Renaming a list to the name it already has emits no event, so replaying
/// the prior events followed by that delta changes nothing.
pub proof fn lemma_rename_same_name_is_noop(prior: Seq<ListEventModel>, new: Seq<char>)
    requires
        new == fold_events(prior).name,
    ensures
        rename_events(fold_events(prior), new) == Seq::<ListEventModel>::empty(),
        fold_events(prior + rename_events(fold_events(prior), new)) == fold_events(prior),
{
    assert(prior + Seq::<ListEventModel>::empty() =~= prior);
}

/// Renaming a list to a different name emits one event from the current name
/// to the new one; replaying it gives the new name, the same id and the next
/// version.
pub proof fn lemma_rename_changes_name(prior: Seq<ListEventModel>, new: Seq<char>)
    requires
        new != fold_events(prior).name,
    ensures
        ({
            let cur = fold_events(prior);
            let d = rename_events(cur, new);
            &&& d.len() == 1
            &&& d[0] == (ListEventModel::Renamed { former: cur.name, new })
            &&& fold_events(prior + d).name == new
            &&& fold_events(prior + d).id == cur.id
            &&& fold_events(prior + d).version == prior.len() + 1
        }),
{
    let d = rename_events(fold_events(prior), new);
    assert((prior + d).drop_last() =~= prior);
    lemma_fold_version(prior);
}

/// A list's identity is set once: a history that opens with a creation and
/// goes on with renames only keeps the id of that creation.
pub proof fn lemma_identity_fixed_by_creation(events: Seq<ListEventModel>)
    requires
        events.len() > 0,
        events[0] is Created,
        forall|i: int| 1 <= i < events.len() ==> #[trigger] events[i] is Renamed,
    ensures
        match events[0] {
            ListEventModel::Created { id, .. } => fold_events(events).id == id,
            _ => false,
        },
    decreases events.len(),
{
    if events.len() > 1 {
        let prev = events.drop_last();
        assert forall|i: int| 1 <= i < prev.len() implies #[trigger] prev[i] is Renamed by {
            assert(prev[i] == events[i]);
        }
        lemma_identity_fixed_by_creation(prev);
        assert(events.last() == events[events.len() - 1]);
    } else {
        assert(events.drop_last() =~= Seq::<ListEventModel>::empty());
    }
}

/// Replay is a function of the log: two replays of one log give the same
/// list, or fail at the same envelope.
pub proof fn lemma_replay_deterministic(
    log: Seq<Entry<ListEvent>>,
    first: Result<List, CorruptLog>,
    second: Result<List, CorruptLog>,
)
    requires
        replayed(log, first),
        replayed(log, second),
    ensures
        match (first, second) {
            (Ok(a), Ok(b)) => a@ == b@,
            (Err(a), Err(b)) => a == b,
            _ => false,
        },
{
    match (first, second) {
        (Ok(a), Err(e)) => {
            assert(entry_ok(log[e.index as int], e.index as int));
        },
        (Err(e), Ok(b)) => {
            assert(entry_ok(log[e.index as int], e.index as int));
        },
        (Err(a), Err(b)) => {
            if a.index < b.index {
                assert(entry_ok(log[a.index as int], a.index as int));
            } else if b.index < a.index {
                assert(entry_ok(log[b.index as int], b.index as int));
            }
        },
        _ => {},
    }
}

/// Whatever a well-formed store holds for an aggregate replays without error.
pub proof fn lemma_stored_log_replays(log: Seq<Entry<ListEvent>>, id: Seq<char>)
    requires
        log_wf(log),
    ensures
        log_ok(entries_for(log, id)),
{
    lemma_aggregate_log_in_sequence(log, id);
    let s = entries_for(log, id);
    assert forall|i: int| 0 <= i < s.len() implies #[trigger] entry_ok(s[i], i) by {}
}

/// Why one load-decide-append cycle failed.
#[derive(Debug, Clone, PartialEq, Eq)]
pub enum ExecuteError {
    Validation(ValidationError),
    Conflict(ConcurrencyConflict),
    Corrupt(CorruptLog),
}

/// Runs one command against list `id` in `store`: loads its envelopes,
/// replays them, handles the command, and appends what it emits at the
/// version that was read. Returns the new envelopes.
pub fn execute(
    store: &mut EventStore<ListEvent>,
    id: &String,
    command: ListCommand,
    timestamp: u64,
) -> (r: Result<Vec<Entry<ListEvent>>, ExecuteError>)
    requires
        old(store).wf(),
        old(store)@.len() + 1 < u64::MAX,
    ensures
        final(store).wf(),
        match r {
            Ok(new) => {
                &&& payloads(new@) == decide(
                    fold_events(payloads(entries_for(old(store)@, id@))),
                    command,
                )
                &&& final(store)@ == old(store)@ + new@
                &&& forall|k: int|
                    0 <= k < new@.len() ==> (#[trigger] new@[k]).version == entries_for(
                        old(store)@,
                        id@,
                    ).len() + k + 1
            },
            Err(_) => false,
        },
{
    let log = store.load(id);
    proof {
        lemma_stored_log_replays(store@, id@);
    }
    let list = match List::replay(&log) {
        Ok(l) => l,
        Err(e) => return Err(ExecuteError::Corrupt(e)),
    };
    proof {
        lemma_fold_version(payloads(log@));
    }
    let ghost cmd = command;
    let events = match list.handle(command) {
        Ok(v) => v,
        Err(e) => return Err(ExecuteError::Validation(e)),
    };
    let ghost evs = events@;
    assert(events_view(evs).len() == evs.len());
    match store.append(id, list.version, events, timestamp) {
        Ok(new) => {
            proof {
                assert(payloads(new@) =~= events_view(evs));
            }
            Ok(new)
        },
        Err(c) => Err(ExecuteError::Conflict(c)),
    }
}

/// Result of handling one command in a given/when/then check.
pub struct ListThen {
    pub result: Result<Vec<ListEvent>, ValidationError>,
}

/// Given/when/then harness: folds prior events, handles one command, and
/// compares what came out with what was expected. Nothing is stored.
pub struct ListTestFramework {
    pub aggregate: List,
}

impl ListTestFramework {
    pub fn given_no_previous_events() -> (r: ListTestFramework)
        ensures
            r.aggregate@ == zero_list(),
    {
        ListTestFramework { aggregate: List::default() }
    }

    pub fn given(events: Vec<ListEvent>) -> (r: ListTestFramework)
        ensures
            r.aggregate@ == fold_events(events_view(events@)),
    {
        ListTestFramework { aggregate: List::from_events(&events) }
    }

    pub fn when(self, command: ListCommand) -> (r: ListThen)
        ensures
            outcome(r.result) == Some(decide(self.aggregate@, command)),
    {
        ListThen { result: self.aggregate.handle(command) }
    }
}

impl ListThen {
    /// Whether handling succeeded with exactly `expected`: same length, same
    /// order, same field values.
    pub fn then_expect_events(&self, expected: Vec<ListEvent>) -> (r: bool)
        ensures
            r == (outcome(self.result) == Some(events_view(expected@))),
    {
        match &self.result {
            Err(_) => false,
            Ok(v) => {
                if v.len() != expected.len() {
                    proof {
                        assert(events_view(v@).len() != events_view(expected@).len());
                    }
                    return false;
                }
                let mut i: usize = 0;
                while i < v.len()
                    invariant
                        0 <= i <= v.len(),
                        v.len() == expected.len(),
                        outcome(self.result) == Some(events_view(v@)),
                        forall|j: int| 0 <= j < i ==> v@[j]@ == #[trigger] expected@[j]@,
                    decreases v.len() - i,
                {
                    if !v[i].same_as(&expected[i]) {
                        proof {
                            assert(events_view(v@)[i as int] != events_view(expected@)[i as int]);
                            assert(events_view(v@) != events_view(expected@));
                        }
                        return false;
                    }
                    i += 1;
                }
                proof {
                    assert(events_view(v@) =~= events_view(expected@));
                }
                true
            },
        }
    }

    /// Whether handling failed.
    pub fn then_expect_error(&self) -> (r: bool)
        ensures
            r == (outcome(self.result) is None),
    {
        self.result.is_err()
    }
}

} // verus!
