use shopping_es::shopping::list::{
    execute, CustomerCreateList, CustomerCreatedList, CustomerRenameList, CustomerRenamedList,
    List, ListCommand, ListEvent,
};
use shopping_es::store::{ConcurrencyConflict, EventStore};

fn created(id: &str, name: &str) -> ListEvent {
    ListEvent::CustomerCreatedList(CustomerCreatedList {
        id: id.to_string(),
        name: name.to_string(),
    })
}

fn renamed(former: &str, new: &str) -> ListEvent {
    ListEvent::CustomerRenamedList(CustomerRenamedList {
        former: former.to_string(),
        new: new.to_string(),
    })
}

#[test]
fn load_of_an_unknown_id_is_empty() {
    let store: EventStore<ListEvent> = EventStore::new();
    assert!(store.load(&"nobody".to_string()).is_empty());
    assert_eq!(store.current_version(&"nobody".to_string()), 0);
}

#[test]
fn append_numbers_versions_without_gaps() {
    let mut store: EventStore<ListEvent> = EventStore::new();
    let id = "list-uuid-1".to_string();
    let first = store.append(&id, 0, vec![created("list-uuid-1", "a")], 10).unwrap();
    assert_eq!(first.len(), 1);
    assert_eq!((first[0].version, first[0].position, first[0].timestamp), (1, 1, 10));
    let more = store
        .append(&id, 1, vec![renamed("a", "b"), renamed("b", "c"), renamed("c", "d")], 20)
        .unwrap();
    let versions: Vec<u64> = more.iter().map(|e| e.version).collect();
    assert_eq!(versions, vec![2, 3, 4]);
    let positions: Vec<u64> = more.iter().map(|e| e.position).collect();
    assert_eq!(positions, vec![2, 3, 4]);
    assert_eq!(more[2].payload, renamed("c", "d"));
    assert_eq!(more[2].event_type, "CustomerRenamedList");
    assert_eq!(store.current_version(&id), 4);
    assert_eq!(store.load(&id).len(), 4);
}

#[test]
fn versions_are_per_aggregate_and_positions_global() {
    let mut store: EventStore<ListEvent> = EventStore::new();
    let a = "a".to_string();
    let b = "b".to_string();
    store.append(&a, 0, vec![created("a", "x")], 1).unwrap();
    let nb = store.append(&b, 0, vec![created("b", "y")], 2).unwrap();
    assert_eq!((nb[0].version, nb[0].position), (1, 2));
    let na = store.append(&a, 1, vec![renamed("x", "z")], 3).unwrap();
    assert_eq!((na[0].version, na[0].position), (2, 3));
    let la = store.load(&a);
    assert_eq!(la.len(), 2);
    assert_eq!(la[1].payload, renamed("x", "z"));
    assert_eq!(store.load(&b)[0].aggregate_id, "b");
    assert_eq!(store.len(), 3);
}

#[test]
fn append_at_a_stale_version_conflicts_and_writes_nothing() {
    let mut store: EventStore<ListEvent> = EventStore::new();
    let id = "list-uuid-1".to_string();
    store.append(&id, 0, vec![created("list-uuid-1", "a")], 1).unwrap();
    let r = store.append(&id, 0, vec![renamed("a", "b"), renamed("b", "c")], 2);
    assert_eq!(
        r,
        Err(ConcurrencyConflict {
            expected: 0,
            actual: 1
        })
    );
    let r = store.append(&id, 5, vec![renamed("a", "b")], 2);
    assert_eq!(
        r,
        Err(ConcurrencyConflict {
            expected: 5,
            actual: 1
        })
    );
    assert_eq!(store.len(), 1);
    assert_eq!(store.current_version(&id), 1);
}

#[test]
fn execute_runs_a_whole_cycle() {
    let mut store: EventStore<ListEvent> = EventStore::new();
    let id = "list-uuid-1".to_string();
    let created_env = execute(
        &mut store,
        &id,
        ListCommand::Create(CustomerCreateList {
            id: "list-uuid-1".to_string(),
            name: "List name".to_string(),
        }),
        100,
    )
    .unwrap();
    assert_eq!(created_env[0].payload, created("list-uuid-1", "List name"));
    let same = execute(
        &mut store,
        &id,
        ListCommand::Rename(CustomerRenameList {
            new: "List name".to_string(),
        }),
        101,
    )
    .unwrap();
    assert!(same.is_empty());
    let changed = execute(
        &mut store,
        &id,
        ListCommand::Rename(CustomerRenameList {
            new: "New list name".to_string(),
        }),
        102,
    )
    .unwrap();
    assert_eq!(changed[0].payload, renamed("List name", "New list name"));
    assert_eq!(changed[0].version, 2);
    let list = List::replay(&store.load(&id)).unwrap();
    assert_eq!(list.name, "New list name");
    assert_eq!(list.version, 2);
}
