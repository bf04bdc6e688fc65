use shopping_es::es::event::{CorruptLog, Entry, Event};
use shopping_es::shopping::list::{
    CustomerCreateList, CustomerCreatedList, CustomerRenameList, CustomerRenamedList, List,
    ListCommand, ListEvent, ListTestFramework,
};

type ShoppingListSuite = ListTestFramework;

fn created(id: &str, name: &str) -> ListEvent {
    ListEvent::CustomerCreatedList(CustomerCreatedList {
        id: id.to_string(),
        name: name.to_string(),
    })
}

fn renamed(former: &str, new: &str) -> ListEvent {
    ListEvent::CustomerRenamedList(CustomerRenamedList {
        former: former.to_string(),
        new: new.to_string(),
    })
}

fn envelope(position: u64, version: u64, event: ListEvent) -> Entry<ListEvent> {
    Entry::new(position, version, "list-uuid-1".to_string(), event, 0)
}

#[test]
fn it_creates_a_list() {
    assert!(ShoppingListSuite::given_no_previous_events()
        .when(ListCommand::Create(CustomerCreateList {
            id: "list-uuid-1".to_string(),
            name: "List name".to_string(),
        }))
        .then_expect_events(vec![ListEvent::CustomerCreatedList(CustomerCreatedList {
            id: "list-uuid-1".to_string(),
            name: "List name".to_string(),
        })]));
}

#[test]
fn it_renames_a_list() {
    assert!(ShoppingListSuite::given(vec![ListEvent::CustomerCreatedList(
        CustomerCreatedList {
            id: "list-uuid-1".to_string(),
            name: "List name".to_string(),
        }
    )])
    .when(ListCommand::Rename(CustomerRenameList {
        new: "New list name".to_string(),
    }))
    .then_expect_events(vec![ListEvent::CustomerRenamedList(CustomerRenamedList {
        former: "List name".to_string(),
        new: "New list name".to_string(),
    })]));
}

#[test]
fn it_does_not_rename_when_got_same_name() {
    assert!(ShoppingListSuite::given(vec![ListEvent::CustomerCreatedList(
        CustomerCreatedList {
            id: "list-uuid-1".to_string(),
            name: "List name".to_string(),
        }
    )])
    .when(ListCommand::Rename(CustomerRenameList {
        new: "List name".to_string(),
    }))
    .then_expect_events(vec![]));
}

#[test]
fn harness_rejects_other_events() {
    let then = ShoppingListSuite::given(vec![created("list-uuid-1", "List name")]).when(
        ListCommand::Rename(CustomerRenameList {
            new: "New list name".to_string(),
        }),
    );
    assert!(!then.then_expect_events(vec![]));
    assert!(!then.then_expect_events(vec![renamed("List name", "Other")]));
    assert!(!then.then_expect_events(vec![created("List name", "New list name")]));
    assert!(!then.then_expect_error());
}

#[test]
fn create_emits_the_command_id_and_name() {
    let list = List::default();
    let r = list.create(CustomerCreateList {
        id: "a".to_string(),
        name: "b".to_string(),
    });
    assert_eq!(r, Ok(vec![created("a", "b")]));
    let replayed = List::from_events(&r.unwrap());
    assert_eq!(replayed.id, "a");
    assert_eq!(replayed.name, "b");
    assert_eq!(replayed.version, 1);
}

#[test]
fn create_on_a_live_list_still_takes_the_command_values() {
    let list = List::from_events(&vec![created("x", "y")]);
    let r = CustomerCreateList {
        id: "".to_string(),
        name: "".to_string(),
    }
    .handle(&list);
    assert_eq!(r, Ok(vec![created("", "")]));
}

#[test]
fn rename_to_a_new_name_keeps_the_id() {
    let list = List::from_events(&vec![created("list-uuid-1", "List name")]);
    let r = CustomerRenameList {
        new: "Groceries".to_string(),
    }
    .handle(&list)
    .unwrap();
    assert_eq!(r, vec![renamed("List name", "Groceries")]);
    let mut history = vec![created("list-uuid-1", "List name")];
    history.extend(r);
    let after = List::from_events(&history);
    assert_eq!(after.id, "list-uuid-1");
    assert_eq!(after.name, "Groceries");
    assert_eq!(after.version, 2);
}

#[test]
fn rename_of_an_empty_list_to_empty_name_is_a_no_op() {
    let list = List::default();
    let r = list.rename(CustomerRenameList { new: String::new() });
    assert_eq!(r, Ok(vec![]));
}

#[test]
fn it_replays_created_then_renamed() {
    let log = vec![
        envelope(1, 1, created("list-uuid-1", "List name")),
        envelope(2, 2, renamed("List name", "New list name")),
    ];
    let list = List::replay(&log).unwrap();
    assert_eq!(list.id, "list-uuid-1");
    assert_eq!(list.name, "New list name");
    assert_eq!(list.version, 2);
}

#[test]
fn replaying_twice_gives_the_same_list() {
    let log = vec![
        envelope(1, 1, created("list-uuid-1", "List name")),
        envelope(2, 2, renamed("List name", "New list name")),
        envelope(3, 3, renamed("New list name", "Third")),
    ];
    assert_eq!(List::replay(&log), List::replay(&log));
}

#[test]
fn replay_of_an_empty_log_is_the_zero_list() {
    let list = List::replay(&vec![]).unwrap();
    assert_eq!(list, List::default());
    assert_eq!(list.id, "");
    assert_eq!(list.name, "");
    assert_eq!(list.version, 0);
}

#[test]
fn replay_reports_a_version_gap() {
    let log = vec![
        envelope(1, 1, created("list-uuid-1", "List name")),
        envelope(2, 3, renamed("List name", "New list name")),
    ];
    assert_eq!(List::replay(&log), Err(CorruptLog { index: 1 }));
}

#[test]
fn replay_reports_a_duplicate_version() {
    let log = vec![
        envelope(1, 1, created("list-uuid-1", "List name")),
        envelope(2, 1, renamed("List name", "New list name")),
    ];
    assert_eq!(List::replay(&log), Err(CorruptLog { index: 1 }));
}

#[test]
fn replay_reports_a_mismatched_tag() {
    let mut e = envelope(1, 1, created("list-uuid-1", "List name"));
    e.event_type = "CustomerRenamedList".to_string();
    assert_eq!(List::replay(&vec![e]), Err(CorruptLog { index: 0 }));
}

#[test]
fn events_carry_stable_tags() {
    assert_eq!(created("a", "b").event_type(), "CustomerCreatedList");
    assert_eq!(renamed("a", "b").event_type(), "CustomerRenamedList");
    let e = envelope(7, 3, renamed("a", "b"));
    assert_eq!(e.event_type, "CustomerRenamedList");
    assert_eq!(e.position, 7);
    assert_eq!(e.version, 3);
    assert_eq!(e.payload(), &renamed("a", "b"));
}

#[test]
fn apply_sets_identity_then_name() {
    let mut l = List::default();
    created("id-1", "first").apply(&mut l);
    assert_eq!((l.id.as_str(), l.name.as_str(), l.version), ("id-1", "first", 1));
    renamed("first", "second").apply(&mut l);
    assert_eq!((l.id.as_str(), l.name.as_str(), l.version), ("id-1", "second", 2));
}

#[test]
fn applying_envelope_payloads_reaches_the_last_version() {
    let log = vec![
        envelope(1, 1, created("list-uuid-1", "List name")),
        envelope(2, 2, renamed("List name", "New list name")),
        envelope(3, 3, renamed("New list name", "Third")),
    ];
    let mut l = List::default();
    for e in &log {
        e.payload().apply(&mut l);
    }
    assert_eq!(l.version, 3);
    assert_eq!(l, List::replay(&log).unwrap());
}

#[test]
fn same_as_compares_variant_and_fields() {
    assert!(created("a", "b").same_as(&created("a", "b")));
    assert!(!created("a", "b").same_as(&created("a", "c")));
    assert!(!created("a", "b").same_as(&renamed("a", "b")));
    assert!(renamed("a", "b").same_as(&renamed("a", "b")));
}
