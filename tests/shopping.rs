use shopping_es::es::event::{Event, Reducer};
use shopping_es::shopping::{EventEntry, List, ListCreated, ListRenamed};

#[test]
fn it_adds_items() {
    let l = List::new()
        .apply(
            "list-uuid-1",
            ListCreated::new(&"list-uuid-1", &"List name"),
        )
        .apply("list-uuid-1", ListRenamed::new(&"List new name"));
    println!("{:?}", l);
    assert_eq!(2 + 2, 4);
    assert_eq!(l.id, "list-uuid-1");
    assert_eq!(l.name, "List new name");
}

#[test]
fn creation_takes_the_id_of_the_event() {
    let l = List::new().apply("from-reducer", ListCreated::new("from-event", "n"));
    assert_eq!(l.id, "from-event");
    assert_eq!(l.name, "n");
}

#[test]
fn entries_carry_the_payload_tag() {
    let e = EventEntry::new(1, 1, "x".to_string(), ListRenamed::new("n"), 5);
    assert_eq!(e.event_type, "ListRenamed");
    assert_eq!(e.payload().name, "n");
    assert_eq!(ListCreated::new("a", "b").event_type(), "ListCreated");
}
