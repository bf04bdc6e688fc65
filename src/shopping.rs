//! Shopping lists. `list` holds the aggregate with its commands; this module
//! holds a smaller form of the list whose reducer takes the aggregate's id
//! beside each event.

pub mod list;

use vstd::prelude::*;
pub use crate::es::event::Entry as EventEntry;
pub use crate::es::event::Event;
use crate::es::event::Reducer;

verus! {

/// A list that keeps only its identity and its name.
#[derive(Debug)]
pub struct List {
    pub id: String,
    pub name: String,
}

impl View for List {
    type V = (Seq<char>, Seq<char>);

    open spec fn view(&self) -> (Seq<char>, Seq<char>) {
        (self.id@, self.name@)
    }
}

impl List {
    /// The list before any event: empty id and name.
    pub fn new() -> (r: List)
        ensures
            r@ == (Seq::<char>::empty(), Seq::<char>::empty()),
    {
        List { id: String::new(), name: String::new() }
    }
}

/// A list came into being under a name.
pub struct ListCreated {
    pub id: String,
    pub name: String,
}

impl ListCreated {
    pub fn new(id: &str, name: &str) -> (r: ListCreated)
        ensures
            r.id@ == id@,
            r.name@ == name@,
    {
        ListCreated { id: id.to_owned(), name: name.to_owned() }
    }
}

/// A list took a new name.
pub struct ListRenamed {
    pub name: String,
}

impl ListRenamed {
    pub fn new(name: &str) -> (r: ListRenamed)
        ensures
            r.name@ == name@,
    {
        ListRenamed { name: name.to_owned() }
    }
}

impl Event for ListCreated {
    open spec fn type_tag(&self) -> Seq<char> {
        "ListCreated"@
    }

    fn event_type(&self) -> (r: String) {
        "ListCreated".to_owned()
    }

    fn duplicate(&self) -> (r: ListCreated) {
        ListCreated { id: self.id.clone(), name: self.name.clone() }
    }
}

impl Event for ListRenamed {
    open spec fn type_tag(&self) -> Seq<char> {
        "ListRenamed"@
    }

    fn event_type(&self) -> (r: String) {
        "ListRenamed".to_owned()
    }

    fn duplicate(&self) -> (r: ListRenamed) {
        ListRenamed { name: self.name.clone() }
    }
}

impl Reducer<ListCreated> for List {
    /// Creation sets the identity and the name that the event carries.
    open spec fn reduced(self, id: Seq<char>, e: ListCreated) -> (Seq<char>, Seq<char>) {
        (e.id@, e.name@)
    }

    fn apply(self, id: &str, e: ListCreated) -> (r: List) {
        List { id: e.id, name: e.name }
    }
}

impl Reducer<ListRenamed> for List {
    /// Renaming keeps the identity and takes the new name.
    open spec fn reduced(self, id: Seq<char>, e: ListRenamed) -> (Seq<char>, Seq<char>) {
        (self.id@, e.name@)
    }

    fn apply(self, id: &str, e: ListRenamed) -> (r: List) {
        List { name: e.name, ..self }
    }
}

} // verus!
