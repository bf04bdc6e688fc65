use vstd::prelude::*;

verus! {

/// A domain event: immutable value data carrying a stable type tag.
pub trait Event: Sized {
    /// The tag that identifies the variant of this payload.
    spec fn type_tag(&self) -> Seq<char>;

    fn event_type(&self) -> (r: String)
        ensures
            r@ == self.type_tag(),
    ;

    /// An owned copy of the event.
    fn duplicate(&self) -> (r: Self)
        ensures
            r == *self,
    ;
}

/// An envelope: one stored event with its ordering metadata.
#[derive(Debug, Clone, PartialEq, Eq)]
pub struct Entry<E> {
    /// Global, strictly increasing sequence number.
    pub position: u64,
    /// Per-aggregate sequence number, starting at 1.
    pub version: u64,
    pub aggregate_id: String,
    /// Tag of the payload's variant.
    pub event_type: String,
    pub payload: E,
    /// Instant of the append, as supplied by the caller.
    pub timestamp: u64,
}

impl<E: Event> Entry<E> {
    pub fn new(
        position: u64,
        version: u64,
        aggregate_id: String,
        payload: E,
        timestamp: u64,
    ) -> (r: Entry<E>)
        ensures
            r.position == position,
            r.version == version,
            r.aggregate_id == aggregate_id,
            r.event_type@ == payload.type_tag(),
            r.payload == payload,
            r.timestamp == timestamp,
    {
        let event_type = payload.event_type();
        Entry { position, version, aggregate_id, event_type, payload, timestamp }
    }

    pub fn payload(&self) -> (r: &E)
        ensures
            *r == self.payload,
    {
        &self.payload
    }

    /// An owned copy of the envelope.
    pub fn duplicate(&self) -> (r: Entry<E>)
        ensures
            r == *self,
    {
        Entry {
            position: self.position,
            version: self.version,
            aggregate_id: self.aggregate_id.clone(),
            event_type: self.event_type.clone(),
            payload: self.payload.duplicate(),
            timestamp: self.timestamp,
        }
    }
}

/// A log that cannot be replayed: the envelope at `index` has a version out
/// of sequence, or a type tag that does not match its payload.
#[derive(Debug, Clone, Copy, PartialEq, Eq)]
pub struct CorruptLog {
    pub index: usize,
}

/// A fold step: combines an aggregate, the aggregate's id and one event into
/// the next aggregate.
pub trait Reducer<E>: Sized + View {
    spec fn reduced(self, id: Seq<char>, e: E) -> Self::V;

    fn apply(self, id: &str, e: E) -> (r: Self)
        ensures
            r@ == self.reduced(id@, e),
    ;
}

} // verus!
