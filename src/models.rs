use vstd::prelude::*;

verus! {

/// A point in time, in microseconds since 1970-01-01 00:00:00 UTC.
#[derive(Clone, Copy, Debug, PartialEq, Eq, Default)]
pub struct Timestamp {
    pub micros: i64,
}

impl Timestamp {
    /// Whether `self` is no earlier than `other`.
    pub open spec fn not_before(self, other: Timestamp) -> bool {
        self.micros >= other.micros
    }

    pub fn is_not_before(&self, other: &Timestamp) -> (r: bool)
        ensures
            r == self.not_before(*other),
    {
        self.micros >= other.micros
    }
}

/// One row of the outbox table: a unit of work to deliver to the broker.
///
/// A message is pending exactly when `completed_at` is `None`.
#[derive(Clone, Debug, PartialEq, Default)]
pub struct OutboxMessages {
    pub uuid: String,
    pub payload: String,
    pub last_error: Option<String>,
    pub attempts: i32,
    pub exchange: String,
    pub routing_key: String,
    pub metadata: Option<String>,
    pub completed_at: Option<Timestamp>,
    pub failed_at: Option<Timestamp>,
    pub created_at: Timestamp,
    pub updated_at: Timestamp,
}

/// Copies an optional string; the copy equals its source.
fn copy_text(s: &Option<String>) -> (r: Option<String>)
    ensures
        r == *s,
{
    match s {
        Some(t) => Some(t.clone()),
        None => None,
    }
}

impl OutboxMessages {
    /// Whether the message still awaits delivery.
    pub open spec fn is_pending(self) -> bool {
        self.completed_at is None
    }

    pub fn pending(&self) -> (r: bool)
        ensures
            r == self.is_pending(),
    {
        self.completed_at.is_none()
    }

    /// A field-by-field copy of the message.
    pub fn duplicate(&self) -> (r: OutboxMessages)
        ensures
            r == *self,
    {
        OutboxMessages {
            uuid: self.uuid.clone(),
            payload: self.payload.clone(),
            last_error: copy_text(&self.last_error),
            attempts: self.attempts,
            exchange: self.exchange.clone(),
            routing_key: self.routing_key.clone(),
            metadata: copy_text(&self.metadata),
            completed_at: self.completed_at,
            failed_at: self.failed_at,
            created_at: self.created_at,
            updated_at: self.updated_at,
        }
    }
}

} // verus!
