use crate::models::{OutboxMessages, Timestamp};
use vstd::prelude::*;

verus! {

/// Why the message store could not answer (connectivity, a failed query).
#[derive(Clone, Debug, PartialEq)]
pub struct StoreError {
    pub description: String,
}

/// Whether no two rows share an identifier.
pub open spec fn unique_ids(rows: Seq<OutboxMessages>) -> bool {
    forall|i: int, j: int|
        0 <= i < rows.len() && 0 <= j < rows.len() && i != j ==> rows[i].uuid@ != rows[j].uuid@
}

/// Whether some row carries the identifier `id`.
pub open spec fn has_id(rows: Seq<OutboxMessages>, id: Seq<char>) -> bool {
    exists|i: int| 0 <= i < rows.len() && rows[i].uuid@ == id
}

/// The pending rows, in the order in which they are stored.
pub open spec fn pending_of(rows: Seq<OutboxMessages>) -> Seq<OutboxMessages>
    decreases rows.len(),
{
    if rows.len() == 0 {
        Seq::empty()
    } else if rows.last().is_pending() {
        pending_of(rows.drop_last()).push(rows.last())
    } else {
        pending_of(rows.drop_last())
    }
}

/// The rows after the row `id` was marked as delivered at `at`.
pub open spec fn completed(rows: Seq<OutboxMessages>, id: Seq<char>, at: Timestamp) -> Seq<
    OutboxMessages,
> {
    rows.map_values(
        |m: OutboxMessages|
            if m.uuid@ == id {
                OutboxMessages { completed_at: Some(at), ..m }
            } else {
                m
            },
    )
}

/// The rows after a failed delivery of row `id`, with `error`, was recorded at `at`.
pub open spec fn failed(rows: Seq<OutboxMessages>, id: Seq<char>, error: String, at: Timestamp) -> Seq<
    OutboxMessages,
> {
    rows.map_values(
        |m: OutboxMessages|
            if m.uuid@ == id {
                OutboxMessages { last_error: Some(error), failed_at: Some(at), ..m }
            } else {
                m
            },
    )
}

/// A message store held in memory: the rows in insertion order, each
/// identifier at most once.
pub struct MemoryStore {
    rows: Vec<OutboxMessages>,
}

impl View for MemoryStore {
    type V = Seq<OutboxMessages>;

    closed spec fn view(&self) -> Seq<OutboxMessages> {
        self.rows@
    }
}

impl MemoryStore {
    pub closed spec fn wf(&self) -> bool {
        unique_ids(self.rows@)
    }

    pub fn new() -> (r: MemoryStore)
        ensures
            r.wf(),
            r@ == Seq::<OutboxMessages>::empty(),
    {
        MemoryStore { rows: Vec::new() }
    }

    /// Finds the position of the row `id`.
    fn find(&self, id: &String) -> (r: Option<usize>)
        requires
            self.wf(),
        ensures
            r is None <==> !has_id(self@, id@),
            r matches Some(i) ==> i < self@.len() && self@[i as int].uuid@ == id@,
    {
        let mut i: usize = 0;
        while i < self.rows.len()
            invariant
                i <= self.rows@.len(),
                forall|k: int| 0 <= k < i ==> self.rows@[k].uuid@ != id@,
            decreases self.rows@.len() - i,
        {
            if self.rows[i].uuid == *id {
                return Some(i);
            }
            i = i + 1;
        }
        None
    }

    /// Stores a new message written by a producer. A message whose identifier
    /// is already stored is refused: the store is left as it was and the
    /// result is `false`.
    pub fn insert(&mut self, message: OutboxMessages) -> (r: bool)
        requires
            old(self).wf(),
        ensures
            final(self).wf(),
            r == !has_id(old(self)@, message.uuid@),
            r ==> final(self)@ == old(self)@.push(message),
            !r ==> final(self)@ == old(self)@,
    {
        if self.find(&message.uuid).is_some() {
            return false;
        }
        self.rows.push(message);
        true
    }

    /// All pending messages, in insertion order.
    pub fn fetch_pending(&self) -> (r: Result<Vec<OutboxMessages>, StoreError>)
        requires
            self.wf(),
        ensures
            r matches Ok(v) && v@ == pending_of(self@),
    {
        let mut out: Vec<OutboxMessages> = Vec::new();
        let mut i: usize = 0;
        while i < self.rows.len()
            invariant
                i <= self.rows@.len(),
                out@ == pending_of(self.rows@.take(i as int)),
            decreases self.rows@.len() - i,
        {
            assert(self.rows@.take(i + 1).drop_last() == self.rows@.take(i as int));
            if self.rows[i].pending() {
                out.push(self.rows[i].duplicate());
            }
            i = i + 1;
        }
        assert(self.rows@.take(i as int) == self.rows@);
        Ok(out)
    }

    /// Records that the message `id` was delivered at `completed_at`. The
    /// result tells whether such a message is stored; without one the store is
    /// left as it was.
    pub fn mark_complete(&mut self, id: &String, completed_at: Timestamp) -> (r: bool)
        requires
            old(self).wf(),
        ensures
            final(self).wf(),
            r == has_id(old(self)@, id@),
            final(self)@ == completed(old(self)@, id@, completed_at),
    {
        match self.find(id) {
            None => {
                assert(completed(self@, id@, completed_at) =~= self@);
                false
            },
            Some(i) => {
                let mut m = self.rows[i].duplicate();
                m.completed_at = Some(completed_at);
                let ghost before = self.rows@;
                self.rows.set(i, m);
                assert forall|k: int| 0 <= k < before.len() && k != i implies before[k].uuid@
                    != id@ by {}
                assert(self.rows@ =~= completed(before, id@, completed_at));
                true
            },
        }
    }

    /// Records that delivering the message `id` failed at `failed_at` with
    /// `error`; the message stays pending. The result tells whether such a
    /// message is stored; without one the store is left as it was.
    pub fn mark_failed(&mut self, id: &String, error: &String, failed_at: Timestamp) -> (r: bool)
        requires
            old(self).wf(),
        ensures
            final(self).wf(),
            r == has_id(old(self)@, id@),
            final(self)@ == failed(old(self)@, id@, *error, failed_at),
    {
        match self.find(id) {
            None => {
                assert(failed(self@, id@, *error, failed_at) =~= self@);
                false
            },
            Some(i) => {
                let mut m = self.rows[i].duplicate();
                m.last_error = Some(error.clone());
                m.failed_at = Some(failed_at);
                let ghost before = self.rows@;
                self.rows.set(i, m);
                assert forall|k: int| 0 <= k < before.len() && k != i implies before[k].uuid@
                    != id@ by {}
                assert(self.rows@ =~= failed(before, id@, *error, failed_at));
                true
            },
        }
    }
}

/// Every row that the pending view holds is a pending row of `rows`.
pub proof fn lemma_pending_rows_are_pending(rows: Seq<OutboxMessages>)
    ensures
        forall|k: int|
            0 <= k < pending_of(rows).len() ==> {
                &&& pending_of(rows)[k].is_pending()
                &&& rows.contains(pending_of(rows)[k])
            },
    decreases rows.len(),
{
    if rows.len() > 0 {
        let init = rows.drop_last();
        lemma_pending_rows_are_pending(init);
        assert forall|k: int| 0 <= k < pending_of(rows).len() implies {
            &&& pending_of(rows)[k].is_pending()
            &&& rows.contains(pending_of(rows)[k])
        } by {
            if k < pending_of(init).len() {
                let j = choose|j: int| 0 <= j < init.len() && init[j] == pending_of(init)[k];
                assert(rows[j] == init[j]);
            } else {
                assert(rows[rows.len() - 1] == rows.last());
            }
        }
    }
}

/// Once a message is marked as delivered, fetching the pending messages
/// never returns it again.
pub proof fn lemma_completed_never_fetched(rows: Seq<OutboxMessages>, id: Seq<char>, at: Timestamp)
    ensures
        forall|k: int|
            0 <= k < pending_of(completed(rows, id, at)).len() ==> pending_of(
                completed(rows, id, at),
            )[k].uuid@ != id,
{
    let after = completed(rows, id, at);
    lemma_pending_rows_are_pending(after);
    assert forall|k: int| 0 <= k < pending_of(after).len() implies pending_of(after)[k].uuid@
        != id by {
        let j = choose|j: int| 0 <= j < after.len() && after[j] == pending_of(after)[k];
        assert(after[j].is_pending());
    }
}

} // verus!
