//! The mathematical model of the store: a counter and a finite map from
//! identifier to record, with every operation as a function on that pair.
//!
//! The executable operations are specified by these functions, and the laws of
//! the store are proved about them.

use vstd::prelude::*;
use crate::codec::{payload_fits, record_fits};
use crate::record::{GreenSpaceView, PayloadView};
use crate::text::contains_text;

verus! {

/// The text field a search looks at.
#[derive(Clone, Copy, Debug, PartialEq, Eq)]
pub enum Field {
    Name,
    Location,
    Description,
}

impl Field {
    /// The text of `record` that this field names.
    pub open spec fn of(self, record: GreenSpaceView) -> Seq<char> {
        match self {
            Field::Name => record.name,
            Field::Location => record.location,
            Field::Description => record.description,
        }
    }
}

/// The test a search applies to each record: its `field` contains `query`.
pub open spec fn matcher(field: Field, query: Seq<char>) -> spec_fn(GreenSpaceView) -> bool {
    |record: GreenSpaceView| contains_text(field.of(record), query)
}

/// A request that may change the store.
pub enum Operation {
    /// Issue an identifier without creating a record.
    Allocate,
    /// Create a record from a payload.
    Add(PayloadView),
    /// File a record under the identifier it carries.
    Insert(GreenSpaceView),
    /// Replace the three text fields of a record.
    Update(u64, PayloadView),
    /// Replace the location of a record.
    UpdateLocation(u64, Seq<char>),
    /// Delete a record.
    Delete(u64),
}

/// Mathematical value of the store.
#[verifier::ext_equal]
pub struct StoreState {
    /// The last identifier the allocator has issued; 0 before the first.
    pub counter: u64,
    /// The records, by identifier.
    pub records: Map<u64, GreenSpaceView>,
}

impl StoreState {
    /// The store before anything was added.
    pub open spec fn empty() -> StoreState {
        StoreState { counter: 0, records: Map::empty() }
    }

    /// What holds of every store: it has finitely many records, each is filed
    /// under its own identifier, each identifier has been issued by the
    /// allocator, and each record can be stored.
    pub open spec fn inv(self) -> bool {
        &&& self.records.dom().finite()
        &&& forall|id: u64| #[trigger]
            self.records.contains_key(id) ==> {
                &&& self.records[id].id == id
                &&& id <= self.counter
                &&& record_fits(self.records[id])
            }
    }

    /// Whether the allocator has an identifier left to issue.
    pub open spec fn can_allocate(self) -> bool {
        self.counter < u64::MAX
    }

    /// The identifier the allocator issues next.
    pub open spec fn next_id(self) -> u64 {
        (self.counter + 1) as u64
    }

    /// The store after the allocator has issued one identifier.
    pub open spec fn allocate(self) -> StoreState {
        StoreState { counter: self.next_id(), ..self }
    }

    /// The store after `record` was filed under its identifier, in place of
    /// any record that was there.
    pub open spec fn insert(self, record: GreenSpaceView) -> StoreState {
        StoreState { records: self.records.insert(record.id, record), ..self }
    }

    /// The record filed under `id`, if there is one.
    pub open spec fn get(self, id: u64) -> Option<GreenSpaceView> {
        if self.records.contains_key(id) {
            Some(self.records[id])
        } else {
            None
        }
    }

    /// The store without the record filed under `id`.
    pub open spec fn remove(self, id: u64) -> StoreState {
        StoreState { records: self.records.remove(id), ..self }
    }

    /// The number of records.
    pub open spec fn count(self) -> nat {
        self.records.dom().len()
    }

    /// The record that adding `payload` creates: none if the payload breaks
    /// the creation-time rule, else the payload under the next identifier.
    pub open spec fn added(self, payload: PayloadView) -> Option<GreenSpaceView> {
        if payload.is_valid() {
            Some(payload.with_id(self.next_id()))
        } else {
            None
        }
    }

    /// The store after adding `payload`. An identifier is issued in any case;
    /// the record is filed only if the payload keeps the creation-time rule.
    pub open spec fn add(self, payload: PayloadView) -> StoreState {
        match self.added(payload) {
            Some(record) => self.allocate().insert(record),
            None => self.allocate(),
        }
    }

    /// The store after the three text fields of the record under `id` were
    /// replaced; unchanged if there is no such record.
    pub open spec fn update(self, id: u64, payload: PayloadView) -> StoreState {
        if self.records.contains_key(id) {
            self.insert(payload.with_id(id))
        } else {
            self
        }
    }

    /// The store after the location of the record under `id` was replaced;
    /// unchanged if there is no such record.
    pub open spec fn update_location(self, id: u64, location: Seq<char>) -> StoreState {
        if self.records.contains_key(id) {
            self.insert(self.records[id].with_location(location))
        } else {
            self
        }
    }

    /// The store after the record under `id` was deleted; unchanged if there
    /// is no such record.
    pub open spec fn delete(self, id: u64) -> StoreState {
        self.remove(id)
    }

    /// Whether `list` holds exactly the records of the store, in ascending
    /// order of identifier.
    pub open spec fn is_listing(self, list: Seq<GreenSpaceView>) -> bool {
        &&& forall|i: int, j: int| 0 <= i < j < list.len() ==> list[i].id < list[j].id
        &&& forall|i: int|
            0 <= i < list.len() ==> self.records.contains_key(#[trigger] list[i].id)
                && self.records[list[i].id] == list[i]
        &&& forall|id: u64| #[trigger]
            self.records.contains_key(id) ==> exists|i: int|
                0 <= i < list.len() && list[i].id == id
    }

    /// All records, in ascending order of identifier.
    pub open spec fn listing(self) -> Seq<GreenSpaceView> {
        choose|list: Seq<GreenSpaceView>| self.is_listing(list)
    }

    /// The records whose `field` contains `query`, in ascending order of
    /// identifier.
    pub open spec fn search(self, field: Field, query: Seq<char>) -> Seq<GreenSpaceView> {
        self.listing().filter(matcher(field, query))
    }
}

impl StoreState {
    /// Whether the store accepts `op`: the condition under which the
    /// operation may be asked of a sound store.
    pub open spec fn permits(self, op: Operation) -> bool {
        match op {
            Operation::Allocate => self.can_allocate(),
            Operation::Add(payload) => self.can_allocate() && (payload.is_valid() ==> payload_fits(
                payload,
            )),
            Operation::Insert(record) => record_fits(record) && record.id <= self.counter,
            Operation::Update(id, payload) => self.records.contains_key(id) ==> payload_fits(
                payload,
            ),
            Operation::UpdateLocation(id, location) => self.records.contains_key(id)
                ==> record_fits(self.records[id].with_location(location)),
            Operation::Delete(_) => true,
        }
    }

    /// The store after `op`.
    pub open spec fn apply(self, op: Operation) -> StoreState {
        match op {
            Operation::Allocate => self.allocate(),
            Operation::Add(payload) => self.add(payload),
            Operation::Insert(record) => self.insert(record),
            Operation::Update(id, payload) => self.update(id, payload),
            Operation::UpdateLocation(id, location) => self.update_location(id, location),
            Operation::Delete(id) => self.delete(id),
        }
    }

    /// The identifier that `op` hands back to its caller as newly assigned,
    /// if it hands one back: the one the allocator issues, or that of the
    /// record an add creates.
    pub open spec fn issues(self, op: Operation) -> Option<u64> {
        match op {
            Operation::Allocate => Some(self.next_id()),
            Operation::Add(payload) => match self.added(payload) {
                Some(record) => Some(record.id),
                None => None,
            },
            _ => None,
        }
    }

    /// The store after the operations `ops`, in order.
    pub open spec fn run(self, ops: Seq<Operation>) -> StoreState
        decreases ops.len(),
    {
        if ops.len() == 0 {
            self
        } else {
            self.run(ops.drop_last()).apply(ops.last())
        }
    }

    /// Whether every operation of `ops` is accepted by the store it meets.
    pub open spec fn permits_all(self, ops: Seq<Operation>) -> bool {
        forall|k: int| 0 <= k < ops.len() ==> #[trigger] self.run(ops.take(k)).permits(ops[k])
    }

    /// The identifier that the operation at position `at` of `ops` hands back.
    pub open spec fn issued_at(self, ops: Seq<Operation>, at: int) -> Option<u64> {
        self.run(ops.take(at)).issues(ops[at])
    }
}

/// The records with an identifier below `bound`, in ascending order of
/// identifier.
spec fn listing_below(records: Map<u64, GreenSpaceView>, bound: nat) -> Seq<GreenSpaceView>
    decreases bound,
{
    if bound == 0 {
        Seq::empty()
    } else {
        let rest = listing_below(records, (bound - 1) as nat);
        let id = (bound - 1) as u64;
        if records.contains_key(id) {
            rest.push(records[id])
        } else {
            rest
        }
    }
}

proof fn lemma_listing_below(records: Map<u64, GreenSpaceView>, bound: nat)
    requires
        bound <= u64::MAX + 1,
        forall|id: u64| #[trigger] records.contains_key(id) ==> records[id].id == id,
    ensures
        ({
            let list = listing_below(records, bound);
            &&& forall|i: int, j: int| 0 <= i < j < list.len() ==> list[i].id < list[j].id
            &&& forall|i: int|
                0 <= i < list.len() ==> records.contains_key(#[trigger] list[i].id)
                    && records[list[i].id] == list[i] && list[i].id < bound
            &&& forall|id: u64| #[trigger]
                records.contains_key(id) && id < bound ==> exists|i: int|
                    0 <= i < list.len() && list[i].id == id
        }),
    decreases bound,
{
    if bound > 0 {
        let rest = listing_below(records, (bound - 1) as nat);
        let list = listing_below(records, bound);
        let last = (bound - 1) as u64;
        lemma_listing_below(records, (bound - 1) as nat);
        assert forall|id: u64| #[trigger] records.contains_key(id) && id < bound implies exists|
            i: int,
        |
            0 <= i < list.len() && list[i].id == id by {
            if id == last {
                assert(list[list.len() - 1].id == id);
            } else {
                let i = choose|i: int| 0 <= i < rest.len() && rest[i].id == id;
                assert(list[i].id == id);
            }
        }
    }
}

/// Two listings of one store agree up to any position that the first has.
proof fn lemma_listings_agree(
    s: StoreState,
    a: Seq<GreenSpaceView>,
    b: Seq<GreenSpaceView>,
    upto: int,
)
    requires
        s.is_listing(a),
        s.is_listing(b),
        0 <= upto <= a.len(),
    ensures
        upto <= b.len(),
        forall|i: int| 0 <= i < upto ==> a[i] == b[i],
    decreases upto,
{
    if upto > 0 {
        let at = upto - 1;
        lemma_listings_agree(s, a, b, at);
        assert(s.records.contains_key(a[at].id));
        let j = choose|j: int| 0 <= j < b.len() && b[j].id == a[at].id;
        if j < at {
            assert(a[j] == b[j]);
        }
        assert(s.records.contains_key(b[at].id));
        let k = choose|k: int| 0 <= k < a.len() && a[k].id == b[at].id;
        if k < at {
            assert(a[k] == b[k]);
        }
    }
}

impl StoreState {
    /// A store has at most one listing.
    pub proof fn lemma_listing_unique(self, a: Seq<GreenSpaceView>, b: Seq<GreenSpaceView>)
        requires
            self.is_listing(a),
            self.is_listing(b),
        ensures
            a == b,
    {
        lemma_listings_agree(self, a, b, a.len() as int);
        lemma_listings_agree(self, b, a, b.len() as int);
    }

    /// Whatever lists the store is its listing.
    pub proof fn lemma_listing_is(self, list: Seq<GreenSpaceView>)
        requires
            self.is_listing(list),
        ensures
            self.listing() == list,
    {
        self.lemma_listing_unique(self.listing(), list);
    }

    /// Every store whose records are filed under their own identifiers has a
    /// listing.
    pub proof fn lemma_listing_exists(self)
        requires
            forall|id: u64| #[trigger]
                self.records.contains_key(id) ==> self.records[id].id == id,
        ensures
            self.is_listing(self.listing()),
    {
        let bound: nat = (u64::MAX + 1) as nat;
        lemma_listing_below(self.records, bound);
        assert(self.is_listing(listing_below(self.records, bound)));
    }
}

} // verus!
