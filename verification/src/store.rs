//! The recycle store: every record, and the counter from which deposit
//! address indexes are allocated.

use vstd::prelude::*;
use crate::record::{DonationReason, Recycle, RecycleView};
use crate::status::RecycleStatus;
use crate::time::Timestamp;

verus! {

/// Why the store refused to create a record or to allocate an index.
#[derive(Debug, Clone, Copy, PartialEq, Eq, Structural)]
pub enum StoreError {
    /// A record with this id exists already.
    DuplicateId,
    /// The address index was never allocated.
    IndexNotAllocated,
    /// Another record holds the address index.
    IndexInUse,
    /// Every address index has been allocated.
    IndexSpaceExhausted,
}

/// The store of recycles, in the order of their creation.
pub struct RecycleRepository {
    recycles: Vec<Recycle>,
    next_address_index: u32,
}

/// Whether a record of `records` has the id `id`.
pub open spec fn holds_id(records: Seq<RecycleView>, id: Seq<char>) -> bool {
    exists|i: int| 0 <= i < records.len() && (#[trigger] records[i]).id == id
}

/// Whether a record of `records` has the address index `index`.
pub open spec fn holds_index(records: Seq<RecycleView>, index: u32) -> bool {
    exists|i: int| 0 <= i < records.len() && (#[trigger] records[i]).address_index == index
}

/// Whether `after` is `before` with every record moved a step that the
/// state machine allows, or left alone.
pub open spec fn statuses_move_forward(before: Seq<RecycleView>, after: Seq<RecycleView>) -> bool {
    &&& before.len() <= after.len()
    &&& forall|i: int|
        0 <= i < before.len() ==> (#[trigger] before[i]).status.stays_or_advances(after[i].status)
}

impl RecycleRepository {
    /// The records, as mathematical values, in the order of their creation.
    pub closed spec fn records(&self) -> Seq<RecycleView> {
        self.recycles@.map_values(|r: Recycle| r@)
    }

    /// The address index that the next allocation hands out.
    pub closed spec fn next_index(&self) -> u32 {
        self.next_address_index
    }

    /// The invariant of the store: every record is consistent, ids differ,
    /// address indexes differ, and every index in use was allocated.
    pub open spec fn wf(&self) -> bool {
        let rs = self.records();
        &&& forall|i: int| 0 <= i < rs.len() ==> (#[trigger] rs[i]).consistent()
        &&& forall|i: int, j: int|
            0 <= i < j < rs.len() ==> (#[trigger] rs[i]).id != (#[trigger] rs[j]).id
        &&& forall|i: int, j: int|
            0 <= i < j < rs.len() ==> (#[trigger] rs[i]).address_index
                != (#[trigger] rs[j]).address_index
        &&& forall|i: int| 0 <= i < rs.len() ==> (#[trigger] rs[i]).address_index < self.next_index()
    }

    /// An empty store whose counter stands at 0.
    pub fn new() -> (store: RecycleRepository)
        ensures
            store.wf(),
            store.records() == Seq::<RecycleView>::empty(),
            store.next_index() == 0,
    {
        let store = RecycleRepository { recycles: Vec::new(), next_address_index: 0 };
        assert(store.records() =~= Seq::<RecycleView>::empty());
        store
    }

    /// The number of records.
    pub fn len(&self) -> (n: usize)
        ensures
            n == self.records().len(),
    {
        self.recycles.len()
    }

    /// A copy of the record at position `i` in the order of creation.
    pub fn record_at(&self, i: usize) -> (r: Recycle)
        requires
            i < self.records().len(),
        ensures
            r@ == self.records()[i as int],
    {
        self.recycles[i].duplicate()
    }

    pub(crate) fn position_of_id(&self, id: &str) -> (r: Option<usize>)
        ensures
            match r {
                Some(i) => i < self.records().len() && self.records()[i as int].id == id@
                    && forall|k: int| 0 <= k < i ==> (#[trigger] self.records()[k]).id != id@,
                None => !holds_id(self.records(), id@),
            },
    {
        let wanted = id.to_owned();
        let mut i: usize = 0;
        while i < self.recycles.len()
            invariant
                i <= self.recycles.len(),
                wanted@ == id@,
                forall|k: int| 0 <= k < i ==> (#[trigger] self.records()[k]).id != id@,
            decreases self.recycles.len() - i,
        {
            if self.recycles[i].id == wanted {
                return Some(i);
            }
            i = i + 1;
        }
        None
    }

    fn index_in_use(&self, index: u32) -> (r: bool)
        ensures
            r == holds_index(self.records(), index),
    {
        let mut i: usize = 0;
        while i < self.recycles.len()
            invariant
                i <= self.recycles.len(),
                forall|k: int| 0 <= k < i ==> (#[trigger] self.records()[k]).address_index != index,
            decreases self.recycles.len() - i,
        {
            if self.recycles[i].address_index == index {
                assert(self.records()[i as int].address_index == index);
                return true;
            }
            i = i + 1;
        }
        false
    }

    pub(crate) fn replace(&mut self, i: usize, r: Recycle)
        requires
            i < old(self).records().len(),
        ensures
            final(self).records() == old(self).records().update(i as int, r@),
            final(self).next_index() == old(self).next_index(),
    {
        self.recycles.set(i, r);
        assert(self.records() =~= old(self).records().update(i as int, r@));
    }

    /// Creates the record of a new recycle, which awaits its deposit, and
    /// returns a copy of it. The id must be new, and the address index
    /// allocated and not in use.
    pub fn create(
        &mut self,
        id: &str,
        lightning_address: &str,
        deposit_address: &str,
        address_index: u32,
        now: Timestamp,
    ) -> (r: Result<Recycle, StoreError>)
        requires
            old(self).wf(),
        ensures
            final(self).wf(),
            final(self).next_index() == old(self).next_index(),
            r == Err::<Recycle, StoreError>(StoreError::DuplicateId) <==> holds_id(
                old(self).records(),
                id@,
            ),
            r == Err::<Recycle, StoreError>(StoreError::IndexNotAllocated) <==> !holds_id(
                old(self).records(),
                id@,
            ) && address_index >= old(self).next_index(),
            r == Err::<Recycle, StoreError>(StoreError::IndexInUse) <==> !holds_id(
                old(self).records(),
                id@,
            ) && address_index < old(self).next_index() && holds_index(
                old(self).records(),
                address_index,
            ),
            r != Err::<Recycle, StoreError>(StoreError::IndexSpaceExhausted),
            r is Err ==> final(self).records() == old(self).records(),
            r matches Ok(created) ==> {
                &&& created@ == RecycleView::created(
                    id@,
                    lightning_address@,
                    deposit_address@,
                    address_index,
                    now,
                )
                &&& final(self).records() == old(self).records().push(created@)
            },
    {
        if self.position_of_id(id).is_some() {
            return Err(StoreError::DuplicateId);
        }
        if address_index >= self.next_address_index {
            return Err(StoreError::IndexNotAllocated);
        }
        if self.index_in_use(address_index) {
            return Err(StoreError::IndexInUse);
        }
        let created = Recycle::new(id, lightning_address, deposit_address, address_index, now);
        let copy = created.duplicate();
        self.recycles.push(created);
        assert(self.records() =~= old(self).records().push(copy@));
        Ok(copy)
    }

    /// The first record with the id `id`, if there is one; a store that
    /// satisfies its invariant holds at most one.
    pub fn find_by_id(&self, id: &str) -> (r: Option<Recycle>)
        ensures
            match r {
                Some(found) => exists|i: int|
                    0 <= i < self.records().len() && #[trigger] self.records()[i] == found@
                        && found@.id == id@ && forall|k: int|
                        0 <= k < i ==> (#[trigger] self.records()[k]).id != id@,
                None => !holds_id(self.records(), id@),
            },
    {
        match self.position_of_id(id) {
            Some(i) => {
                let found = self.recycles[i].duplicate();
                assert(self.records()[i as int] == found@);
                Some(found)
            },
            None => None,
        }
    }

    /// The first record with the deposit address `address`, if there is one.
    pub fn find_by_deposit_address(&self, address: &str) -> (r: Option<Recycle>)
        ensures
            match r {
                Some(found) => exists|i: int|
                    0 <= i < self.records().len() && #[trigger] self.records()[i] == found@
                        && found@.deposit_address == address@ && forall|k: int|
                        0 <= k < i ==> (#[trigger] self.records()[k]).deposit_address != address@,
                None => forall|k: int|
                    0 <= k < self.records().len() ==> (#[trigger] self.records()[k]).deposit_address
                        != address@,
            },
    {
        let wanted = address.to_owned();
        let mut i: usize = 0;
        while i < self.recycles.len()
            invariant
                i <= self.recycles.len(),
                wanted@ == address@,
                forall|k: int|
                    0 <= k < i ==> (#[trigger] self.records()[k]).deposit_address != address@,
            decreases self.recycles.len() - i,
        {
            if self.recycles[i].deposit_address == wanted {
                let found = self.recycles[i].duplicate();
                assert(self.records()[i as int] == found@);
                return Some(found);
            }
            i = i + 1;
        }
        None
    }

    /// The records with the status `status`, in the order of their creation.
    pub fn find_by_status(&self, status: RecycleStatus) -> (found: Vec<Recycle>)
        ensures
            found@.map_values(|r: Recycle| r@) == self.records().filter(
                |r: RecycleView| r.status == status,
            ),
    {
        let ghost pred = |r: RecycleView| r.status == status;
        let mut found: Vec<Recycle> = Vec::new();
        let mut i: usize = 0;
        assert(self.records().take(0) =~= Seq::<RecycleView>::empty());
        assert(found@.map_values(|r: Recycle| r@) =~= Seq::<RecycleView>::empty());
        while i < self.recycles.len()
            invariant
                i <= self.recycles.len(),
                pred == |r: RecycleView| r.status == status,
                found@.map_values(|r: Recycle| r@) == self.records().take(i as int).filter(pred),
            decreases self.recycles.len() - i,
        {
            let ghost before = found@.map_values(|r: Recycle| r@);
            proof {
                reveal(Seq::filter);
                assert(self.records().take(i + 1).drop_last() =~= self.records().take(i as int));
                assert(self.records().take(i + 1).last() == self.records()[i as int]);
            }
            if self.recycles[i].status == status {
                let copy = self.recycles[i].duplicate();
                found.push(copy);
                assert(found@.map_values(|r: Recycle| r@) =~= before.push(
                    self.records()[i as int],
                ));
            }
            i = i + 1;
        }
        assert(self.records().take(i as int) =~= self.records());
        found
    }

    /// The records that await a deposit or its confirmations, in the order
    /// of their creation.
    pub fn find_pending_deposits(&self) -> (found: Vec<Recycle>)
        ensures
            found@.map_values(|r: Recycle| r@) == self.records().filter(
                |r: RecycleView| r.status.is_pending(),
            ),
    {
        let ghost pred = |r: RecycleView| r.status.is_pending();
        let mut found: Vec<Recycle> = Vec::new();
        let mut i: usize = 0;
        assert(self.records().take(0) =~= Seq::<RecycleView>::empty());
        assert(found@.map_values(|r: Recycle| r@) =~= Seq::<RecycleView>::empty());
        while i < self.recycles.len()
            invariant
                i <= self.recycles.len(),
                pred == |r: RecycleView| r.status.is_pending(),
                found@.map_values(|r: Recycle| r@) == self.records().take(i as int).filter(pred),
            decreases self.recycles.len() - i,
        {
            let ghost before = found@.map_values(|r: Recycle| r@);
            proof {
                reveal(Seq::filter);
                assert(self.records().take(i + 1).drop_last() =~= self.records().take(i as int));
                assert(self.records().take(i + 1).last() == self.records()[i as int]);
            }
            if self.recycles[i].status.pending() {
                let copy = self.recycles[i].duplicate();
                found.push(copy);
                assert(found@.map_values(|r: Recycle| r@) =~= before.push(
                    self.records()[i as int],
                ));
            }
            i = i + 1;
        }
        assert(self.records().take(i as int) =~= self.records());
        found
    }

    /// Records a deposit on the pending recycle with the id `id`: its
    /// transactions, amount and confirmations, and the status that the
    /// confirmations give. Says whether a record was changed.
    pub fn update_deposit_detected(
        &mut self,
        id: &str,
        txid: &str,
        amount_sats: u64,
        confirmations: u32,
        block_height: Option<u32>,
        max_input_sats: Option<u64>,
        required_confirmations: u32,
        now: Timestamp,
    ) -> (updated: bool)
        requires
            old(self).wf(),
        ensures
            final(self).wf(),
            final(self).next_index() == old(self).next_index(),
            final(self).records().len() == old(self).records().len(),
            forall|i: int|
                0 <= i < old(self).records().len() ==> #[trigger] final(self).records()[i] == if old(
                    self,
                ).records()[i].id == id@ && old(self).records()[i].status.is_pending() {
                    old(self).records()[i].with_deposit_detected(
                        txid@,
                        amount_sats,
                        confirmations,
                        block_height,
                        max_input_sats,
                        required_confirmations,
                        now,
                    )
                } else {
                    old(self).records()[i]
                },
            updated == exists|i: int|
                0 <= i < old(self).records().len() && (#[trigger] old(self).records()[i]).id == id@
                    && old(self).records()[i].status.is_pending(),
            statuses_move_forward(old(self).records(), final(self).records()),
    {
        match self.position_of_id(id) {
            None => false,
            Some(i) => {
                let current = self.recycles[i].duplicate();
                assert(current@ == self.records()[i as int]);
                if !current.status.pending() {
                    return false;
                }
                let next = current.record_deposit_detected(
                    txid,
                    amount_sats,
                    confirmations,
                    block_height,
                    max_input_sats,
                    required_confirmations,
                    now,
                );
                self.replace(i, next);
                true
            },
        }
    }

    /// Keeps the deposit of the pending recycle with the id `id` as a
    /// donation. Says whether a record was changed.
    pub fn update_as_donation(
        &mut self,
        id: &str,
        txid: &str,
        amount_sats: u64,
        block_height: Option<u32>,
        max_input_sats: Option<u64>,
        reason: DonationReason,
        now: Timestamp,
    ) -> (updated: bool)
        requires
            old(self).wf(),
        ensures
            final(self).wf(),
            final(self).next_index() == old(self).next_index(),
            final(self).records().len() == old(self).records().len(),
            forall|i: int|
                0 <= i < old(self).records().len() ==> #[trigger] final(self).records()[i] == if old(
                    self,
                ).records()[i].id == id@ && old(self).records()[i].status.is_pending() {
                    old(self).records()[i].with_donation(
                        txid@,
                        amount_sats,
                        block_height,
                        max_input_sats,
                        reason,
                        now,
                    )
                } else {
                    old(self).records()[i]
                },
            updated == exists|i: int|
                0 <= i < old(self).records().len() && (#[trigger] old(self).records()[i]).id == id@
                    && old(self).records()[i].status.is_pending(),
            statuses_move_forward(old(self).records(), final(self).records()),
    {
        match self.position_of_id(id) {
            None => false,
            Some(i) => {
                let current = self.recycles[i].duplicate();
                assert(current@ == self.records()[i as int]);
                if !current.status.pending() {
                    return false;
                }
                let next = current.mark_donation(
                    txid,
                    amount_sats,
                    block_height,
                    max_input_sats,
                    reason,
                    now,
                );
                self.replace(i, next);
                true
            },
        }
    }

    /// Moves the confirmation count of the confirming recycle with the id
    /// `id`, and its status with it. Says whether a record was changed.
    pub fn update_confirmations(
        &mut self,
        id: &str,
        confirmations: u32,
        required_confirmations: u32,
        now: Timestamp,
    ) -> (updated: bool)
        requires
            old(self).wf(),
        ensures
            final(self).wf(),
            final(self).next_index() == old(self).next_index(),
            final(self).records().len() == old(self).records().len(),
            forall|i: int|
                0 <= i < old(self).records().len() ==> #[trigger] final(self).records()[i] == if old(
                    self,
                ).records()[i].id == id@ && old(self).records()[i].status
                    == RecycleStatus::Confirming {
                    old(self).records()[i].with_confirmations(
                        confirmations,
                        required_confirmations,
                        now,
                    )
                } else {
                    old(self).records()[i]
                },
            updated == exists|i: int|
                0 <= i < old(self).records().len() && (#[trigger] old(self).records()[i]).id == id@
                    && old(self).records()[i].status == RecycleStatus::Confirming,
            statuses_move_forward(old(self).records(), final(self).records()),
    {
        match self.position_of_id(id) {
            None => false,
            Some(i) => {
                let current = self.recycles[i].duplicate();
                assert(current@ == self.records()[i as int]);
                match current.status {
                    RecycleStatus::Confirming => {},
                    _ => {
                        return false;
                    },
                }
                let next = current.update_confirmations(confirmations, required_confirmations, now);
                self.replace(i, next);
                true
            },
        }
    }

    /// Marks the confirmed recycle with the id `id` paid, if the preimage
    /// opens the payment hash. Says whether a record was changed.
    pub fn mark_paid(
        &mut self,
        id: &str,
        payout_amount_sats: u64,
        payment_preimage: &str,
        payment_hash: &str,
        now: Timestamp,
    ) -> (updated: bool)
        requires
            old(self).wf(),
        ensures
            final(self).wf(),
            final(self).next_index() == old(self).next_index(),
            final(self).records().len() == old(self).records().len(),
            forall|i: int|
                0 <= i < old(self).records().len() ==> #[trigger] final(self).records()[i] == if old(
                    self,
                ).records()[i].id == id@ && old(self).records()[i].may_be_paid(
                    payment_preimage@,
                    payment_hash@,
                ) {
                    old(self).records()[i].with_payment(
                        payout_amount_sats,
                        payment_preimage@,
                        payment_hash@,
                        now,
                    )
                } else {
                    old(self).records()[i]
                },
            updated == exists|i: int|
                0 <= i < old(self).records().len() && (#[trigger] old(self).records()[i]).id == id@
                    && old(self).records()[i].may_be_paid(payment_preimage@, payment_hash@),
            statuses_move_forward(old(self).records(), final(self).records()),
    {
        match self.position_of_id(id) {
            None => false,
            Some(i) => {
                let current = self.recycles[i].duplicate();
                assert(current@ == self.records()[i as int]);
                match current.status {
                    RecycleStatus::Confirmed => {},
                    _ => {
                        return false;
                    },
                }
                let next = current.mark_paid(payout_amount_sats, payment_preimage, payment_hash, now);
                let updated = match next.status {
                    RecycleStatus::Paid => true,
                    _ => false,
                };
                self.replace(i, next);
                updated
            },
        }
    }

    /// Gives up on the confirmed recycle with the id `id`. Says whether a
    /// record was changed.
    pub fn mark_failed(&mut self, id: &str, now: Timestamp) -> (updated: bool)
        requires
            old(self).wf(),
        ensures
            final(self).wf(),
            final(self).next_index() == old(self).next_index(),
            final(self).records().len() == old(self).records().len(),
            forall|i: int|
                0 <= i < old(self).records().len() ==> #[trigger] final(self).records()[i] == if old(
                    self,
                ).records()[i].id == id@ && old(self).records()[i].status
                    == RecycleStatus::Confirmed {
                    old(self).records()[i].with_failure(now)
                } else {
                    old(self).records()[i]
                },
            updated == exists|i: int|
                0 <= i < old(self).records().len() && (#[trigger] old(self).records()[i]).id == id@
                    && old(self).records()[i].status == RecycleStatus::Confirmed,
            statuses_move_forward(old(self).records(), final(self).records()),
    {
        match self.position_of_id(id) {
            None => false,
            Some(i) => {
                let current = self.recycles[i].duplicate();
                assert(current@ == self.records()[i as int]);
                match current.status {
                    RecycleStatus::Confirmed => {},
                    _ => {
                        return false;
                    },
                }
                let next = current.mark_failed(now);
                self.replace(i, next);
                true
            },
        }
    }

    /// Counts one more payment attempt on the confirmed recycle with the id
    /// `id`, if it has attempts left, and returns the new count.
    pub fn increment_payment_attempts(&mut self, id: &str, now: Timestamp) -> (count: Option<u32>)
        requires
            old(self).wf(),
        ensures
            final(self).wf(),
            final(self).next_index() == old(self).next_index(),
            final(self).records().len() == old(self).records().len(),
            forall|i: int|
                0 <= i < old(self).records().len() ==> #[trigger] final(self).records()[i] == if old(
                    self,
                ).records()[i].id == id@ && old(self).records()[i].may_attempt() {
                    old(self).records()[i].with_attempt(now)
                } else {
                    old(self).records()[i]
                },
            match count {
                Some(n) => exists|i: int|
                    0 <= i < old(self).records().len() && (#[trigger] old(self).records()[i]).id
                        == id@ && old(self).records()[i].may_attempt() && n == old(
                        self,
                    ).records()[i].payment_attempts + 1,
                None => forall|i: int|
                    0 <= i < old(self).records().len() ==> !((#[trigger] old(self).records()[i]).id
                        == id@ && old(self).records()[i].may_attempt()),
            },
            statuses_move_forward(old(self).records(), final(self).records()),
    {
        match self.position_of_id(id) {
            None => None,
            Some(i) => {
                let current = self.recycles[i].duplicate();
                assert(current@ == self.records()[i as int]);
                let before = current.payment_attempts;
                let next = current.count_payment_attempt(now);
                let after = next.payment_attempts;
                self.replace(i, next);
                if after != before {
                    Some(after)
                } else {
                    None
                }
            },
        }
    }

    /// The address index that the next allocation hands out.
    pub fn get_next_address_index(&self) -> (index: u32)
        ensures
            index == self.next_index(),
    {
        self.next_address_index
    }

    /// Allocates an address index: returns the counter and moves it on by
    /// one. Fails, and changes nothing, when the counter cannot move on.
    pub fn increment_address_index(&mut self) -> (r: Result<u32, StoreError>)
        requires
            old(self).wf(),
        ensures
            final(self).wf(),
            final(self).records() == old(self).records(),
            match r {
                Ok(index) => {
                    &&& index == old(self).next_index()
                    &&& final(self).next_index() == index + 1
                    &&& !holds_index(final(self).records(), index)
                },
                Err(e) => {
                    &&& e == StoreError::IndexSpaceExhausted
                    &&& old(self).next_index() == u32::MAX
                    &&& final(self).next_index() == old(self).next_index()
                },
            },
    {
        let current = self.next_address_index;
        if current == u32::MAX {
            return Err(StoreError::IndexSpaceExhausted);
        }
        self.next_address_index = current + 1;
        assert(self.records() == old(self).records());
        Ok(current)
    }
}

/// In a store that satisfies its invariant, no two records share an
/// address index or an id.
pub proof fn lemma_address_indexes_are_distinct(store: RecycleRepository, i: int, j: int)
    requires
        store.wf(),
        0 <= i < store.records().len(),
        0 <= j < store.records().len(),
        i != j,
    ensures
        store.records()[i].address_index != store.records()[j].address_index,
        store.records()[i].id != store.records()[j].id,
{
    if i < j {
        assert(store.records()[i].address_index != store.records()[j].address_index);
    } else {
        assert(store.records()[j].address_index != store.records()[i].address_index);
    }
}

/// After `k` allocations in a row the counter has moved on by `k`.
/// `stores` holds the store before each allocation and after the last.
proof fn lemma_counter_after(stores: Seq<RecycleRepository>, k: int)
    requires
        forall|n: int|
            0 <= n < stores.len() - 1 ==> (#[trigger] stores[n]).next_index() + 1 == stores[n
                + 1].next_index(),
        0 <= k < stores.len(),
    ensures
        stores[k].next_index() == stores[0].next_index() + k,
    decreases k,
{
    if k > 0 {
        lemma_counter_after(stores, k - 1);
        assert(stores[k - 1].next_index() + 1 == stores[k - 1 + 1].next_index());
    }
}

/// Any number of allocations in a row hand out indexes that differ from
/// each other, and move the counter on by their number. `stores` holds the
/// store before each allocation and after the last, each allocation having
/// succeeded: allocation `n` returned the counter of `stores[n]` and left
/// `stores[n + 1]` with that counter plus one. `i` and `j` are two of the
/// allocations.
pub proof fn lemma_allocations_are_distinct(stores: Seq<RecycleRepository>, i: int, j: int)
    requires
        forall|n: int|
            0 <= n < stores.len() - 1 ==> (#[trigger] stores[n]).next_index() + 1 == stores[n
                + 1].next_index(),
        0 <= i < j < stores.len() - 1,
    ensures
        stores[i].next_index() != stores[j].next_index(),
        stores[stores.len() - 1].next_index() == stores[0].next_index() + (stores.len() - 1),
{
    lemma_counter_after(stores, i);
    lemma_counter_after(stores, j);
    lemma_counter_after(stores, stores.len() - 1);
}

/// In a store that satisfies its invariant, every record is within the
/// bound on payment attempts, a record is paid exactly if it holds a
/// preimage and a payment hash, the preimage then opens the hash, and a
/// record gives a donation reason exactly if it is a donation.
pub proof fn lemma_records_are_consistent(store: RecycleRepository, i: int)
    requires
        store.wf(),
        0 <= i < store.records().len(),
    ensures
        store.records()[i].payment_attempts <= crate::record::MAX_PAYMENT_ATTEMPTS,
        store.records()[i].status == RecycleStatus::Paid <==> store.records()[i].payment_preimage
            is Some,
        store.records()[i].status == RecycleStatus::Paid <==> store.records()[i].payment_hash
            is Some,
        store.records()[i].status == RecycleStatus::Paid ==> crate::preimage::preimage_opens(
            store.records()[i].payment_preimage.unwrap(),
            store.records()[i].payment_hash.unwrap(),
        ),
        store.records()[i].status == RecycleStatus::Donation <==> store.records()[i].donation_reason
            is Some,
{
    assert(store.records()[i].consistent());
}

/// An index that was just allocated can be given to a new record: a record
/// created with it, under a new id, is accepted.
pub proof fn lemma_allocated_index_is_free(before: RecycleRepository, after: RecycleRepository)
    requires
        before.wf(),
        after.records() == before.records(),
        before.next_index() < u32::MAX,
        after.next_index() == before.next_index() + 1,
    ensures
        !holds_index(after.records(), before.next_index()),
        before.next_index() < after.next_index(),
{
    if holds_index(after.records(), before.next_index()) {
        let w = choose|i: int|
            0 <= i < after.records().len() && (#[trigger] after.records()[i]).address_index
                == before.next_index();
        assert(before.records()[w].address_index < before.next_index());
    }
}

} // verus!
