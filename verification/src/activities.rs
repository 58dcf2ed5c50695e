//! The activity ledger: activity records by id, in front of one durable
//! record per id.

use std::collections::HashMap;
use vstd::prelude::*;
use vstd::string::StringExecFns;
use crate::activity::{decimal, decimal_text};
use crate::error::Failure;
use crate::strava::{Activity, Record};

verus! {

broadcast use vstd::std_specs::hash::group_hash_axioms;

/// Why a request to the activity ledger was not served.
#[derive(Debug, PartialEq, Eq)]
pub enum ActivityStoreError {
    /// Reading or writing the durable record failed.
    Other(Failure),
}

impl ActivityStoreError {
    /// What is shown for this error.
    pub fn message(&self) -> (text: String)
        ensures
            self matches ActivityStoreError::Other(failure) && text@ == failure.context@,
    {
        match self {
            ActivityStoreError::Other(failure) => failure.message(),
        }
    }
}

/// What a merge gave.
#[derive(Debug, PartialEq)]
pub struct Merged {
    /// The record as the ledger now holds it.
    pub activity: Activity,
    /// Whether the ledger changed, so that the durable record has to be
    /// rewritten.
    pub updated: bool,
}

/// The activity ledger in memory.
#[derive(Debug)]
pub struct ActivityStore {
    inner: HashMap<u64, Activity>,
}

impl View for ActivityStore {
    type V = Map<u64, Record>;

    /// The records that the ledger holds, by id.
    closed spec fn view(&self) -> Map<u64, Record> {
        Map::new(|id: u64| self.inner@.contains_key(id), |id: u64| self.inner@[id]@)
    }
}

/// The ledger after a merge of `incoming`: a record that is new to the ledger
/// is stored as it came; one that the ledger holds has its gaps filled.
pub open spec fn merged_into(ledger: Map<u64, Record>, incoming: Record) -> Map<u64, Record> {
    if ledger.contains_key(incoming.id) {
        ledger.insert(incoming.id, ledger[incoming.id].merged(incoming))
    } else {
        ledger.insert(incoming.id, incoming)
    }
}

/// Whether a merge of `incoming` changes the ledger.
pub open spec fn merge_updates(ledger: Map<u64, Record>, incoming: Record) -> bool {
    ledger.contains_key(incoming.id) ==> ledger[incoming.id].gains(incoming)
}

impl ActivityStore {
    /// A ledger that holds nothing.
    pub fn new() -> (store: ActivityStore)
        ensures
            store@ == Map::<u64, Record>::empty(),
    {
        let store = ActivityStore { inner: HashMap::new() };
        assert(store@ =~= Map::<u64, Record>::empty());
        store
    }

    /// Stores `activity` under its id, in place of what was stored there.
    /// The durable record of that id is then to be rewritten.
    pub fn add(&mut self, activity: Activity)
        ensures
            final(self)@ == old(self)@.insert(activity.id, activity@),
    {
        self.inner.insert(activity.id, activity);
        assert(self@ =~= old(self)@.insert(activity.id, activity@));
    }

    /// Merges `activity` into the ledger and returns the record as it then
    /// stands, with the word whether anything changed.
    pub fn merge(&mut self, activity: Activity) -> (merged: Merged)
        ensures
            final(self)@ == merged_into(old(self)@, activity@),
            merged.activity@ == final(self)@[activity.id],
            merged.updated == merge_updates(old(self)@, activity@),
    {
        let id = activity.id;
        let stored = match self.inner.get(&id) {
            Some(existing) => Some(existing.clone()),
            None => None,
        };
        match stored {
            None => {
                let copy = activity.clone();
                self.inner.insert(id, activity);
                assert(self@ =~= merged_into(old(self)@, activity@));
                Merged { activity: copy, updated: true }
            },
            Some(mut existing) => {
                let updated = existing.fill_from(&activity);
                let copy = existing.clone();
                self.inner.insert(id, existing);
                assert(self@ =~= merged_into(old(self)@, activity@));
                Merged { activity: copy, updated }
            },
        }
    }

    /// The first half of a read: the record as the ledger holds it. `None`
    /// means that the durable record has to be read, and what was read handed
    /// to [`ActivityStore::get`].
    pub fn cached(&self, id: u64) -> (hit: Option<Activity>)
        ensures
            match hit {
                Some(activity) => self@.contains_key(id) && self@[id] == activity@,
                None => !self@.contains_key(id),
            },
    {
        match self.inner.get(&id) {
            Some(activity) => Some(activity.clone()),
            None => None,
        }
    }

    /// The second half of a read that missed the ledger, given what reading
    /// the durable record of `id` gave.
    ///
    /// - The read failed: the failure is reported with the id it was for,
    ///   and the ledger is unchanged.
    /// - There is no durable record: nothing is found, which is no error; the
    ///   ledger is unchanged.
    /// - Otherwise the record is stored under `id` and returned.
    pub fn get(&mut self, id: u64, loaded: Result<Option<Activity>, String>) -> (found: Result<
        Option<Activity>,
        ActivityStoreError,
    >)
        ensures
            match loaded {
                Err(cause) => {
                    &&& final(self)@ == old(self)@
                    &&& found matches Err(ActivityStoreError::Other(failure))
                    &&& failure.context@ == "failed to load activity "@ + decimal(id as nat)
                    &&& failure.cause == cause
                },
                Ok(None) => final(self)@ == old(self)@ && found matches Ok(None),
                Ok(Some(activity)) => {
                    &&& final(self)@ == old(self)@.insert(id, activity@)
                    &&& found matches Ok(Some(same))
                    &&& same@ == activity@
                },
            },
    {
        match loaded {
            Err(cause) => {
                let key = decimal_text(id);
                Err(ActivityStoreError::Other(Failure::for_key("failed to load activity ", key.as_str(), cause)))
            },
            Ok(None) => Ok(None),
            Ok(Some(activity)) => {
                let copy = activity.clone();
                self.inner.insert(id, activity);
                assert(self@ =~= old(self)@.insert(id, activity@));
                Ok(Some(copy))
            },
        }
    }

    /// Why the write of the durable record of `id` failed, in the ledger's
    /// words.
    pub fn write_failed(id: u64, cause: String) -> (error: ActivityStoreError)
        ensures
            error matches ActivityStoreError::Other(failure) && failure.context@
                == "failed to persist activity "@ + decimal(id as nat) && failure.cause == cause,
    {
        let key = decimal_text(id);
        ActivityStoreError::Other(Failure::for_key("failed to persist activity ", key.as_str(), cause))
    }
}

/// Read-through caching: a record that a read brought into the ledger is
/// then in the ledger, under its id, and every other id is as before.
pub proof fn loaded_record_is_cached(ledger: Map<u64, Record>, id: u64, record: Record, other: u64)
    ensures
        ledger.insert(id, record).contains_key(id),
        ledger.insert(id, record)[id] == record,
        other != id ==> ledger.insert(id, record).contains_key(other) == ledger.contains_key(other),
        other != id && ledger.contains_key(other) ==> ledger.insert(id, record)[other] == ledger[other],
{
}

/// A merge touches one id only, never removes a record, never changes a
/// field that the stored record had, and changes the ledger exactly when it
/// is said to update it.
pub proof fn merge_only_fills(ledger: Map<u64, Record>, incoming: Record, other: u64)
    ensures
        merged_into(ledger, incoming).contains_key(incoming.id),
        other != incoming.id ==> merged_into(ledger, incoming).contains_key(other) == ledger.contains_key(other),
        other != incoming.id && ledger.contains_key(other) ==> merged_into(ledger, incoming)[other]
            == ledger[other],
        ledger.contains_key(incoming.id) ==> merged_into(ledger, incoming)[incoming.id]
            == ledger[incoming.id].merged(incoming),
        merge_updates(ledger, incoming) <==> merged_into(ledger, incoming) != ledger,
{
    if ledger.contains_key(incoming.id) {
        crate::strava::merge_changes_when_it_gains(ledger[incoming.id], incoming);
        if !merge_updates(ledger, incoming) {
            assert(merged_into(ledger, incoming) =~= ledger);
        } else {
            assert(merged_into(ledger, incoming)[incoming.id] != ledger[incoming.id]);
        }
    } else {
        assert(merged_into(ledger, incoming).contains_key(incoming.id));
    }
}

} // verus!
