//! Activity records as the activity source reports them, and the fill-merge
//! that combines what is stored with what was fetched.
//!
//! A merge only fills gaps: a heart rate that is known stays as it is, a list
//! of segments that is not empty stays as it is, and the name and the id are
//! never touched.

use vstd::prelude::*;
use vstd::string::StringExecFns;
use crate::activity::{decimal, decimal_text, power_activity, ActivityStore, Trace};
use crate::binary64::Binary64;

verus! {

/// A stretch of road that an activity covered.
#[derive(Debug, PartialEq)]
pub struct Segment {
    pub id: u64,
    pub name: String,
    pub distance: Binary64,
    pub average_grade: Binary64,
}

impl Clone for Segment {
    fn clone(&self) -> (copy: Self)
        ensures
            copy == *self,
    {
        Segment { id: self.id, name: self.name.clone(), distance: self.distance, average_grade: self.average_grade }
    }
}

/// One activity.
#[derive(Debug, PartialEq)]
pub struct Activity {
    pub id: u64,
    pub name: String,
    pub segments: Vec<Segment>,
    pub average_heartrate: Option<Binary64>,
    pub max_heartrate: Option<Binary64>,
}

/// The mathematical content of an [`Activity`].
#[verifier::ext_equal]
pub struct Record {
    pub id: u64,
    pub name: Seq<char>,
    pub segments: Seq<Segment>,
    pub average_heartrate: Option<Binary64>,
    pub max_heartrate: Option<Binary64>,
}

impl View for Activity {
    type V = Record;

    open spec fn view(&self) -> Record {
        Record {
            id: self.id,
            name: self.name@,
            segments: self.segments@,
            average_heartrate: self.average_heartrate,
            max_heartrate: self.max_heartrate,
        }
    }
}

impl Clone for Activity {
    fn clone(&self) -> (copy: Self)
        ensures
            copy@ == self@,
    {
        let segments = self.segments.clone();
        assert(segments@ =~= self.segments@);
        Activity {
            id: self.id,
            name: self.name.clone(),
            segments,
            average_heartrate: self.average_heartrate,
            max_heartrate: self.max_heartrate,
        }
    }
}

/// How much of a record is known.
#[derive(Clone, Copy, Debug, PartialEq, Eq, Structural)]
pub enum Coverage {
    /// Nothing is stored under the id.
    Absent,
    /// A record is stored, but a heart rate or the segments are missing.
    Partial,
    /// Both heart rates are known and there is at least one segment.
    Complete,
}

impl Coverage {
    /// Absent before partial before complete.
    pub open spec fn rank(self) -> int {
        match self {
            Coverage::Absent => 0,
            Coverage::Partial => 1,
            Coverage::Complete => 2,
        }
    }
}

/// The value of a field after a merge: what was known, or else what came in.
pub open spec fn fill(known: Option<Binary64>, incoming: Option<Binary64>) -> Option<Binary64> {
    if known.is_none() {
        incoming
    } else {
        known
    }
}

impl Record {
    /// Both heart rates are known and there is at least one segment.
    pub open spec fn complete(self) -> bool {
        &&& self.average_heartrate.is_some()
        &&& self.max_heartrate.is_some()
        &&& self.segments.len() > 0
    }

    /// This record with its gaps filled from `incoming`.
    pub open spec fn merged(self, incoming: Record) -> Record {
        Record {
            id: self.id,
            name: self.name,
            segments: if self.segments.len() == 0 {
                incoming.segments
            } else {
                self.segments
            },
            average_heartrate: fill(self.average_heartrate, incoming.average_heartrate),
            max_heartrate: fill(self.max_heartrate, incoming.max_heartrate),
        }
    }

    /// Whether a merge with `incoming` fills a gap of this record.
    pub open spec fn gains(self, incoming: Record) -> bool {
        ||| self.average_heartrate.is_none() && incoming.average_heartrate.is_some()
        ||| self.max_heartrate.is_none() && incoming.max_heartrate.is_some()
        ||| self.segments.len() == 0 && incoming.segments.len() > 0
    }
}

/// How much is known of what is stored under an id.
pub open spec fn coverage(stored: Option<Record>) -> Coverage {
    match stored {
        None => Coverage::Absent,
        Some(record) => if record.complete() {
            Coverage::Complete
        } else {
            Coverage::Partial
        },
    }
}

/// Fill-merge monotonicity: a merge never changes a field that was present.
pub proof fn merge_keeps_what_is_known(stored: Record, incoming: Record)
    ensures
        stored.merged(incoming).id == stored.id,
        stored.merged(incoming).name == stored.name,
        stored.average_heartrate.is_some() ==> stored.merged(incoming).average_heartrate
            == stored.average_heartrate,
        stored.max_heartrate.is_some() ==> stored.merged(incoming).max_heartrate == stored.max_heartrate,
        stored.segments.len() > 0 ==> stored.merged(incoming).segments == stored.segments,
{
}

/// A missing field takes the incoming value, and once it has one, a later
/// merge with another value does not replace it.
pub proof fn merge_fills_once(stored: Record, first: Record, second: Record)
    ensures
        stored.average_heartrate.is_none() ==> stored.merged(first).average_heartrate
            == first.average_heartrate,
        stored.max_heartrate.is_none() ==> stored.merged(first).max_heartrate == first.max_heartrate,
        stored.segments.len() == 0 ==> stored.merged(first).segments == first.segments,
        stored.merged(first).average_heartrate.is_some() ==> stored.merged(first).merged(second).average_heartrate
            == stored.merged(first).average_heartrate,
        stored.merged(first).max_heartrate.is_some() ==> stored.merged(first).merged(second).max_heartrate
            == stored.merged(first).max_heartrate,
        stored.merged(first).segments.len() > 0 ==> stored.merged(first).merged(second).segments
            == stored.merged(first).segments,
{
}

/// A merge changes the record exactly when it fills a gap.
pub proof fn merge_changes_when_it_gains(stored: Record, incoming: Record)
    ensures
        stored.gains(incoming) <==> stored.merged(incoming) != stored,
{
    if !stored.gains(incoming) {
        assert(stored.merged(incoming).segments =~= stored.segments);
        assert(stored.merged(incoming) =~= stored);
    } else if stored.segments.len() == 0 && incoming.segments.len() > 0 {
        assert(stored.merged(incoming).segments.len() != stored.segments.len());
    }
}

/// What is known never regresses: a merge leaves a record at least as
/// covered as it was, and a complete record as it is.
pub proof fn merge_is_monotonic(stored: Record, incoming: Record)
    ensures
        coverage(Some(stored.merged(incoming))).rank() >= coverage(Some(stored)).rank(),
        stored.complete() ==> stored.merged(incoming) == stored,
{
    if stored.complete() {
        merge_changes_when_it_gains(stored, incoming);
    }
}

impl Activity {
    /// Decides [`Record::complete`].
    pub fn is_complete(&self) -> (complete: bool)
        ensures
            complete == self@.complete(),
    {
        self.average_heartrate.is_some() && self.max_heartrate.is_some() && self.segments.len() > 0
    }

    /// Fills the gaps of this record from `incoming`, and says whether there
    /// was a gap to fill.
    pub fn fill_from(&mut self, incoming: &Activity) -> (updated: bool)
        ensures
            final(self)@ == old(self)@.merged(incoming@),
            updated == old(self)@.gains(incoming@),
    {
        let mut updated = false;
        if self.average_heartrate.is_none() && incoming.average_heartrate.is_some() {
            self.average_heartrate = incoming.average_heartrate;
            updated = true;
        }
        if self.max_heartrate.is_none() && incoming.max_heartrate.is_some() {
            self.max_heartrate = incoming.max_heartrate;
            updated = true;
        }
        if self.segments.len() == 0 && incoming.segments.len() > 0 {
            let segments = incoming.segments.clone();
            assert(segments@ =~= incoming.segments@);
            self.segments = segments;
            updated = true;
        }
        assert(self@.segments =~= old(self)@.merged(incoming@).segments);
        updated
    }
}

/// Whether a request for an activity has to go to the activity source: not
/// when a complete record is stored, otherwise yes.
pub fn needs_fetch(stored: &Option<Activity>) -> (fetch: bool)
    ensures
        fetch == (coverage(
            match stored {
                Some(activity) => Some(activity@),
                None => None,
            },
        ) != Coverage::Complete),
{
    match stored {
        Some(activity) => !activity.is_complete(),
        None => true,
    }
}

/// Where the activity source is reached, and what is asked of it.
#[derive(Debug, PartialEq, Eq)]
pub struct StravaClient {
    base: String,
}

impl Clone for StravaClient {
    fn clone(&self) -> (copy: Self)
        ensures
            copy == *self,
    {
        StravaClient { base: self.base.clone() }
    }
}

impl StravaClient {
    /// The address that requests start with.
    pub closed spec fn base(&self) -> Seq<char> {
        self.base@
    }

    /// The address of the power stream of an activity.
    pub open spec fn streams_address(&self, activity_id: u64) -> Seq<char> {
        self.base() + "/activities/"@ + decimal(activity_id as nat) + "/streams"@
    }

    /// A client of the public service.
    pub fn new() -> (client: StravaClient)
        ensures
            client.base() == "https://www.strava.com/api/v3"@,
    {
        StravaClient { base: String::from_str("https://www.strava.com/api/v3") }
    }

    /// A client of the service at `base`.
    pub fn with_base(base: String) -> (client: StravaClient)
        ensures
            client.base() == base@,
    {
        StravaClient { base }
    }

    /// The address that requests start with.
    pub fn base_url(&self) -> (base: &String)
        ensures
            base@ == self.base(),
    {
        &self.base
    }

    /// The address to fetch the power stream of `activity_id` from.
    pub fn streams_url(&self, activity_id: u64) -> (url: String)
        ensures
            url@ == self.streams_address(activity_id),
    {
        let mut url = self.base.clone();
        url.append("/activities/");
        url.append(decimal_text(activity_id).as_str());
        url.append("/streams");
        url
    }

    /// Stores the power stream that was fetched for `activity_id` as an
    /// activity of its own, unless the store holds an activity of that id,
    /// and says whether it did.
    pub fn fetch_and_store_power(&self, store: &mut ActivityStore, activity_id: u64, power: Vec<u32>) -> (added:
        bool)
        ensures
            final(store)@.wf(),
            added == !old(store)@.has(decimal(activity_id as nat)),
            final(store)@ == if added {
                old(store)@.put(
                    decimal(activity_id as nat),
                    Trace {
                        id: decimal(activity_id as nat),
                        metadata: "strava"@,
                        heart_rate: Seq::empty(),
                        power: power@,
                        gps: Seq::empty(),
                    },
                )
            } else {
                old(store)@
            },
    {
        store.add_if_missing(power_activity(activity_id, power))
    }
}

} // verus!
