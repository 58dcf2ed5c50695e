//! Recorded activities with their sensor streams, by id, in memory only.

use vstd::prelude::*;
use vstd::string::StringExecFns;
use crate::binary64::Binary64;
use crate::keyed::{Keyed, Table};

verus! {

/// A position on the globe, in degrees.
#[derive(Clone, Copy, Debug, PartialEq, Eq, Structural)]
pub struct GpsPoint {
    pub lat: Binary64,
    pub lon: Binary64,
}

/// One recorded activity.
#[derive(Debug, PartialEq)]
pub struct Activity {
    pub id: String,
    pub metadata: String,
    pub heart_rate: Vec<u32>,
    pub power: Vec<u32>,
    pub gps: Vec<GpsPoint>,
}

/// The mathematical content of an [`Activity`].
#[verifier::ext_equal]
pub struct Trace {
    pub id: Seq<char>,
    pub metadata: Seq<char>,
    pub heart_rate: Seq<u32>,
    pub power: Seq<u32>,
    pub gps: Seq<GpsPoint>,
}

impl View for Activity {
    type V = Trace;

    open spec fn view(&self) -> Trace {
        Trace {
            id: self.id@,
            metadata: self.metadata@,
            heart_rate: self.heart_rate@,
            power: self.power@,
            gps: self.gps@,
        }
    }
}

impl Clone for Activity {
    fn clone(&self) -> (copy: Self)
        ensures
            copy@ == self@,
    {
        let heart_rate = self.heart_rate.clone();
        let power = self.power.clone();
        let gps = self.gps.clone();
        assert(heart_rate@ =~= self.heart_rate@);
        assert(power@ =~= self.power@);
        assert(gps@ =~= self.gps@);
        Activity { id: self.id.clone(), metadata: self.metadata.clone(), heart_rate, power, gps }
    }
}

/// The one decimal digit `d` as text.
pub open spec fn digit(d: int) -> Seq<char> {
    if d == 0 {
        "0"@
    } else if d == 1 {
        "1"@
    } else if d == 2 {
        "2"@
    } else if d == 3 {
        "3"@
    } else if d == 4 {
        "4"@
    } else if d == 5 {
        "5"@
    } else if d == 6 {
        "6"@
    } else if d == 7 {
        "7"@
    } else if d == 8 {
        "8"@
    } else {
        "9"@
    }
}

/// The number `n` in decimal, without leading zeros.
pub open spec fn decimal(n: nat) -> Seq<char>
    decreases n,
{
    if n < 10 {
        digit(n as int)
    } else {
        decimal(n / 10) + digit((n % 10) as int)
    }
}

fn digit_text(d: u64) -> (text: &'static str)
    requires
        d < 10,
    ensures
        text@ == digit(d as int),
{
    if d == 0 {
        "0"
    } else if d == 1 {
        "1"
    } else if d == 2 {
        "2"
    } else if d == 3 {
        "3"
    } else if d == 4 {
        "4"
    } else if d == 5 {
        "5"
    } else if d == 6 {
        "6"
    } else if d == 7 {
        "7"
    } else if d == 8 {
        "8"
    } else {
        "9"
    }
}

/// Writes `n` in decimal.
pub fn decimal_text(n: u64) -> (text: String)
    ensures
        text@ == decimal(n as nat),
    decreases n,
{
    if n < 10 {
        String::from_str(digit_text(n))
    } else {
        let mut text = decimal_text(n / 10);
        text.append(digit_text(n % 10));
        text
    }
}

/// The activity that a power stream of the activity source amounts to: the
/// id in decimal, the word `strava` as metadata, the stream as power, and no
/// other stream.
pub fn power_activity(activity_id: u64, power: Vec<u32>) -> (activity: Activity)
    ensures
        activity@ == (Trace {
            id: decimal(activity_id as nat),
            metadata: "strava"@,
            heart_rate: Seq::empty(),
            power: power@,
            gps: Seq::empty(),
        }),
{
    Activity {
        id: decimal_text(activity_id),
        metadata: String::from_str("strava"),
        heart_rate: Vec::new(),
        power,
        gps: Vec::new(),
    }
}

/// The views of a run of activities.
pub open spec fn traces(activities: Seq<Activity>) -> Seq<Trace> {
    Seq::new(activities.len(), |i: int| activities[i]@)
}

/// Activities by id, in memory.
#[derive(Debug)]
pub struct ActivityStore {
    inner: Keyed<Activity>,
}

impl View for ActivityStore {
    type V = Table<Trace>;

    /// The ids that the store holds, oldest first, each with its activity.
    closed spec fn view(&self) -> Table<Trace> {
        Table { keys: self.inner@.keys, values: traces(self.inner@.values) }
    }
}

impl ActivityStore {
    /// A store that holds nothing.
    pub fn new() -> (store: ActivityStore)
        ensures
            store@ == Table::<Trace>::empty(),
    {
        let store = ActivityStore { inner: Keyed::new() };
        assert(store@ =~= Table::<Trace>::empty());
        store
    }

    /// Stores `activity` under its id, in place of what was stored there.
    pub fn add(&mut self, activity: Activity)
        ensures
            final(self)@.wf(),
            final(self)@ == old(self)@.put(activity.id@, activity@),
    {
        let id = activity.id.clone();
        self.inner.insert(id, activity);
        assert(self@ =~= old(self)@.put(activity.id@, activity@));
    }

    /// Stores `activity` under its id unless the store holds that id, and
    /// says whether it did.
    pub fn add_if_missing(&mut self, activity: Activity) -> (added: bool)
        ensures
            final(self)@.wf(),
            added == !old(self)@.has(activity.id@),
            final(self)@ == if added {
                old(self)@.put(activity.id@, activity@)
            } else {
                old(self)@
            },
    {
        if self.inner.contains_key(activity.id.as_str()) {
            false
        } else {
            let id = activity.id.clone();
            self.inner.insert(id, activity);
            assert(self@ =~= old(self)@.put(activity.id@, activity@));
            true
        }
    }

    /// The activity stored under `id`.
    pub fn get(&self, id: &str) -> (found: Option<Activity>)
        ensures
            self@.wf(),
            match found {
                Some(activity) => self@.get(id@) == Some(activity@),
                None => !self@.has(id@),
            },
    {
        match self.inner.get(id) {
            Some(activity) => Some(activity.clone()),
            None => None,
        }
    }
}

/// What is stored first stays: after `add_if_missing` found the id taken,
/// the store answers for that id as before.
pub proof fn first_activity_stays(store: Table<Trace>, first: Trace, second: Trace)
    requires
        store.wf(),
        first.id == second.id,
    ensures
        ({
            let once = store.put(first.id, first);
            &&& once.has(second.id)
            &&& once.get(first.id) == Some(first)
        }),
{
    store.put_then_get(first.id, first, first.id);
}

} // verus!
