//! Day-bucketed holdings in memory: for each user, one valuation per order and
//! calendar day.
//!
//! Recording a price for an order looks among the holdings of the order's user
//! for one of the same symbol, original price and amount that was last valued
//! on the same day. If there is one, its current price and instant are
//! overwritten; if not, a new holding is appended. The holdings of one user
//! thus form a series of daily valuations with at most one entry per order
//! and day.

use vstd::prelude::*;
use crate::binary64::Binary64;
use crate::day::UtcTime;
use crate::holdings::Order;
use crate::keyed::{Keyed, Table};

verus! {

/// The valuation of one order on one day.
#[derive(Debug, PartialEq)]
pub struct Holding {
    pub user: String,
    pub symbol: String,
    pub original_price: Binary64,
    pub current_price: Binary64,
    pub amount: i64,
    pub updated_at: UtcTime,
}

impl Clone for Holding {
    fn clone(&self) -> (copy: Self)
        ensures
            copy == *self,
    {
        Holding {
            user: self.user.clone(),
            symbol: self.symbol.clone(),
            original_price: self.original_price,
            current_price: self.current_price,
            amount: self.amount,
            updated_at: self.updated_at,
        }
    }
}

/// A clone of a holding is that holding.
pub proof fn holding_clone_is_copy()
    ensures
        forall|a: Holding, b: Holding| #[trigger] cloned(a, b) ==> a == b,
{
}

/// Whether `holding` values `order` on day `day`: same symbol, the order's
/// price as original price (compared as numbers, exactly), same amount, and
/// last valued on that day.
pub open spec fn tracks(holding: Holding, order: Order, day: int) -> bool {
    &&& holding.symbol@ == order.symbol@
    &&& holding.original_price.same_number(order.price)
    &&& holding.amount == order.amount
    &&& holding.updated_at.day() == day
}

/// Whether two holdings value the same order on the same day.
pub open spec fn same_bucket(a: Holding, b: Holding) -> bool {
    &&& a.symbol@ == b.symbol@
    &&& a.original_price.same_number(b.original_price)
    &&& a.amount == b.amount
    &&& a.updated_at.day() == b.updated_at.day()
}

/// No two holdings of the list value the same order on the same day.
pub open spec fn one_per_bucket(list: Seq<Holding>) -> bool {
    forall|i: int, j: int| 0 <= i < j < list.len() ==> !same_bucket(#[trigger] list[i], #[trigger] list[j])
}

/// Every holding of the list belongs to `user`.
pub open spec fn owned_by(list: Seq<Holding>, user: Seq<char>) -> bool {
    forall|i: int| 0 <= i < list.len() ==> (#[trigger] list[i]).user@ == user
}

/// Whether position `i` holds the first holding of the list that values
/// `order` on `day`.
pub open spec fn is_first_match(list: Seq<Holding>, order: Order, day: int, i: int) -> bool {
    &&& 0 <= i < list.len()
    &&& tracks(list[i], order, day)
    &&& forall|j: int| 0 <= j < i ==> !tracks(#[trigger] list[j], order, day)
}

/// The position of the first holding that values `order` on `day`.
pub open spec fn first_match(list: Seq<Holding>, order: Order, day: int) -> Option<int> {
    if exists|i: int| is_first_match(list, order, day, i) {
        Some(choose|i: int| is_first_match(list, order, day, i))
    } else {
        None
    }
}

/// The holding that a first valuation of `order` creates.
pub open spec fn opened(order: Order, price: Binary64, now: UtcTime) -> Holding {
    Holding {
        user: order.user,
        symbol: order.symbol,
        original_price: order.price,
        current_price: price,
        amount: order.amount,
        updated_at: now,
    }
}

/// `holding` valued again: the current price and the instant are replaced,
/// everything else stays.
pub open spec fn revalued(holding: Holding, price: Binary64, now: UtcTime) -> Holding {
    Holding { current_price: price, updated_at: now, ..holding }
}

/// The holdings of one user after `order` was valued at `price` at the
/// instant `now`.
pub open spec fn recorded(list: Seq<Holding>, order: Order, price: Binary64, now: UtcTime) -> Seq<Holding> {
    match first_match(list, order, now.day()) {
        Some(i) => list.update(i, revalued(list[i], price, now)),
        None => list.push(opened(order, price, now)),
    }
}

/// A first match is the only first match.
pub proof fn first_match_is(list: Seq<Holding>, order: Order, day: int, i: int)
    requires
        is_first_match(list, order, day, i),
    ensures
        first_match(list, order, day) == Some(i),
{
    let k = choose|k: int| is_first_match(list, order, day, k);
    if k < i {
        assert(!tracks(list[k], order, day));
    } else if i < k {
        assert(!tracks(list[i], order, day));
    }
}

/// Where no holding values the order on the day, there is no first match.
pub proof fn first_match_none(list: Seq<Holding>, order: Order, day: int)
    requires
        forall|j: int| 0 <= j < list.len() ==> !tracks(#[trigger] list[j], order, day),
    ensures
        first_match(list, order, day).is_none(),
{
}

/// Recording keeps at most one holding per order and day.
pub proof fn recorded_keeps_buckets(list: Seq<Holding>, order: Order, price: Binary64, now: UtcTime)
    requires
        one_per_bucket(list),
    ensures
        one_per_bucket(recorded(list, order, price, now)),
{
    let after = recorded(list, order, price, now);
    match first_match(list, order, now.day()) {
        Some(i) => {
            assert(is_first_match(list, order, now.day(), i));
            assert forall|a: int, b: int| 0 <= a < b < after.len() implies !same_bucket(
                #[trigger] after[a],
                #[trigger] after[b],
            ) by {
                assert(!same_bucket(list[a], list[b]));
            }
        },
        None => {
            assert forall|a: int, b: int| 0 <= a < b < after.len() implies !same_bucket(
                #[trigger] after[a],
                #[trigger] after[b],
            ) by {
                if b < list.len() {
                    assert(!same_bucket(list[a], list[b]));
                } else if tracks(list[a], order, now.day()) {
                    least_match_exists(list, order, now.day(), a);
                }
            }
        },
    }
}

/// Recording for an order of a user keeps a list of that user's holdings a
/// list of that user's holdings.
pub proof fn recorded_keeps_owner(list: Seq<Holding>, order: Order, price: Binary64, now: UtcTime)
    requires
        owned_by(list, order.user@),
    ensures
        owned_by(recorded(list, order, price, now), order.user@),
{
    match first_match(list, order, now.day()) {
        Some(i) => {
            assert(is_first_match(list, order, now.day(), i));
        },
        None => {},
    }
}

/// Where some holding values the order on the day, some holding is the first
/// to do so.
pub proof fn least_match_exists(list: Seq<Holding>, order: Order, day: int, a: int)
    requires
        0 <= a < list.len(),
        tracks(list[a], order, day),
    ensures
        exists|k: int| is_first_match(list, order, day, k),
    decreases a,
{
    if forall|j: int| 0 <= j < a ==> !tracks(#[trigger] list[j], order, day) {
        assert(is_first_match(list, order, day, a));
    } else {
        let j = choose|j: int| 0 <= j < a && tracks(#[trigger] list[j], order, day);
        least_match_exists(list, order, day, j);
    }
}

/// Idempotent day-bucket upsert: valuing an order, then valuing it again at
/// an instant of the same day, leaves as many holdings as the first valuation
/// did; exactly one of them values the order on that day, and its current
/// price is that of the second valuation. This holds for every order whose
/// price is a number.
pub proof fn record_twice_same_day(
    list: Seq<Holding>,
    order: Order,
    first_price: Binary64,
    first: UtcTime,
    second_price: Binary64,
    second: UtcTime,
)
    requires
        one_per_bucket(list),
        !order.price.is_nan(),
        first.day() == second.day(),
    ensures
        ({
            let once = recorded(list, order, first_price, first);
            let twice = recorded(once, order, second_price, second);
            &&& twice.len() == once.len()
            &&& first_match(once, order, second.day()) matches Some(i)
            &&& twice == once.update(i, revalued(once[i], second_price, second))
            &&& twice[i].current_price == second_price
            &&& forall|j: int| 0 <= j < twice.len() && j != i ==> !tracks(#[trigger] twice[j], order, second.day())
            &&& tracks(twice[i], order, second.day())
        }),
{
    let day = first.day();
    let once = recorded(list, order, first_price, first);
    // After the first valuation some holding values the order on the day.
    let at: int = match first_match(list, order, day) {
        Some(i) => i,
        None => list.len() as int,
    };
    assert(0 <= at < once.len() && tracks(once[at], order, day)) by {
        if first_match(list, order, day).is_some() {
            assert(is_first_match(list, order, day, at));
        }
    }
    least_match_exists(once, order, day, at);
    let i = choose|i: int| is_first_match(once, order, day, i);
    first_match_is(once, order, day, i);
    let twice = recorded(once, order, second_price, second);
    // No other holding of the list does.
    recorded_keeps_buckets(list, order, first_price, first);
    assert forall|j: int| 0 <= j < twice.len() && j != i implies !tracks(#[trigger] twice[j], order, day) by {
        if tracks(once[j], order, day) {
            if i < j {
                assert(!same_bucket(once[i], once[j]));
            } else {
                assert(!same_bucket(once[j], once[i]));
            }
        }
    }
}

/// Day-boundary split: valuing an order into an empty list at two instants
/// that fall on different days gives two holdings, the first with the first
/// price and the second with the second.
pub proof fn record_on_two_days(
    order: Order,
    first_price: Binary64,
    first: UtcTime,
    second_price: Binary64,
    second: UtcTime,
)
    requires
        first.day() != second.day(),
    ensures
        ({
            let once = recorded(Seq::<Holding>::empty(), order, first_price, first);
            let twice = recorded(once, order, second_price, second);
            &&& once == seq![opened(order, first_price, first)]
            &&& twice == seq![opened(order, first_price, first), opened(order, second_price, second)]
        }),
{
    let none = Seq::<Holding>::empty();
    first_match_none(none, order, first.day());
    let once = recorded(none, order, first_price, first);
    assert(once =~= seq![opened(order, first_price, first)]);
    first_match_none(once, order, second.day());
    let twice = recorded(once, order, second_price, second);
    assert(twice =~= seq![opened(order, first_price, first), opened(order, second_price, second)]);
}

/// Whether exactly one holding of the list values `order` on `day`, and
/// values it at `price`.
pub open spec fn held_once(list: Seq<Holding>, order: Order, day: int, price: Binary64) -> bool {
    exists|i: int|
        {
            &&& 0 <= i < list.len()
            &&& #[trigger] tracks(list[i], order, day)
            &&& list[i].current_price == price
            &&& forall|j: int| 0 <= j < list.len() && j != i ==> !tracks(#[trigger] list[j], order, day)
        }
}

/// After an order whose price is a number was valued, exactly one holding
/// values it on the day, at the price it was valued at.
pub proof fn recorded_is_held_once(list: Seq<Holding>, order: Order, price: Binary64, now: UtcTime)
    requires
        one_per_bucket(list),
        !order.price.is_nan(),
    ensures
        held_once(recorded(list, order, price, now), order, now.day(), price),
{
    let day = now.day();
    let after = recorded(list, order, price, now);
    let at: int = match first_match(list, order, day) {
        Some(i) => i,
        None => list.len() as int,
    };
    if first_match(list, order, day).is_some() {
        assert(is_first_match(list, order, day, at));
    }
    recorded_keeps_buckets(list, order, price, now);
    assert(tracks(after[at], order, day));
    assert forall|j: int| 0 <= j < after.len() && j != at implies !tracks(#[trigger] after[j], order, day) by {
        if tracks(after[j], order, day) {
            if at < j {
                assert(!same_bucket(after[at], after[j]));
            } else {
                assert(!same_bucket(after[j], after[at]));
            }
        }
    }
}

/// Valuing another order leaves an order held once at its price, provided
/// that the two are valued at the same price if they have the same symbol.
pub proof fn recorded_keeps_held_once(
    list: Seq<Holding>,
    order: Order,
    price: Binary64,
    other: Order,
    other_price: Binary64,
    now: UtcTime,
)
    requires
        held_once(list, order, now.day(), price),
        other.symbol@ == order.symbol@ ==> other_price == price,
    ensures
        held_once(recorded(list, other, other_price, now), order, now.day(), price),
{
    let day = now.day();
    let after = recorded(list, other, other_price, now);
    let i = choose|i: int|
        {
            &&& 0 <= i < list.len()
            &&& #[trigger] tracks(list[i], order, day)
            &&& list[i].current_price == price
            &&& forall|j: int| 0 <= j < list.len() && j != i ==> !tracks(#[trigger] list[j], order, day)
        };
    match first_match(list, other, day) {
        Some(m) => {
            assert(is_first_match(list, other, day, m));
            assert(tracks(after[i], order, day));
            assert forall|j: int| 0 <= j < after.len() && j != i implies !tracks(#[trigger] after[j], order, day) by {
                assert(!tracks(list[j], order, day));
            }
        },
        None => {
            assert(tracks(after[i], order, day));
            assert forall|j: int| 0 <= j < after.len() && j != i implies !tracks(#[trigger] after[j], order, day) by {
                if j < list.len() {
                    assert(!tracks(list[j], order, day));
                } else if tracks(after[j], order, day) {
                    assert(tracks(list[i], other, day));
                    least_match_exists(list, other, day, i);
                }
            }
        },
    }
}

/// The day-bucketed holdings of every user, in memory.
#[derive(Debug)]
pub struct HoldingsService {
    inner: Keyed<Vec<Holding>>,
}

impl View for HoldingsService {
    type V = Table<Seq<Holding>>;

    /// The users, oldest first, each with the list of their holdings.
    closed spec fn view(&self) -> Table<Seq<Holding>> {
        self.inner.rows()
    }
}

/// Every list holds the holdings of its key, one per order and day.
pub open spec fn in_good_order(ledger: Table<Seq<Holding>>) -> bool {
    &&& ledger.wf()
    &&& forall|u: int|
        0 <= u < ledger.keys.len() ==> one_per_bucket(#[trigger] ledger.values[u]) && owned_by(
            ledger.values[u],
            ledger.keys[u],
        )
}

/// Recording into a ledger in good order leaves it in good order.
pub proof fn record_keeps_good_order(ledger: Table<Seq<Holding>>, order: Order, price: Binary64, now: UtcTime)
    requires
        in_good_order(ledger),
    ensures
        in_good_order(ledger.put(order.user@, recorded(ledger.list(order.user@), order, price, now))),
{
    let user = order.user@;
    let list = ledger.list(user);
    let after = ledger.put(user, recorded(list, order, price, now));
    ledger.put_then_get(user, recorded(list, order, price, now), user);
    if ledger.has(user) {
        let at = ledger.keys.index_of(user);
        assert(one_per_bucket(ledger.values[at]) && owned_by(ledger.values[at], ledger.keys[at]));
    }
    recorded_keeps_buckets(list, order, price, now);
    recorded_keeps_owner(list, order, price, now);
    assert forall|u: int| 0 <= u < after.keys.len() implies one_per_bucket(#[trigger] after.values[u])
        && owned_by(after.values[u], after.keys[u]) by {
        if u < ledger.keys.len() {
            assert(one_per_bucket(ledger.values[u]) && owned_by(ledger.values[u], ledger.keys[u]));
        }
    }
}

/// Finds the first holding of `list` that values `order` on the day of `now`.
fn find_match(list: &Vec<Holding>, order: &Order, now: &UtcTime) -> (found: Option<usize>)
    ensures
        match found {
            Some(i) => first_match(list@, *order, now.day()) == Some(i as int) && i < list@.len(),
            None => first_match(list@, *order, now.day()).is_none(),
        },
{
    let mut i: usize = 0;
    while i < list.len()
        invariant
            i <= list@.len(),
            forall|j: int| 0 <= j < i ==> !tracks(#[trigger] list@[j], *order, now.day()),
        decreases list@.len() - i,
    {
        let holding = &list[i];
        if holding.symbol == order.symbol && holding.original_price.equals(&order.price) && holding.amount
            == order.amount && holding.updated_at.same_day(now) {
            proof {
                first_match_is(list@, *order, now.day(), i as int);
            }
            return Some(i);
        }
        i += 1;
    }
    proof {
        first_match_none(list@, *order, now.day());
    }
    None
}

/// Values `order` in the list of its user.
fn record_in(list: &mut Vec<Holding>, order: &Order, current_price: Binary64, now: UtcTime)
    ensures
        final(list)@ == recorded(old(list)@, *order, current_price, now),
{
    match find_match(list, order, &now) {
        Some(i) => {
            list[i].current_price = current_price;
            list[i].updated_at = now;
            assert(list@ =~= recorded(old(list)@, *order, current_price, now));
        },
        None => {
            list.push(
                Holding {
                    user: order.user.clone(),
                    symbol: order.symbol.clone(),
                    original_price: order.price,
                    current_price,
                    amount: order.amount,
                    updated_at: now,
                },
            );
        },
    }
}

impl HoldingsService {
    /// What holds of every ledger: the holdings of each user are theirs, one
    /// per order and day.
    #[verifier::type_invariant]
    pub open spec fn good_order(self) -> bool {
        in_good_order(self@)
    }

    /// A ledger that holds nothing.
    pub fn new() -> (service: HoldingsService)
        ensures
            service@ == Table::<Seq<Holding>>::empty(),
    {
        let inner: Keyed<Vec<Holding>> = Keyed::new();
        assert(inner.rows() =~= Table::<Seq<Holding>>::empty());
        HoldingsService { inner }
    }

    /// Values `order` at `current_price` at the instant `now`: the holding of
    /// the order for the day of `now` gets the price and the instant, or is
    /// created with them.
    pub fn record(&mut self, order: &Order, current_price: Binary64, now: UtcTime)
        ensures
            in_good_order(old(self)@),
            in_good_order(final(self)@),
            final(self)@ == old(self)@.put(
                order.user@,
                recorded(old(self)@.list(order.user@), *order, current_price, now),
            ),
    {
        let ghost before = self@;
        let ghost list_before = before.list(order.user@);
        let ghost after = before.put(order.user@, recorded(list_before, *order, current_price, now));
        proof {
            use_type_invariant(&*self);
            record_keeps_good_order(before, *order, current_price, now);
        }
        let mut taken = HoldingsService::new();
        core::mem::swap(self, &mut taken);
        let HoldingsService { mut inner } = taken;
        match inner.position(order.user.as_str()) {
            None => {
                proof {
                    first_match_none(list_before, *order, now.day());
                }
                let mut list: Vec<Holding> = Vec::new();
                list.push(
                    Holding {
                        user: order.user.clone(),
                        symbol: order.symbol.clone(),
                        original_price: order.price,
                        current_price,
                        amount: order.amount,
                        updated_at: now,
                    },
                );
                assert(list@ =~= recorded(list_before, *order, current_price, now));
                inner.insert(order.user.clone(), list);
            },
            Some(u) => {
                proof {
                    before.index_is_unique(order.user@, u as int);
                }
                let mut list = inner.replace(u, Vec::new());
                record_in(&mut list, order, current_price, now);
                let _ = inner.replace(u, list);
            },
        }
        assert(inner.rows() =~= after);
        *self = HoldingsService { inner };
    }

    /// The holdings of every user, user after user in the order in which the
    /// users arrived.
    pub fn all(&self) -> (holdings: Vec<Holding>)
        ensures
            in_good_order(self@),
            holdings@ == self@.flat(),
    {
        proof {
            use_type_invariant(self);
            holding_clone_is_copy();
        }
        self.inner.flattened()
    }

    /// The holdings of `user`; none for a user that the ledger does not hold.
    pub fn for_user(&self, user: &str) -> (holdings: Vec<Holding>)
        ensures
            in_good_order(self@),
            holdings@ == self@.list(user@),
    {
        proof {
            use_type_invariant(self);
            holding_clone_is_copy();
        }
        match self.inner.list_of(user) {
            Some(list) => list,
            None => Vec::new(),
        }
    }
}

} // verus!
