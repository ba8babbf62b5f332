//! Planned trips and the mileage that the trips still to come will use.

use crate::calendar::days_between;
use crate::calendar::CivilDate;
use crate::calendar::Date;
use crate::error::ArithmeticError;
use crate::error::ValidationError;
use vstd::prelude::*;

verus! {

/// A trip as a mathematical value: the model of a [`Trip`].
pub struct TripView {
    pub name: Seq<char>,
    pub start: CivilDate,
    pub end: CivilDate,
    pub estimated_mileage: u32,
}

impl TripView {
    /// Whether the trip does not end before it starts.
    pub open spec fn is_valid(self) -> bool {
        days_between(self.start, self.end) >= 0
    }

    /// Whether the trip has ended before `today`.
    pub open spec fn is_past(self, today: CivilDate) -> bool {
        days_between(self.end, today) > 0
    }

    /// The mileage that the trip will still use on `today`: nothing once it
    /// is past.
    pub open spec fn upcoming_mileage(self, today: CivilDate) -> int {
        if self.is_past(today) {
            0
        } else {
            self.estimated_mileage as int
        }
    }
}

/// A planned trip with an estimate of its mileage. A trip does not change
/// once it is made.
#[derive(Debug)]
pub struct Trip {
    pub(crate) name: String,
    pub(crate) start: Date,
    pub(crate) end: Date,
    pub(crate) estimated_mileage: u32,
}

impl View for Trip {
    type V = TripView;

    closed spec fn view(&self) -> TripView {
        TripView {
            name: self.name@,
            start: self.start@,
            end: self.end@,
            estimated_mileage: self.estimated_mileage,
        }
    }
}

impl Trip {
    /// What holds of every `Trip`: its dates are dates, and it does not end
    /// before it starts.
    #[verifier::type_invariant]
    pub closed spec fn wf(self) -> bool {
        &&& self.start.wf()
        &&& self.end.wf()
        &&& self@.is_valid()
    }

    /// A trip from `start` to `end`, which must not lie before `start`.
    pub fn new(name: String, start: Date, end: Date, estimated_mileage: u32) -> (r: Result<
        Trip,
        ValidationError,
    >)
        ensures
            match r {
                Ok(trip) => {
                    &&& days_between(start@, end@) >= 0
                    &&& trip.wf()
                    &&& trip@ == (TripView { name: name@, start: start@, end: end@, estimated_mileage })
                },
                Err(e) => days_between(start@, end@) < 0 && e == ValidationError::InvalidPeriod,
            },
    {
        proof {
            use_type_invariant(start);
            use_type_invariant(end);
        }
        if end.day_number() < start.day_number() {
            return Err(ValidationError::InvalidPeriod);
        }
        Ok(Trip { name, start, end, estimated_mileage })
    }

    /// The name of the trip.
    pub fn name(&self) -> (r: &String)
        ensures
            r@ == self@.name,
    {
        &self.name
    }

    /// The first day of the trip.
    pub fn start(&self) -> (r: Date)
        ensures
            r@ == self@.start,
    {
        self.start
    }

    /// The last day of the trip.
    pub fn end(&self) -> (r: Date)
        ensures
            r@ == self@.end,
    {
        self.end
    }

    /// The mileage that the trip is expected to use.
    pub fn estimated_mileage(&self) -> (r: u32)
        ensures
            r == self@.estimated_mileage,
    {
        self.estimated_mileage
    }

    /// Whether the trip has ended before `today`.
    pub fn is_past(&self, today: Date) -> (r: bool)
        ensures
            r == self@.is_past(today@),
    {
        self.end.day_number() < today.day_number()
    }
}

/// The mileage that the trips of `trips` will still use on `today`: the sum
/// of the estimates of those that are not past.
pub open spec fn upcoming_mileage(trips: Seq<Trip>, today: CivilDate) -> int
    decreases trips.len(),
{
    if trips.len() == 0 {
        0
    } else {
        upcoming_mileage(trips.drop_last(), today) + trips.last()@.upcoming_mileage(today)
    }
}

/// [`upcoming_mileage`] as a sum that has to fit in 32 bits.
pub open spec fn total_upcoming_mileage_of(trips: Seq<Trip>, today: CivilDate) -> Result<
    u32,
    ArithmeticError,
> {
    if upcoming_mileage(trips, today) > u32::MAX {
        Err(ArithmeticError::Overflow)
    } else {
        Ok(upcoming_mileage(trips, today) as u32)
    }
}

/// The sum over the first trips is never negative and never more than the
/// sum over all.
pub proof fn lemma_upcoming_mileage_grows(trips: Seq<Trip>, today: CivilDate, n: int)
    requires
        0 <= n <= trips.len(),
    ensures
        0 <= upcoming_mileage(trips.take(n), today) <= upcoming_mileage(trips, today),
    decreases trips.len() - n,
{
    if n == trips.len() {
        assert(trips.take(n) =~= trips);
        lemma_upcoming_mileage_is_not_negative(trips, today);
    } else {
        lemma_upcoming_mileage_grows(trips, today, n + 1);
        assert(trips.take(n + 1).drop_last() =~= trips.take(n));
        lemma_upcoming_mileage_is_not_negative(trips.take(n), today);
    }
}

/// No sum of upcoming mileage is negative.
pub proof fn lemma_upcoming_mileage_is_not_negative(trips: Seq<Trip>, today: CivilDate)
    ensures
        0 <= upcoming_mileage(trips, today),
    decreases trips.len(),
{
    if trips.len() > 0 {
        lemma_upcoming_mileage_is_not_negative(trips.drop_last(), today);
    }
}

/// A trip adds its upcoming mileage to the sum wherever it stands among the
/// others: a past trip nothing, any other its estimate.
pub proof fn lemma_upcoming_mileage_insert(
    trips: Seq<Trip>,
    today: CivilDate,
    at: int,
    trip: Trip,
)
    requires
        0 <= at <= trips.len(),
    ensures
        upcoming_mileage(trips.insert(at, trip), today) == upcoming_mileage(trips, today)
            + trip@.upcoming_mileage(today),
    decreases trips.len(),
{
    let longer = trips.insert(at, trip);
    if at == trips.len() {
        assert(longer.drop_last() =~= trips);
    } else {
        assert(longer.last() == trips.last());
        assert(longer.drop_last() =~= trips.drop_last().insert(at, trip));
        lemma_upcoming_mileage_insert(trips.drop_last(), today, at, trip);
    }
}

/// The planned trips of one vehicle.
#[derive(Debug)]
pub struct Trips {
    trips: Vec<Trip>,
}

impl View for Trips {
    type V = Seq<Trip>;

    closed spec fn view(&self) -> Seq<Trip> {
        self.trips@
    }
}

impl Trips {
    /// No trips.
    pub fn new() -> (r: Trips)
        ensures
            r@ == Seq::<Trip>::empty(),
    {
        Trips { trips: Vec::new() }
    }

    /// Adds `trip` behind the others, and hands the trips back for the next
    /// one.
    pub fn add(&mut self, trip: Trip) -> (ret: &mut Self)
        ensures
            ret@ == old(self)@.push(trip),
            *final(self) == *final(ret),
    {
        self.trips.push(trip);
        self
    }

    /// The mileage that the trips will still use on `today`: the sum of the
    /// estimates of the trips that have not ended before `today`, whether or
    /// not they lie in the period of a contract. It fails where the sum does
    /// not fit in 32 bits.
    pub fn total_upcoming_mileage(&self, today: Date) -> (r: Result<u32, ArithmeticError>)
        ensures
            r == total_upcoming_mileage_of(self@, today@),
    {
        let mut total: u32 = 0;
        let mut done: usize = 0;
        while done < self.trips.len()
            invariant
                done <= self.trips.len(),
                total == upcoming_mileage(self.trips@.take(done as int), today@),
            decreases self.trips.len() - done,
        {
            proof {
                let next = self.trips@.take(done + 1);
                assert(next.last() == self.trips@[done as int]);
                assert(next.drop_last() =~= self.trips@.take(done as int));
                lemma_upcoming_mileage_grows(self.trips@, today@, done + 1);
            }
            if !self.trips[done].is_past(today) {
                total = match total.checked_add(self.trips[done].estimated_mileage) {
                    Some(sum) => sum,
                    None => return Err(ArithmeticError::Overflow),
                };
            }
            done += 1;
        }
        proof {
            assert(self.trips@.take(done as int) =~= self.trips@);
        }
        Ok(total)
    }
}

/// A trip that is added counts toward the upcoming mileage with its
/// estimate, unless it has ended before `today`; a trip that has, counts for
/// nothing.
pub proof fn lemma_added_trip_counts_unless_past(trips: Trips, trip: Trip, today: Date)
    requires
        trip.wf(),
        today.wf(),
    ensures
        trip@.is_past(today@) ==> upcoming_mileage(trips@.push(trip), today@) == upcoming_mileage(
            trips@,
            today@,
        ),
        !trip@.is_past(today@) ==> upcoming_mileage(trips@.push(trip), today@) == upcoming_mileage(
            trips@,
            today@,
        ) + trip@.estimated_mileage,
{
    assert(trips@.push(trip).drop_last() =~= trips@);
}

/// The upcoming mileage does not depend on the order in which the trips were
/// added: two ledgers that hold the same trips have the same sum.
pub proof fn lemma_upcoming_mileage_ignores_order(
    trips: Seq<Trip>,
    reordered: Seq<Trip>,
    today: CivilDate,
)
    requires
        trips.to_multiset() == reordered.to_multiset(),
    ensures
        upcoming_mileage(trips, today) == upcoming_mileage(reordered, today),
    decreases trips.len(),
{
    trips.to_multiset_ensures();
    reordered.to_multiset_ensures();
    if trips.len() > 0 {
        let trip = trips.last();
        assert(trips.contains(trip));
        assert(trips.to_multiset().count(trip) > 0);
        assert(reordered.to_multiset().count(trip) > 0);
        assert(reordered.contains(trip));
        let at = choose|i: int| 0 <= i < reordered.len() && reordered[i] == trip;
        let rest = reordered.remove(at);
        assert(trips.remove(trips.len() - 1) =~= trips.drop_last());
        assert(trips.drop_last().to_multiset() == rest.to_multiset());
        lemma_upcoming_mileage_ignores_order(trips.drop_last(), rest, today);
        assert(rest.insert(at, trip) =~= reordered);
        lemma_upcoming_mileage_insert(rest, today, at, trip);
    }
}

} // verus!
