//! Fees per crossing and per day.

use vstd::prelude::*;

use crate::calendar::Timestamp;
use crate::holidays::is_toll_free_date_spec;
use crate::vehicle::{is_exempt_vehicle, VehicleExemptionCategory};
use crate::TollCalculator;

verus! {

/// The most a vehicle pays in one day.
pub const DAILY_CAP: u32 = 60;

/// Crossings at most this many seconds after the start of a charge interval
/// belong to it.
pub const INTERVAL_SECONDS: u32 = 3600;

/// The fee table: fee for a time of day, by half-open ranges of minutes
/// since midnight.
pub open spec fn band_fee(hour: int, minute: int) -> int {
    let t = hour * 60 + minute;
    if 6 * 60 <= t < 6 * 60 + 30 {
        8
    } else if 6 * 60 + 30 <= t < 7 * 60 {
        13
    } else if 7 * 60 <= t < 8 * 60 {
        18
    } else if 8 * 60 <= t < 8 * 60 + 30 {
        13
    } else if 8 * 60 + 30 <= t < 15 * 60 {
        8
    } else if 15 * 60 <= t < 15 * 60 + 30 {
        13
    } else if 15 * 60 + 30 <= t < 17 * 60 {
        18
    } else if 17 * 60 <= t < 18 * 60 {
        13
    } else if 18 * 60 <= t < 18 * 60 + 30 {
        8
    } else {
        0
    }
}

/// The fee for one crossing.
pub open spec fn fee_at(t: Timestamp, vehicle: VehicleExemptionCategory) -> int {
    if is_toll_free_date_spec(t.date) || is_exempt_vehicle(vehicle) {
        0
    } else {
        band_fee(t.hour as int, t.minute as int)
    }
}

/// All crossings fall on one calendar date.
pub open spec fn same_date(s: Seq<Timestamp>) -> bool {
    forall|i: int, j: int| 0 <= i < s.len() && 0 <= j < s.len() ==> s[i].date == s[j].date
}

/// `s` with `t` placed before the first element that is not earlier in the day.
pub open spec fn insert_by_time(s: Seq<Timestamp>, t: Timestamp) -> Seq<Timestamp>
    decreases s.len(),
{
    if s.len() == 0 {
        seq![t]
    } else if t.seconds_of_day() <= s[0].seconds_of_day() {
        seq![t] + s
    } else {
        seq![s[0]] + insert_by_time(s.drop_first(), t)
    }
}

/// `s` in ascending order of time of day; crossings at the same time keep
/// their order.
pub open spec fn sort_by_time(s: Seq<Timestamp>) -> Seq<Timestamp>
    decreases s.len(),
{
    if s.len() == 0 {
        s
    } else {
        insert_by_time(sort_by_time(s.drop_last()), s.last())
    }
}

/// The charge intervals of a sequence of crossings, folded in order: the
/// current interval's start (seconds since midnight), the fee it charges,
/// and the uncapped total so far.
pub open spec fn intervals(vehicle: VehicleExemptionCategory, s: Seq<Timestamp>) -> (int, int, int)
    decreases s.len(),
{
    if s.len() == 0 {
        (0, 0, 0)
    } else if s.len() == 1 {
        (s[0].seconds_of_day(), fee_at(s[0], vehicle), fee_at(s[0], vehicle))
    } else {
        let prev = intervals(vehicle, s.drop_last());
        let t = s.last();
        let fee = fee_at(t, vehicle);
        if t.seconds_of_day() - prev.0 <= INTERVAL_SECONDS {
            if fee > prev.1 {
                (prev.0, fee, prev.2 + (fee - prev.1))
            } else {
                prev
            }
        } else {
            (t.seconds_of_day(), fee, prev.2 + fee)
        }
    }
}

/// The day's fee for crossings already in time order: the sum over charge
/// intervals of each one's largest fee, capped.
pub open spec fn daily_total(vehicle: VehicleExemptionCategory, s: Seq<Timestamp>) -> int {
    if s.len() == 0 {
        0
    } else if intervals(vehicle, s).2 < DAILY_CAP {
        intervals(vehicle, s).2
    } else {
        DAILY_CAP as int
    }
}

/// Why a day's fee cannot be computed.
#[derive(Clone, Copy, Debug, PartialEq, Eq, Structural)]
pub enum TollError {
    /// The crossings do not all fall on the same calendar date.
    MixedDates,
}

/// Inserting keeps every element and adds `t`.
proof fn lemma_insert_elements(s: Seq<Timestamp>, t: Timestamp)
    ensures
        insert_by_time(s, t).len() == s.len() + 1,
        forall|k: int|
            0 <= k < s.len() + 1 ==> insert_by_time(s, t)[k] == t || s.contains(
                #[trigger] insert_by_time(s, t)[k],
            ),
    decreases s.len(),
{
    if s.len() > 0 && t.seconds_of_day() > s[0].seconds_of_day() {
        lemma_insert_elements(s.drop_first(), t);
        assert forall|k: int| 0 <= k < s.len() + 1 implies insert_by_time(s, t)[k] == t
            || s.contains(#[trigger] insert_by_time(s, t)[k]) by {
            if k > 0 {
                let x = insert_by_time(s, t)[k];
                assert(x == insert_by_time(s.drop_first(), t)[k - 1]);
                if x != t {
                    let j = choose|j: int| 0 <= j < s.len() - 1 && s.drop_first()[j] == x;
                    assert(s[j + 1] == x);
                }
            } else {
                assert(s[0] == insert_by_time(s, t)[0]);
            }
        }
    } else if s.len() > 0 {
        assert forall|k: int| 0 <= k < s.len() + 1 implies insert_by_time(s, t)[k] == t
            || s.contains(#[trigger] insert_by_time(s, t)[k]) by {
            if k > 0 {
                assert(s[k - 1] == insert_by_time(s, t)[k]);
            }
        }
    }
}

/// Sorting keeps the length, and every element of the result comes from the input.
proof fn lemma_sort_elements(s: Seq<Timestamp>)
    ensures
        sort_by_time(s).len() == s.len(),
        forall|k: int| 0 <= k < s.len() ==> s.contains(#[trigger] sort_by_time(s)[k]),
    decreases s.len(),
{
    if s.len() > 0 {
        let p = s.drop_last();
        lemma_sort_elements(p);
        lemma_insert_elements(sort_by_time(p), s.last());
        assert forall|k: int| 0 <= k < s.len() implies s.contains(#[trigger] sort_by_time(s)[k]) by {
            let x = sort_by_time(s)[k];
            if x == s.last() {
                assert(s[s.len() - 1] == x);
            } else {
                assert(sort_by_time(p).contains(x));
                let j = choose|j: int| 0 <= j < p.len() && sort_by_time(p)[j] == x;
                let i = choose|i: int| 0 <= i < p.len() && p[i] == sort_by_time(p)[j];
                assert(s[i] == x);
            }
        }
    }
}

/// `s` with `t` inserted by time of day.
fn insert_in_order(s: &Vec<Timestamp>, t: Timestamp) -> (r: Vec<Timestamp>)
    requires
        t.wf(),
        forall|k: int| 0 <= k < s@.len() ==> (#[trigger] s@[k]).wf(),
    ensures
        r@ == insert_by_time(s@, t),
{
    let key = t.seconds_since_midnight();
    let mut r: Vec<Timestamp> = Vec::new();
    let mut j: usize = 0;
    assert(s@.skip(0) =~= s@);
    assert(r@ + insert_by_time(s@, t) =~= insert_by_time(s@, t));
    while j < s.len() && key > s[j].seconds_since_midnight()
        invariant
            j <= s@.len(),
            key == t.seconds_of_day(),
            forall|k: int| 0 <= k < s@.len() ==> (#[trigger] s@[k]).wf(),
            r@ == s@.take(j as int),
            insert_by_time(s@, t) == r@ + insert_by_time(s@.skip(j as int), t),
        decreases s@.len() - j,
    {
        let ghost rest = s@.skip(j as int);
        assert(rest.drop_first() =~= s@.skip(j + 1));
        assert(rest[0] == s@[j as int]);
        r.push(s[j]);
        assert(r@ =~= s@.take(j + 1));
        j = j + 1;
    }
    let ghost split = j as int;
    assert(insert_by_time(s@.skip(split), t) =~= seq![t] + s@.skip(split));
    r.push(t);
    while j < s.len()
        invariant
            0 <= split <= j <= s@.len(),
            r@ == s@.take(split).push(t) + s@.subrange(split, j as int),
            insert_by_time(s@, t) == s@.take(split) + (seq![t] + s@.skip(split)),
        decreases s@.len() - j,
    {
        r.push(s[j]);
        assert(r@ =~= s@.take(split).push(t) + s@.subrange(split, j + 1));
        j = j + 1;
    }
    assert(r@ =~= insert_by_time(s@, t));
    r
}

/// The crossings in ascending order of time of day.
fn sorted_by_time(ts: &Vec<Timestamp>) -> (r: Vec<Timestamp>)
    requires
        forall|k: int| 0 <= k < ts@.len() ==> (#[trigger] ts@[k]).wf(),
    ensures
        r@ == sort_by_time(ts@),
{
    let mut r: Vec<Timestamp> = Vec::new();
    let mut i: usize = 0;
    assert(ts@.take(0) =~= Seq::<Timestamp>::empty());
    while i < ts.len()
        invariant
            i <= ts@.len(),
            forall|k: int| 0 <= k < ts@.len() ==> (#[trigger] ts@[k]).wf(),
            r@ == sort_by_time(ts@.take(i as int)),
        decreases ts@.len() - i,
    {
        proof {
            let p = ts@.take(i as int);
            lemma_sort_elements(p);
            assert forall|k: int| 0 <= k < r@.len() implies (#[trigger] r@[k]).wf() by {
                let x = r@[k];
                assert(p.contains(x));
                let j = choose|j: int| 0 <= j < p.len() && p[j] == x;
                assert(ts@[j] == x);
            }
            assert(ts@.take(i + 1).drop_last() =~= p);
        }
        r = insert_in_order(&r, ts[i]);
        i = i + 1;
    }
    assert(ts@.take(ts@.len() as int) =~= ts@);
    r
}

impl TollCalculator {
    /// Whether a vehicle category never pays a toll.
    pub fn is_toll_free_vehicle(&self, vehicle: VehicleExemptionCategory) -> (r: bool)
        ensures
            r == is_exempt_vehicle(vehicle),
    {
        match vehicle {
            VehicleExemptionCategory::Car => false,
            _ => true,
        }
    }

    /// The fee for one crossing.
    pub fn get_toll_fee_at(&self, date: Timestamp, vehicle: VehicleExemptionCategory) -> (r: u32)
        requires
            date.wf(),
        ensures
            r == fee_at(date, vehicle),
            r <= 18,
    {
        if self.is_toll_free_date(date.date) || self.is_toll_free_vehicle(vehicle) {
            return 0;
        }
        let hour = date.hour;
        let minute = date.minute;

        if hour == 6 && minute <= 29 {
            return 8;
        }
        if hour == 6 {
            return 13;
        }
        if hour == 7 {
            return 18;
        }
        if hour == 8 && minute <= 29 {
            return 13;
        }
        if 8 <= hour && hour <= 14 {
            return 8;
        }
        if hour == 15 && minute <= 29 {
            return 13;
        }
        if (hour == 15 && minute >= 30) || hour == 16 {
            return 18;
        }
        if hour == 17 {
            return 13;
        }
        if hour == 18 && minute <= 29 {
            return 8;
        }
        0
    }

    /// The day's fee for a vehicle's crossings. The crossings are taken in
    /// order of time of day; each charge interval starts at a crossing and
    /// takes in the following ones up to an hour after that start, and costs
    /// the largest fee among them; the day's fee is the sum over intervals,
    /// capped at `DAILY_CAP`. Crossings on more than one date are refused.
    pub fn get_toll_fee(&self, vehicle: VehicleExemptionCategory, dates: Vec<Timestamp>) -> (r:
        Result<u32, TollError>)
        requires
            forall|k: int| 0 <= k < dates@.len() ==> (#[trigger] dates@[k]).wf(),
        ensures
            match r {
                Ok(fee) => same_date(dates@) && fee == daily_total(vehicle, sort_by_time(dates@)),
                Err(e) => !same_date(dates@) && e == TollError::MixedDates,
            },
    {
        if dates.len() == 0 {
            return Ok(0);
        }
        let first_day = dates[0].date;
        let mut k: usize = 0;
        while k < dates.len()
            invariant
                k <= dates@.len(),
                first_day == dates@[0].date,
                forall|i: int| 0 <= i < k ==> (#[trigger] dates@[i]).date == first_day,
            decreases dates@.len() - k,
        {
            if dates[k].date != first_day {
                return Err(TollError::MixedDates);
            }
            k = k + 1;
        }

        let sorted = sorted_by_time(&dates);
        proof {
            lemma_sort_elements(dates@);
            assert forall|k: int| 0 <= k < sorted@.len() implies (#[trigger] sorted@[k]).wf() by {
                let j = choose|j: int| 0 <= j < dates@.len() && dates@[j] == sorted@[k];
                assert(dates@[j].wf());
            }
            assert(sorted@.take(1).len() == 1);
        }
        let mut interval_start: u32 = sorted[0].seconds_since_midnight();
        let mut interval_fee: u32 = self.get_toll_fee_at(sorted[0], vehicle);
        let mut total_fee: u32 = interval_fee;
        let mut i: usize = 1;
        while i < sorted.len()
            invariant
                1 <= i <= sorted@.len(),
                forall|k: int| 0 <= k < sorted@.len() ==> (#[trigger] sorted@[k]).wf(),
                interval_start == intervals(vehicle, sorted@.take(i as int)).0,
                interval_fee == intervals(vehicle, sorted@.take(i as int)).1,
                total_fee == daily_total(vehicle, sorted@.take(i as int)),
                interval_start < 86400,
                interval_fee <= 18,
                total_fee <= DAILY_CAP,
            decreases sorted@.len() - i,
        {
            let t = sorted[i];
            let t_secs = t.seconds_since_midnight();
            let next_fee = self.get_toll_fee_at(t, vehicle);
            proof {
                assert(sorted@.take(i + 1).drop_last() =~= sorted@.take(i as int));
            }
            if t_secs <= interval_start + INTERVAL_SECONDS {
                if next_fee > interval_fee {
                    let sum = total_fee + (next_fee - interval_fee);
                    total_fee = if sum < DAILY_CAP { sum } else { DAILY_CAP };
                    interval_fee = next_fee;
                }
            } else {
                let sum = total_fee + next_fee;
                total_fee = if sum < DAILY_CAP { sum } else { DAILY_CAP };
                interval_start = t_secs;
                interval_fee = next_fee;
            }
            i = i + 1;
        }
        proof {
            assert(sorted@.take(sorted@.len() as int) =~= sorted@);
        }
        Ok(total_fee)
    }
}

} // verus!
