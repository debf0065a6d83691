//! General facts about the day's fee, proved from the definitions that the
//! contracts of `TollCalculator` use.

use vstd::prelude::*;

use crate::calendar::Timestamp;
use crate::fees::{daily_total, fee_at, insert_by_time, intervals, sort_by_time, DAILY_CAP};
use crate::holidays::is_toll_free_date_spec;
use crate::vehicle::{is_exempt_vehicle, VehicleExemptionCategory};

verus! {

/// A day without crossings costs nothing.
pub proof fn lemma_no_crossings_no_fee(vehicle: VehicleExemptionCategory)
    ensures
        daily_total(vehicle, sort_by_time(Seq::<Timestamp>::empty())) == 0,
{
}

/// A day never costs more than the daily cap.
pub proof fn lemma_daily_fee_capped(vehicle: VehicleExemptionCategory, s: Seq<Timestamp>)
    ensures
        daily_total(vehicle, sort_by_time(s)) <= DAILY_CAP,
{
}

/// No crossing on a weekend day or a holiday costs anything.
pub proof fn lemma_toll_free_date_no_fee(t: Timestamp, vehicle: VehicleExemptionCategory)
    requires
        is_toll_free_date_spec(t.date),
    ensures
        fee_at(t, vehicle) == 0,
{
}

proof fn lemma_exempt_intervals(vehicle: VehicleExemptionCategory, s: Seq<Timestamp>)
    requires
        is_exempt_vehicle(vehicle),
    ensures
        intervals(vehicle, s).1 == 0,
        intervals(vehicle, s).2 == 0,
    decreases s.len(),
{
    if s.len() > 1 {
        lemma_exempt_intervals(vehicle, s.drop_last());
    }
}

/// An exempt vehicle pays nothing, whatever its crossings.
pub proof fn lemma_exempt_vehicle_no_fee(vehicle: VehicleExemptionCategory, s: Seq<Timestamp>)
    requires
        is_exempt_vehicle(vehicle),
    ensures
        daily_total(vehicle, sort_by_time(s)) == 0,
{
    lemma_exempt_intervals(vehicle, sort_by_time(s));
}

proof fn lemma_sort_pair(a: Timestamp, b: Timestamp)
    requires
        a.seconds_of_day() <= b.seconds_of_day(),
    ensures
        a.seconds_of_day() < b.seconds_of_day() ==> sort_by_time(seq![a, b]) == seq![a, b],
        a.seconds_of_day() == b.seconds_of_day() ==> sort_by_time(seq![a, b]) == seq![b, a],
{
    let s = seq![a, b];
    assert(s.drop_last() =~= seq![a]);
    assert(seq![a].drop_last() =~= Seq::<Timestamp>::empty());
    assert(sort_by_time(Seq::<Timestamp>::empty()) == Seq::<Timestamp>::empty());
    assert(seq![a].last() == a);
    assert(insert_by_time(Seq::<Timestamp>::empty(), a) == seq![a]);
    assert(sort_by_time(seq![a]) == seq![a]);
    assert(s.last() == b);
    assert(insert_by_time(Seq::<Timestamp>::empty(), b) == seq![b]);
    assert(seq![a].drop_first() =~= Seq::<Timestamp>::empty());
    assert(seq![b] + seq![a] =~= seq![b, a]);
    assert(seq![a] + seq![b] =~= seq![a, b]);
}

/// Two crossings at most an hour apart form one charge interval: the day
/// costs the larger of their two fees.
pub proof fn lemma_crossings_within_hour_merge(
    vehicle: VehicleExemptionCategory,
    a: Timestamp,
    b: Timestamp,
)
    requires
        a.seconds_of_day() <= b.seconds_of_day() <= a.seconds_of_day() + 3600,
    ensures
        daily_total(vehicle, sort_by_time(seq![a, b])) == if fee_at(a, vehicle) < fee_at(
            b,
            vehicle,
        ) {
            fee_at(b, vehicle)
        } else {
            fee_at(a, vehicle)
        },
{
    lemma_sort_pair(a, b);
    let s = sort_by_time(seq![a, b]);
    assert(s.drop_last() =~= seq![s[0]]);
    reveal_with_fuel(intervals, 2);
}

/// Two crossings more than an hour apart form two charge intervals: the day
/// costs the sum of their fees.
pub proof fn lemma_crossings_over_hour_apart_add(
    vehicle: VehicleExemptionCategory,
    a: Timestamp,
    b: Timestamp,
)
    requires
        a.seconds_of_day() + 3600 < b.seconds_of_day(),
    ensures
        daily_total(vehicle, sort_by_time(seq![a, b])) == fee_at(a, vehicle) + fee_at(b, vehicle),
{
    lemma_sort_pair(a, b);
    let s = seq![a, b];
    assert(s.drop_last() =~= seq![a]);
    reveal_with_fuel(intervals, 2);
}

} // verus!
