//! Vehicle categories and which of them never pay a toll.

use vstd::prelude::*;

verus! {

/// The one property of a vehicle that the toll rules read.
#[derive(Clone, Copy, Debug, PartialEq, Eq, Structural)]
pub enum VehicleExemptionCategory {
    Car,
    Motorbike,
    Tractor,
    Emergency,
    Diplomat,
    Foreign,
    Military,
}

/// Every category but `Car` is exempt from tolls.
pub open spec fn is_exempt_vehicle(category: VehicleExemptionCategory) -> bool {
    category != VehicleExemptionCategory::Car
}

/// A passenger car.
#[derive(Clone, Copy, Debug, PartialEq, Eq, Structural)]
pub struct Car;

impl Car {
    pub fn vehicle_type(&self) -> (r: VehicleExemptionCategory)
        ensures
            r == VehicleExemptionCategory::Car,
    {
        VehicleExemptionCategory::Car
    }
}

/// A motorbike.
#[derive(Clone, Copy, Debug, PartialEq, Eq, Structural)]
pub struct Motorbike;

impl Motorbike {
    pub fn vehicle_type(&self) -> (r: VehicleExemptionCategory)
        ensures
            r == VehicleExemptionCategory::Motorbike,
    {
        VehicleExemptionCategory::Motorbike
    }
}

} // verus!
