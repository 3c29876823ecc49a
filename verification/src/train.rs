//! The snapshot of a train run that the reports are made from.

use vstd::prelude::*;
use crate::clock::Timestamp;

verus! {

/// A stop on the route of a train run.
#[derive(Clone, Debug, PartialEq, Eq)]
pub struct Station {
    /// The short code that identifies the station.
    pub code: String,
    /// The name of the station, as shown to people.
    pub name: String,
    /// When the train is scheduled to arrive.
    pub schedule_arrival: Timestamp,
    /// When the train arrived or is now expected to arrive, if known.
    pub arrival: Option<Timestamp>,
}

/// One journey of a numbered train on one day.
#[derive(Clone, Debug, PartialEq, Eq)]
pub struct Train {
    /// The number of the train and the day of the run, joined by `-`.
    pub train_id: String,
    /// The code of the station where the run starts.
    pub origin_code: String,
    /// The code of the station where the run ends.
    pub destination_code: String,
    /// The name of the route.
    pub route_name: String,
    /// The operator of the run.
    pub provider: String,
    /// The code of the station that the train is approaching.
    pub event_code: String,
    /// The stops of the run, in the order in which the train makes them.
    pub stations: Vec<Station>,
}

/// The codes of the stations, in route order.
pub open spec fn codes_of(stations: Seq<Station>) -> Seq<Seq<char>> {
    Seq::new(stations.len(), |i: int| stations[i].code@)
}

} // verus!
