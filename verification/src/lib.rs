//! Status reports for passenger train runs.
//!
//! The crate turns a snapshot of a train run (its stations, the station it
//! is approaching, and the arrival times at that station) into text: a
//! sentence telling how early or late the train is, and a diagram of the
//! route with the train drawn at its position.  Every function carries a
//! contract over a mathematical model of its result, checked by Verus.

pub mod text;
pub mod search;
pub mod decimal;
pub mod clock;
pub mod delay;
pub mod train;
pub mod route;
pub mod failure;
pub mod report;
pub mod request;
pub mod timetable;
