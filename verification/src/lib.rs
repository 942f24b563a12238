//! Exhaustive, parallel search of a date range for the one day on which a
//! remote registry holds a record of a vehicle.
//!
//! The library holds the decisions of the search: how a range of days is
//! shared out among workers, how a response is classified, what each worker
//! does next, and what the shared counters and the event log hold afterwards.
//! Sending requests, writing files and drawing windows are left to the caller.

pub mod checker;
pub mod classify;
pub mod date;
pub mod events;
pub mod laws;
pub mod messages;
pub mod partition;
pub mod request;
pub mod run;
pub mod text;
