//! Verified core of the radio backend: queue rules, world views, device
//! identity parsing and LAN discovery bookkeeping.
use vstd::prelude::*;

pub mod auth;
pub mod poller;
pub mod clock;
pub mod discovery;
pub mod error;
pub mod models;
pub mod physical;
pub mod queue;
pub mod text;
pub mod world;

verus! {
} // verus!
