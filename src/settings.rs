//! Defaults of the settings that the library decides.
use vstd::prelude::*;
use vstd::string::*;

verus! {

/// The database file used where none is configured.
pub const DEFAULT_DATABASE: &'static str = "./kube-tag-radar.sqlite";

/// The database file used where none is configured.
pub fn default_database() -> (r: String)
    ensures
        r@ == DEFAULT_DATABASE@,
{
    String::from_str(DEFAULT_DATABASE)
}

/// Seconds from start to the first update pass: five minutes.
pub fn default_update_delay() -> (r: u64)
    ensures
        r == 5 * 60,
{
    5 * 60
}

/// Seconds between update passes: three hours.
pub fn default_update_interval() -> (r: u64)
    ensures
        r == 3 * 60 * 60,
{
    3 * 60 * 60
}

/// Seconds between ticks of the update timer: one minute.
pub fn default_tick_interval() -> (r: u64)
    ensures
        r == 60,
{
    60
}

} // verus!
