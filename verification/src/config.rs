//! Configuration surface consumed by the library: where the daemon's control
//! socket lives and how often to poll. Loading (files, environment) is done
//! outside the library; it hands over plain values.

use vstd::prelude::*;

verus! {

/// Control-interface settings: the socket location and the poll interval in
/// seconds. A zero interval is rejected by the poll schedule's constructor.
#[derive(Debug)]
pub struct VICIConfig {
    pub socket: String,
    pub interval: u64,
}

} // verus!
