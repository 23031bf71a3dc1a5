//! What the service's configuration says about metrics.

use vstd::prelude::*;

verus! {

/// The statsd part of the configuration.
#[derive(Debug, Clone, PartialEq, Eq)]
pub struct Settings {
    /// The collector's host. Without one, nothing is sent over the network.
    pub statsd_host: Option<String>,
    /// The collector's port; read only where there is a host.
    pub statsd_port: u16,
    /// The prefix under which every metric of the service is named.
    pub statsd_label: String,
}

} // verus!
