//! Best-effort counter metrics for a network service.
//!
//! Call sites count named events through a [`metrics::Metrics`] handle. Each
//! event carries the caller's tags and a `version` tag with the build
//! version, and goes to a statsd client as one line of the counter
//! protocol. Counting never fails for the caller: an event that the sink
//! does not take is lost, and only [`metrics::Metrics::try_incr_with_tags`]
//! tells.
//!
//! - [`tags`]: the caller's tags and the tags that are sent for them.
//! - [`wire`]: what a line looks like.
//! - [`metrics`]: the handle and what becomes of an event.
//! - [`settings`], [`sink`]: from the configuration to a client.
//! - [`statsd`]: what is taken on trust from the statsd client.

pub mod metrics;
pub mod settings;
pub mod sink;
pub mod statsd;
pub mod tags;
pub mod wire;
