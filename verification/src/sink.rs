//! Building the sink from the configuration.
//!
//! Without a collector the client is finished here and discards every
//! event. With one, this library names what has to be opened; opening the
//! socket is the caller's part.

use crate::metrics::{emission_of, handle_on, Emission, Metrics};
use crate::settings::Settings;
use crate::statsd::{client_discards, client_prefix, discarding_client};
use crate::tags::{outgoing, TagText};
use crate::wire::{counter_line, formatted_prefix};
use cadence::StatsdClient;
use vstd::prelude::*;

verus! {

/// The local address that the sending socket is bound to: any interface, a
/// port of the system's choice.
pub const LOCAL_ADDR: &'static str = "0.0.0.0:0";

/// How many events may wait for the sender. An event that finds the queue
/// full is dropped.
pub const QUEUE_CAPACITY: usize = 1024;

/// What has to be opened to reach a collector.
#[derive(Debug, Clone, PartialEq, Eq)]
pub struct UdpRoute {
    /// The local address to bind the UDP socket to.
    pub local_addr: String,
    /// Whether the socket is put into non-blocking mode. It always is.
    pub nonblocking: bool,
    /// The collector's host.
    pub host: String,
    /// The collector's port.
    pub port: u16,
    /// The bound of the queue between the callers and the sender.
    pub queue_capacity: usize,
    /// The prefix to make the client with.
    pub label: String,
}

/// How the service is to count.
#[derive(Debug)]
pub enum SinkSetup {
    /// No collector is configured. The client is finished: it discards every
    /// event, and no socket is opened for it.
    NoOp(StatsdClient),
    /// A collector is configured; the client is made from a socket on this route.
    Networked(UdpRoute),
}

/// The route that `opts` asks for, read with the host `host`.
pub open spec fn route_matches(opts: Settings, host: Seq<char>, route: UdpRoute) -> bool {
    &&& route.local_addr@ == LOCAL_ADDR@
    &&& route.nonblocking
    &&& route.host@ == host
    &&& route.port == opts.statsd_port
    &&& route.queue_capacity == QUEUE_CAPACITY
    &&& route.label@ == opts.statsd_label@
}

/// What `metrics_from_opts` may return for `opts`.
pub open spec fn setup_of(opts: Settings, setup: SinkSetup) -> bool {
    match opts.statsd_host {
        None => setup matches SinkSetup::NoOp(client) && client_discards(client)
            && client_prefix(client) == formatted_prefix(opts.statsd_label@),
        Some(host) => setup matches SinkSetup::Networked(route) && route_matches(
            opts,
            host@,
            route,
        ),
    }
}

/// Decides from the configuration how the service counts. Without a host it
/// returns the finished client, which discards every event; with a host it
/// returns the route to the collector and opens nothing itself.
pub fn metrics_from_opts(opts: &Settings) -> (setup: SinkSetup)
    ensures
        setup_of(*opts, setup),
{
    match &opts.statsd_host {
        None => SinkSetup::NoOp(discarding_client(opts.statsd_label.as_str())),
        Some(host) => SinkSetup::Networked(
            UdpRoute {
                local_addr: LOCAL_ADDR.to_owned(),
                nonblocking: true,
                host: host.clone(),
                port: opts.statsd_port,
                queue_capacity: QUEUE_CAPACITY,
                label: opts.statsd_label.clone(),
            },
        ),
    }
}

/// Without a host in the configuration no route is named, so nothing is
/// opened, and nothing can fail afterwards: a handle on the client that was
/// returned takes every increment, and what it hands to the sink is the line
/// of the wire under the configured label.
pub proof fn lemma_unconfigured_never_fails(
    opts: Settings,
    setup: SinkSetup,
    metrics: Metrics,
    label: Seq<char>,
    caller: Seq<TagText>,
    outcome: Emission,
)
    requires
        opts.statsd_host is None,
        setup_of(opts, setup),
        setup matches SinkSetup::NoOp(client) ==> handle_on(Some(client), metrics),
        emission_of(metrics.client(), label, caller, outcome),
    ensures
        setup is NoOp,
        outcome matches Emission::Sent(line) && line@ == counter_line(
            formatted_prefix(opts.statsd_label@),
            label,
            outgoing(caller),
        ),
{
}

} // verus!
