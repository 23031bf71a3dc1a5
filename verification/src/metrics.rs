//! The metrics client: the handle through which call sites count.

use crate::statsd::{
    add_tag, begin_counter, client_discards, client_prefix, clone_client, discarding_client,
    error_is_io, failure_kind, pending_discards, pending_stem, pending_tags, try_send,
};
use crate::tags::{caller_entries, outgoing, outgoing_tags, tag_texts, TagSet, TagText};
use crate::wire::{counter_line, counter_stem};
use cadence::{MetricError, StatsdClient};
use vstd::prelude::*;

verus! {

/// Why a send failed, as the statsd client sorts its errors.
#[derive(Debug, Clone, Copy, PartialEq, Eq, Structural)]
pub enum FailureKind {
    /// The metric itself was refused.
    InvalidInput,
    /// The sink could not take the metric: a full or closed queue, a socket error.
    Io,
}

/// What became of one increment.
#[derive(Debug, Clone, PartialEq, Eq)]
pub enum Emission {
    /// The client holds no sink: the event was dropped at the call site.
    NoClient,
    /// The sink took the event; the line that was handed to it.
    Sent(String),
    /// The sink refused the event, which is lost.
    Failed(FailureKind),
}

/// The kind under which a failure is reported.
pub open spec fn failure_kind_of(error: MetricError) -> FailureKind {
    if error_is_io(error) {
        FailureKind::Io
    } else {
        FailureKind::InvalidInput
    }
}

/// What an increment of `label` with the caller's tags `caller` may come to
/// on a client that holds `client`.
pub open spec fn emission_of(
    client: Option<StatsdClient>,
    label: Seq<char>,
    caller: Seq<TagText>,
    outcome: Emission,
) -> bool {
    match client {
        None => outcome is NoClient,
        Some(sink) => {
            &&& !(outcome is NoClient)
            &&& client_discards(sink) ==> outcome is Sent
            &&& outcome matches Emission::Sent(line) ==> line@ == counter_line(
                client_prefix(sink),
                label,
                outgoing(caller),
            )
        },
    }
}

/// `metrics` is a handle on a copy of `shared`: it holds nothing where there
/// is nothing to share, else a client with the same prefix and the same sink.
pub open spec fn handle_on(shared: Option<StatsdClient>, metrics: Metrics) -> bool {
    match shared {
        None => metrics.client() is None,
        Some(client) => metrics.client() matches Some(own) && client_prefix(own) == client_prefix(
            client,
        ) && client_discards(own) == client_discards(client),
    }
}

impl Emission {
    /// The outcome that stands for what the sink answered: the line where it
    /// took the event, the kind of the error where it did not.
    pub fn of_send(sent: Result<String, MetricError>) -> (outcome: Emission)
        ensures
            match sent {
                Ok(line) => outcome == Emission::Sent(line),
                Err(error) => outcome == Emission::Failed(failure_kind_of(error)),
            },
    {
        match sent {
            Ok(line) => Emission::Sent(line),
            Err(error) => Emission::Failed(failure_kind(&error)),
        }
    }
}

/// A handle for counting. It holds a statsd client or nothing; with nothing,
/// every event is dropped where it is made.
#[derive(Debug, Clone)]
pub struct Metrics {
    client: Option<StatsdClient>,
}

impl Metrics {
    /// The statsd client that the handle holds, if any.
    pub closed spec fn client(&self) -> Option<StatsdClient> {
        self.client
    }

    /// A handle on a copy of the shared client `shared`; a handle that drops
    /// every event where there is none.
    pub fn from_shared(shared: Option<&StatsdClient>) -> (metrics: Metrics)
        ensures
            handle_on(
                match shared {
                    Some(client) => Some(*client),
                    None => None,
                },
                metrics,
            ),
    {
        match shared {
            None => Metrics { client: None },
            Some(client) => Metrics { client: Some(clone_client(client)) },
        }
    }

    /// A client without a prefix whose sink discards every event.
    pub fn sink() -> (client: StatsdClient)
        ensures
            client_discards(client),
            client_prefix(client) == Seq::<char>::empty(),
    {
        proof {
            reveal_strlit("");
        }
        discarding_client("")
    }

    /// Counts `label` once, without tags of the caller's.
    pub fn incr(self, label: &str) {
        self.incr_with_tags(label, None)
    }

    /// Counts `label` once, with the caller's tags and the `version` tag.
    /// Whatever becomes of the event, the caller is not told.
    pub fn incr_with_tags(self, label: &str, tags: Option<TagSet>) {
        let _ = self.try_incr_with_tags(label, tags);
    }

    /// Counts `label` once, with the `version` tag alone, and says what
    /// became of the event.
    pub fn try_incr(&self, label: &str) -> (outcome: Emission)
        ensures
            emission_of(self.client(), label@, Seq::empty(), outcome),
    {
        self.try_incr_with_tags(label, None)
    }

    /// Counts `label` once, with the caller's tags and the `version` tag,
    /// and says what became of the event.
    pub fn try_incr_with_tags(&self, label: &str, tags: Option<TagSet>) -> (outcome: Emission)
        ensures
            emission_of(self.client(), label@, caller_entries(tags), outcome),
    {
        match &self.client {
            None => Emission::NoClient,
            Some(client) => {
                let out = outgoing_tags(tags);
                let mut pending = begin_counter(client, label);
                let mut i: usize = 0;
                while i < out.len()
                    invariant
                        i <= out.len(),
                        pending_stem(pending) == counter_stem(client_prefix(*client), label@),
                        pending_tags(pending) == tag_texts(out@).take(i as int),
                        pending_discards(pending) == client_discards(*client),
                    decreases out.len() - i,
                {
                    pending = add_tag(pending, out[i].key.as_str(), out[i].value.as_str());
                    assert(tag_texts(out@).take(i as int).push(out@[i as int]@) =~= tag_texts(
                        out@,
                    ).take(i + 1));
                    i = i + 1;
                }
                assert(tag_texts(out@).take(i as int) =~= tag_texts(out@));
                Emission::of_send(try_send(pending))
            },
        }
    }
}

} // verus!
