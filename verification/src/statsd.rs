//! The boundary to `cadence`, the statsd client that does the sending.
//!
//! Nothing in this file is proved. Each item says what it takes from
//! `cadence` on trust; the rest of the library is verified against these
//! statements.

use crate::metrics::FailureKind;
use crate::wire::{counter_stem, formatted_prefix, tag_suffix};
use cadence::{
    Counted, Counter, ErrorKind, Metric, MetricBuilder, MetricError, NopMetricSink, StatsdClient,
};
use vstd::prelude::*;

verus! {

/// `cadence::StatsdClient`: a prefix, a sink and an error handler. Opaque here.
#[verifier::external_type_specification]
#[verifier::external_body]
pub struct ExStatsdClient(StatsdClient);

/// `cadence::MetricError`: why a metric was not sent. Opaque here.
#[verifier::external_type_specification]
#[verifier::external_body]
pub struct ExMetricError(MetricError);

/// A counter that is being put together and has not been sent: a
/// `cadence::MetricBuilder` for a `Counter`. It is held in a struct of this
/// library because the builder's own declaration is generic over a trait of
/// `cadence`.
#[verifier::external_body]
pub struct PendingCounter<'a> {
    builder: MetricBuilder<'a, 'a, Counter>,
}

/// The prefix that `client` writes before each label: the field `prefix` of
/// the `StatsdClient`.
pub uninterp spec fn client_prefix(client: StatsdClient) -> Seq<char>;

/// Whether the sink of `client` is `cadence::NopMetricSink`, which takes every
/// metric, does nothing with it and reports success.
pub uninterp spec fn client_discards(client: StatsdClient) -> bool;

/// What `pending` holds before its tags: the client's prefix, the key, a
/// colon, the value, a bar and the type, as the builder's formatter writes them.
pub uninterp spec fn pending_stem(pending: PendingCounter<'_>) -> Seq<char>;

/// The tags that were added to `pending`, oldest first.
pub uninterp spec fn pending_tags(pending: PendingCounter<'_>) -> Seq<(Seq<char>, Seq<char>)>;

/// Whether `pending` was begun on a client of which `client_discards` holds.
pub uninterp spec fn pending_discards(pending: PendingCounter<'_>) -> bool;

/// Whether `error` is of the kind `cadence::ErrorKind::IoError`.
pub uninterp spec fn error_is_io(error: MetricError) -> bool;

/// Calls `StatsdClient::builder(label, NopMetricSink).build()`.
///
/// Trusted: the client's sink is the no-op sink, and its prefix is `label`
/// as `StatsdClientBuilder` formats it: empty for an empty label, else the
/// label with its trailing full stops cut off and one full stop added.
#[verifier::external_body]
pub(crate) fn discarding_client(label: &str) -> (client: StatsdClient)
    ensures
        client_discards(client),
        client_prefix(client) == formatted_prefix(label@),
{
    StatsdClient::builder(label, NopMetricSink).build()
}

/// Calls `<StatsdClient as Clone>::clone`.
///
/// Trusted: the copy has the same prefix and shares the sink.
#[verifier::external_body]
pub(crate) fn clone_client(client: &StatsdClient) -> (copy: StatsdClient)
    ensures
        client_prefix(copy) == client_prefix(*client),
        client_discards(copy) == client_discards(*client),
{
    client.clone()
}

/// Calls `Counted::incr_with_tags` on `client`.
///
/// Trusted: the builder that comes back is for an increment by one of
/// `label` under the client's prefix, has no tag yet, and sends through
/// that client's sink.
#[verifier::external_body]
pub(crate) fn begin_counter<'a>(client: &'a StatsdClient, label: &'a str) -> (pending:
    PendingCounter<'a>)
    ensures
        pending_stem(pending) == counter_stem(client_prefix(*client), label@),
        pending_tags(pending) == Seq::<(Seq<char>, Seq<char>)>::empty(),
        pending_discards(pending) == client_discards(*client),
{
    PendingCounter { builder: client.incr_with_tags(label) }
}

/// Calls `MetricBuilder::with_tag`.
///
/// Trusted: the tag goes behind the tags that are there, and nothing else
/// changes. (A builder for a counter never holds an error, the one state in
/// which `with_tag` drops the tag.)
#[verifier::external_body]
pub(crate) fn add_tag<'a>(pending: PendingCounter<'a>, key: &'a str, value: &'a str) -> (next:
    PendingCounter<'a>)
    ensures
        pending_stem(next) == pending_stem(pending),
        pending_tags(next) == pending_tags(pending).push((key@, value@)),
        pending_discards(next) == pending_discards(pending),
{
    PendingCounter { builder: pending.builder.with_tag(key, value) }
}

/// Calls `MetricBuilder::try_send` and, where it succeeds, copies the text
/// of the `Counter` that it returns (`Metric::as_metric_str`).
///
/// Trusted: a counter that was sent reads as its stem followed by its tags
/// in the form of the wire; and the no-op sink never fails. On any other
/// sink both outcomes are possible.
#[verifier::external_body]
pub(crate) fn try_send(pending: PendingCounter<'_>) -> (sent: Result<String, MetricError>)
    ensures
        pending_discards(pending) ==> sent is Ok,
        sent matches Ok(line) ==> line@ == pending_stem(pending) + tag_suffix(
            pending_tags(pending),
        ),
{
    match pending.builder.try_send() {
        Ok(counter) => Ok(counter.as_metric_str().to_string()),
        Err(error) => Err(error),
    }
}

/// Calls `MetricError::kind`.
///
/// Trusted: nothing but that the kind depends on the error alone.
#[verifier::external_body]
pub(crate) fn failure_kind(error: &MetricError) -> (kind: FailureKind)
    ensures
        (kind == FailureKind::Io) == error_is_io(*error),
{
    match error.kind() {
        ErrorKind::InvalidInput => FailureKind::InvalidInput,
        ErrorKind::IoError => FailureKind::Io,
    }
}

} // verus!
