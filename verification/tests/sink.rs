use cadence::{MetricSink, QueuingMetricSink, StatsdClient};
use service_metrics::metrics::{Emission, FailureKind, Metrics};
use service_metrics::settings::Settings;
use service_metrics::sink::{metrics_from_opts, SinkSetup, UdpRoute, LOCAL_ADDR, QUEUE_CAPACITY};
use service_metrics::tags::TagSet;
use std::io;
use std::sync::{Arc, Condvar, Mutex};

fn settings(host: Option<&str>, port: u16, label: &str) -> Settings {
    Settings {
        statsd_host: host.map(|h| h.to_string()),
        statsd_port: port,
        statsd_label: label.to_string(),
    }
}

fn unconfigured(label: &str) -> Metrics {
    match metrics_from_opts(&settings(None, 8125, label)) {
        SinkSetup::NoOp(client) => Metrics::from_shared(Some(&client)),
        SinkSetup::Networked(route) => panic!("a route without a host: {:?}", route),
    }
}

/// A sink that holds every event until it is released.
struct HeldSink {
    released: Arc<(Mutex<bool>, Condvar)>,
}

impl MetricSink for HeldSink {
    fn emit(&self, metric: &str) -> io::Result<usize> {
        let (open, changed) = &*self.released;
        let mut open = open.lock().unwrap();
        while !*open {
            open = changed.wait(open).unwrap();
        }
        Ok(metric.len())
    }
}

#[test]
fn the_constants_of_the_route() {
    assert_eq!(LOCAL_ADDR, "0.0.0.0:0");
    assert_eq!(QUEUE_CAPACITY, 1024);
}

#[test]
fn without_a_host_the_client_is_finished_and_discards() {
    let setup = metrics_from_opts(&settings(None, 8125, "svc"));
    assert!(matches!(setup, SinkSetup::NoOp(_)));
}

#[test]
fn host_unset_then_incr_returns_at_once() {
    let metrics = unconfigured("");
    assert_eq!(
        metrics.try_incr_with_tags("req.count", None),
        Emission::Sent("req.count:1|c|#version:0.1.0".to_string())
    );
    metrics.incr("req.count");
}

#[test]
fn without_a_host_no_emission_fails() {
    let metrics = unconfigured("svc");
    for n in 0..2000 {
        let mut tags = TagSet::new();
        tags.insert("n".to_string(), n.to_string());
        assert_eq!(
            metrics.try_incr_with_tags("req.count", Some(tags)),
            Emission::Sent(format!("svc.req.count:1|c|#n:{},version:0.1.0", n))
        );
    }
}

#[test]
fn the_label_is_the_prefix_with_one_full_stop() {
    assert_eq!(
        unconfigured("svc").try_incr_with_tags("hits", None),
        Emission::Sent("svc.hits:1|c|#version:0.1.0".to_string())
    );
    assert_eq!(
        unconfigured("my.app").try_incr_with_tags("hits", None),
        Emission::Sent("my.app.hits:1|c|#version:0.1.0".to_string())
    );
}

#[test]
fn trailing_full_stops_of_the_label_become_one() {
    assert_eq!(
        unconfigured("svc.").try_incr_with_tags("hits", None),
        Emission::Sent("svc.hits:1|c|#version:0.1.0".to_string())
    );
    assert_eq!(
        unconfigured("svc...").try_incr_with_tags("hits", None),
        Emission::Sent("svc.hits:1|c|#version:0.1.0".to_string())
    );
    assert_eq!(
        unconfigured("a..b..").try_incr_with_tags("hits", None),
        Emission::Sent("a..b.hits:1|c|#version:0.1.0".to_string())
    );
}

#[test]
fn a_label_of_full_stops_leaves_one() {
    assert_eq!(
        unconfigured("...").try_incr_with_tags("hits", None),
        Emission::Sent(".hits:1|c|#version:0.1.0".to_string())
    );
}

#[test]
fn an_empty_label_gives_no_prefix() {
    assert_eq!(
        unconfigured("").try_incr_with_tags("hits", None),
        Emission::Sent("hits:1|c|#version:0.1.0".to_string())
    );
}

#[test]
fn the_sink_of_the_type_has_no_prefix_and_discards() {
    let client = Metrics::sink();
    let metrics = Metrics::from_shared(Some(&client));
    assert_eq!(
        metrics.try_incr_with_tags("hits", None),
        Emission::Sent("hits:1|c|#version:0.1.0".to_string())
    );
}

#[test]
fn with_a_host_the_route_is_named_and_nothing_is_opened() {
    let setup = metrics_from_opts(&settings(Some("127.0.0.1"), 8125, "svc"));
    match setup {
        SinkSetup::Networked(route) => assert_eq!(
            route,
            UdpRoute {
                local_addr: "0.0.0.0:0".to_string(),
                nonblocking: true,
                host: "127.0.0.1".to_string(),
                port: 8125,
                queue_capacity: 1024,
                label: "svc".to_string(),
            }
        ),
        SinkSetup::NoOp(_) => panic!("a host was given"),
    }
}

#[test]
fn an_empty_host_is_still_a_host() {
    let setup = metrics_from_opts(&settings(Some(""), 0, ""));
    match setup {
        SinkSetup::Networked(route) => {
            assert_eq!(route.host, "");
            assert_eq!(route.port, 0);
            assert_eq!(route.label, "");
        }
        SinkSetup::NoOp(_) => panic!("a host was given"),
    }
}

#[test]
fn events_beyond_the_queue_are_dropped_and_reported() {
    let capacity: usize = 8;
    let released = Arc::new((Mutex::new(false), Condvar::new()));
    let sink =
        QueuingMetricSink::with_capacity(HeldSink { released: released.clone() }, capacity);
    let client = StatsdClient::from_sink("svc", sink);
    let metrics = Metrics::from_shared(Some(&client));

    let mut sent = 0;
    let mut dropped = 0;
    for _ in 0..capacity + 5 {
        match metrics.try_incr_with_tags("req.count", None) {
            Emission::Sent(line) => {
                assert_eq!(line, "svc.req.count:1|c|#version:0.1.0");
                sent += 1;
            }
            Emission::Failed(kind) => {
                assert_eq!(kind, FailureKind::Io);
                dropped += 1;
            }
            Emission::NoClient => panic!("the handle holds a client"),
        }
    }
    metrics.incr("req.count");

    let (open, changed) = &*released;
    *open.lock().unwrap() = true;
    changed.notify_all();

    assert_eq!(sent + dropped, capacity + 5);
    assert!(sent >= capacity);
    assert!(sent <= capacity + 1);
    assert!(dropped >= 4);
}
