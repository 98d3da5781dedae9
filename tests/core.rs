use mqtt_stats::clock::{instant_from_reading, now_at_least};
use mqtt_stats::config::{MqttSettings, StatsSettings};
use mqtt_stats::reconnect::{ReconnectPolicy, DEFAULT_DELAY_MS, DEFAULT_MAX_ATTEMPTS};
use mqtt_stats::registry::TopicRegistry;
use mqtt_stats::spawn_stats::{process_message, Action, Ingestion, Link, SpawnStats, StreamEvent};
use mqtt_stats::stats::{MessageStats, Ratio};

#[test]
fn registry_scenario_two_messages_on_one_topic() {
    let mut stats = SpawnStats::default();
    let mut topics = TopicRegistry::new();
    assert!(topics.get("a").is_none());

    let created = process_message(&mut stats, &mut topics, "a", 100, 1);
    assert!(created);
    assert_eq!(stats.num_topics(), 1);
    assert_eq!(stats.messages_received(), 1);
    let a = topics.get("a").unwrap();
    assert_eq!(a.message_count, 1);
    assert_eq!(a.bytes_mean().numer as f64 / a.bytes_mean().denom as f64, 100.0);

    let created = process_message(&mut stats, &mut topics, "a", 300, 1);
    assert!(!created);
    let a = topics.get("a").unwrap();
    assert_eq!(a.bytes_mean().numer as f64 / a.bytes_mean().denom as f64, 200.0);
    assert_eq!(a.message_count, 2);
    assert_eq!(stats.num_topics(), 1);
    assert_eq!(stats.messages_received(), 2);
    assert_eq!(stats.last_received(), 2);
    assert_eq!(stats.connection_error(), 0);
}

#[test]
fn first_observer_of_a_topic_creates_it_once() {
    let mut topics = TopicRegistry::new();
    let first = topics.observe_at("fresh", 10, 0, 100);
    let second = topics.observe_at("fresh", 20, 0, 50);
    assert!(first);
    assert!(!second);
    let s = topics.get("fresh").unwrap();
    assert_eq!(s.message_count, 2);
    // A clock that reads earlier is held at the entry's last instant.
    assert_eq!(s.last.time, 100);
    assert_eq!(s.inter_arrival_max, 0);
}

#[test]
fn distinct_topics_are_kept_apart() {
    let mut stats = SpawnStats::default();
    let mut topics = TopicRegistry::new();
    assert!(process_message(&mut stats, &mut topics, "a", 1, 0));
    assert!(process_message(&mut stats, &mut topics, "b", 2, 1));
    assert!(!process_message(&mut stats, &mut topics, "a", 3, 2));
    assert!(process_message(&mut stats, &mut topics, "ab", 4, 0));
    assert_eq!(stats.num_topics(), 3);
    assert_eq!(stats.messages_received(), 4);
    assert_eq!(topics.get("a").unwrap().message_count, 2);
    assert_eq!(topics.get("a").unwrap().qos, 2);
    assert_eq!(topics.get("b").unwrap().message_count, 1);
    assert_eq!(topics.get("ab").unwrap().bytes_total, 4);
    assert!(topics.get("c").is_none());
    assert!(topics.can_observe("a"));
    assert!(topics.can_observe("c"));
}

#[test]
fn registry_entries_advance_with_given_instants() {
    let mut topics = TopicRegistry::new();
    assert!(topics.observe_at("t", 12, 1, 1_000));
    assert!(!topics.observe_at("t", 32, 1, 3_000));
    assert!(!topics.observe_at("t", 32, 1, 4_000));
    let s = topics.get("t").unwrap();
    assert_eq!(s.bytes_jitter(), Ratio { numer: 20, denom: 2 });
    assert_eq!(s.inter_arrival_max, 2_000);
    assert_eq!(s.inter_arrival_min, 1_000);
    assert_eq!(s.created, 1_000);
}

#[test]
fn counters_count_independently() {
    let mut stats = SpawnStats::default();
    assert!(stats.can_record());
    stats.record_connection_error();
    stats.record_connection_error();
    stats.record_message();
    stats.record_new_topic();
    assert_eq!(stats.connection_error(), 2);
    assert_eq!(stats.messages_received(), 1);
    assert_eq!(stats.last_received(), 1);
    assert_eq!(stats.num_topics(), 1);
    stats.record_observation(false);
    assert_eq!(stats.num_topics(), 1);
    stats.record_observation(true);
    assert_eq!(stats.num_topics(), 2);
    let start = stats.start_time();
    stats.record_message();
    assert_eq!(stats.start_time(), start);
}

#[test]
fn exhausted_reconnect_budget_is_fatal() {
    let mut ingest = Ingestion::new(ReconnectPolicy::new());
    assert_eq!(ingest.on_event(StreamEvent::Message), Action::Dispatch);
    assert_eq!(
        ingest.on_event(StreamEvent::Disconnected),
        Action::Reconnect { delay_ms: 5000, count_error: true }
    );
    for _ in 1..12 {
        assert_eq!(
            ingest.on_event(StreamEvent::ReconnectFailed),
            Action::Reconnect { delay_ms: 5000, count_error: false }
        );
        assert!(!ingest.is_terminated());
    }
    assert_eq!(ingest.on_event(StreamEvent::ReconnectFailed), Action::GiveUp);
    assert!(ingest.is_terminated());
    assert_eq!(ingest.on_event(StreamEvent::Message), Action::Stop);
    assert_eq!(ingest.on_event(StreamEvent::ReconnectFailed), Action::Stop);
    assert_eq!(ingest.on_event(StreamEvent::ReconnectSucceeded), Action::Stop);
    assert_eq!(ingest.link, Link::Terminated);
}

#[test]
fn reconnect_success_resumes() {
    let policy = ReconnectPolicy { max_attempts: 2, delay_ms: 10 };
    let mut ingest = Ingestion::new(policy);
    assert_eq!(
        ingest.on_event(StreamEvent::Disconnected),
        Action::Reconnect { delay_ms: 10, count_error: true }
    );
    assert_eq!(ingest.on_event(StreamEvent::Message), Action::Ignore);
    assert_eq!(
        ingest.on_event(StreamEvent::ReconnectFailed),
        Action::Reconnect { delay_ms: 10, count_error: false }
    );
    assert_eq!(ingest.link, Link::Reconnecting { failed: 1 });
    assert_eq!(ingest.on_event(StreamEvent::ReconnectSucceeded), Action::Resume);
    assert_eq!(ingest.link, Link::Connected);
    assert_eq!(ingest.on_event(StreamEvent::ReconnectFailed), Action::Ignore);
    assert_eq!(ingest.on_event(StreamEvent::Message), Action::Dispatch);
}

#[test]
fn single_attempt_budget() {
    let mut ingest = Ingestion::new(ReconnectPolicy { max_attempts: 1, delay_ms: 0 });
    ingest.on_event(StreamEvent::Disconnected);
    assert_eq!(ingest.on_event(StreamEvent::ReconnectFailed), Action::GiveUp);
    assert!(ingest.is_terminated());
}

#[test]
fn reconnect_policy_defaults() {
    let p = ReconnectPolicy::new();
    assert_eq!(p.max_attempts, DEFAULT_MAX_ATTEMPTS);
    assert_eq!(p.max_attempts, 12);
    assert_eq!(p.delay_ms, DEFAULT_DELAY_MS);
    assert_eq!(p.delay_ms, 5000);
    assert!(p.may_retry(11));
    assert!(!p.may_retry(12));
}

#[test]
fn clock_readings_never_go_back() {
    assert_eq!(instant_from_reading(Some(500), 100), 500);
    assert_eq!(instant_from_reading(Some(50), 100), 100);
    assert_eq!(instant_from_reading(Some(-5), 0), 0);
    assert_eq!(instant_from_reading(None, 7), 7);
    let now = now_at_least(0);
    assert!(now > 0);
    assert!(now_at_least(now) >= now);
    assert_eq!(now_at_least(u64::MAX), u64::MAX);
}

#[test]
fn message_stats_samples() {
    let m = MessageStats::from_time(42);
    assert_eq!(m.bytes, 0);
    assert_eq!(m.time, 42);
    let n = MessageStats::new();
    assert_eq!(n.bytes, 0);
    assert!(n.time > 0);
}

#[test]
fn snapshot_pair_swaps() {
    let t = mqtt_stats::spawn_stats::TopicStats::new(12, 2);
    assert_eq!(t.bytes, 12);
    assert_eq!(t.old_bytes, 0);
    assert_eq!(t.old_time, t.time);
    let u = t.swap(32, 1);
    assert_eq!(u.bytes, 32);
    assert_eq!(u.qos, 1);
    assert_eq!(u.old_bytes, 12);
    assert_eq!(u.old_time, t.time);
    assert!(u.time >= t.time);
}

#[test]
fn default_settings() {
    let m = MqttSettings::default();
    assert_eq!(m.address, "tcp://127.0.0.1:1883");
    assert_eq!(m.client_id, "test_client");
    assert_eq!(m.mqtt_topic, vec!["#/".to_string()]);
    assert_eq!(m.mqtt_qos, vec![1]);
    assert_eq!(m.will_topic, "test/dead");
    let s = StatsSettings::default();
    assert_eq!(s.mqtt_settings.mqtt_topic, vec!["#".to_string()]);
    assert_eq!(s.mqtt_settings.will_topic, "bridge/dead");
    assert_eq!(s.mqtt_settings.will_message, "Bridge node has failed");
    assert_eq!(s.mqtt_settings.user, "test");
}

#[test]
fn snapshot_lists_each_topic_once() {
    let mut topics = TopicRegistry::new();
    assert!(topics.snapshot().is_empty());
    topics.observe("x", 5, 0);
    topics.observe("y", 6, 1);
    topics.observe("x", 7, 2);
    let snap = topics.snapshot();
    assert_eq!(snap.len(), 2);
    let x = snap.iter().find(|(k, _)| k == "x").unwrap();
    assert_eq!(x.1.message_count, 2);
    assert_eq!(x.1.bytes_total, 12);
    let y = snap.iter().find(|(k, _)| k == "y").unwrap();
    assert_eq!(y.1, topics.get("y").unwrap());
}

#[test]
fn counters_start_at_given_instant() {
    let stats = SpawnStats::started_at(1_234);
    assert_eq!(stats.start_time(), 1_234);
    assert_eq!(stats.messages_received(), 0);
    assert_eq!(stats.last_received(), 0);
    assert_eq!(stats.num_topics(), 0);
    assert_eq!(stats.connection_error(), 0);
    assert!(SpawnStats::default().start_time() > 0);
}

#[test]
fn snapshot_pair_at_given_instants() {
    let t = mqtt_stats::spawn_stats::TopicStats::new_at(12, 2, 100);
    assert_eq!(t.time, 100);
    assert_eq!(t.old_time, 100);
    assert_eq!(t.old_bytes, 0);
    let u = t.swap_at(32, 1, 250);
    assert_eq!(u.time, 250);
    assert_eq!(u.old_time, 100);
    assert_eq!(u.old_bytes, 12);
    assert_eq!(u.bytes, 32);
    assert_eq!(u.qos, 1);
}
