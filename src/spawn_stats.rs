use crate::clock::now_at_least;
use crate::reconnect::ReconnectPolicy;
use crate::registry::{observe_spec, TopicRegistry};
use vstd::prelude::*;

verus! {

/// Process-wide counters. Counters only grow and the start instant never
/// changes after construction.
#[derive(Clone, Copy, Debug)]
pub struct SpawnStats {
    messages_received: u64,
    last_received: u64,
    num_topics: u64,
    connection_error: u64,
    start_time: u64,
}

impl SpawnStats {
    pub closed spec fn messages_received_spec(&self) -> u64 {
        self.messages_received
    }

    pub closed spec fn last_received_spec(&self) -> u64 {
        self.last_received
    }

    pub closed spec fn num_topics_spec(&self) -> u64 {
        self.num_topics
    }

    pub closed spec fn connection_error_spec(&self) -> u64 {
        self.connection_error
    }

    pub closed spec fn start_time_spec(&self) -> u64 {
        self.start_time
    }

    /// Whether the counters that a message raises can still grow by one.
    pub open spec fn has_room(&self) -> bool {
        &&& self.messages_received_spec() < u64::MAX
        &&& self.last_received_spec() < u64::MAX
        &&& self.num_topics_spec() < u64::MAX
    }

    /// Tells whether the counters that a message raises can still grow by one.
    pub fn can_record(&self) -> (r: bool)
        ensures
            r == self.has_room(),
    {
        self.messages_received < u64::MAX && self.last_received < u64::MAX && self.num_topics
            < u64::MAX
    }

    /// Counts one processed message.
    pub fn record_message(&mut self)
        requires
            old(self).messages_received_spec() < u64::MAX,
            old(self).last_received_spec() < u64::MAX,
        ensures
            final(self).messages_received_spec() == old(self).messages_received_spec() + 1,
            final(self).last_received_spec() == old(self).last_received_spec() + 1,
            final(self).num_topics_spec() == old(self).num_topics_spec(),
            final(self).connection_error_spec() == old(self).connection_error_spec(),
            final(self).start_time_spec() == old(self).start_time_spec(),
    {
        self.messages_received = self.messages_received + 1;
        self.last_received = self.last_received + 1;
    }

    /// Counts one topic seen for the first time.
    pub fn record_new_topic(&mut self)
        requires
            old(self).num_topics_spec() < u64::MAX,
        ensures
            final(self).num_topics_spec() == old(self).num_topics_spec() + 1,
            final(self).messages_received_spec() == old(self).messages_received_spec(),
            final(self).last_received_spec() == old(self).last_received_spec(),
            final(self).connection_error_spec() == old(self).connection_error_spec(),
            final(self).start_time_spec() == old(self).start_time_spec(),
    {
        self.num_topics = self.num_topics + 1;
    }

    /// Counts the topic of a handled message where the registry reported it
    /// as new.
    pub fn record_observation(&mut self, created: bool)
        requires
            created ==> old(self).num_topics_spec() < u64::MAX,
        ensures
            final(self).num_topics_spec() == old(self).num_topics_spec() + (if created {
                1int
            } else {
                0int
            }),
            final(self).messages_received_spec() == old(self).messages_received_spec(),
            final(self).last_received_spec() == old(self).last_received_spec(),
            final(self).connection_error_spec() == old(self).connection_error_spec(),
            final(self).start_time_spec() == old(self).start_time_spec(),
    {
        if created {
            self.record_new_topic();
        }
    }

    /// Counts one detected disconnect.
    pub fn record_connection_error(&mut self)
        requires
            old(self).connection_error_spec() < u64::MAX,
        ensures
            final(self).connection_error_spec() == old(self).connection_error_spec() + 1,
            final(self).messages_received_spec() == old(self).messages_received_spec(),
            final(self).last_received_spec() == old(self).last_received_spec(),
            final(self).num_topics_spec() == old(self).num_topics_spec(),
            final(self).start_time_spec() == old(self).start_time_spec(),
    {
        self.connection_error = self.connection_error + 1;
    }

    /// Messages processed so far.
    pub fn messages_received(&self) -> (r: u64)
        ensures
            r == self.messages_received_spec(),
    {
        self.messages_received
    }

    /// Messages processed since the counters were made.
    pub fn last_received(&self) -> (r: u64)
        ensures
            r == self.last_received_spec(),
    {
        self.last_received
    }

    /// Distinct topics seen so far.
    pub fn num_topics(&self) -> (r: u64)
        ensures
            r == self.num_topics_spec(),
    {
        self.num_topics
    }

    /// Disconnects detected so far.
    pub fn connection_error(&self) -> (r: u64)
        ensures
            r == self.connection_error_spec(),
    {
        self.connection_error
    }

    /// Instant at which the counters were made, in nanoseconds.
    pub fn start_time(&self) -> (r: u64)
        ensures
            r == self.start_time_spec(),
    {
        self.start_time
    }
}

impl SpawnStats {
    /// All counters at zero, started at `time`.
    pub fn started_at(time: u64) -> (r: SpawnStats)
        ensures
            r.messages_received_spec() == 0,
            r.last_received_spec() == 0,
            r.num_topics_spec() == 0,
            r.connection_error_spec() == 0,
            r.start_time_spec() == time,
    {
        SpawnStats {
            messages_received: 0,
            last_received: 0,
            num_topics: 0,
            connection_error: 0,
            start_time: time,
        }
    }
}

impl Default for SpawnStats {
    /// All counters at zero, started now.
    fn default() -> (r: SpawnStats)
        ensures
            r.messages_received_spec() == 0,
            r.last_received_spec() == 0,
            r.num_topics_spec() == 0,
            r.connection_error_spec() == 0,
    {
        SpawnStats::started_at(now_at_least(0))
    }
}

/// Handles one message: counts it, records it in the registry in one step,
/// and counts its topic where the registry reports it as new. Returns whether
/// the topic was new.
pub fn process_message(
    stats: &mut SpawnStats,
    topics: &mut TopicRegistry,
    topic: &str,
    bytes: i32,
    qos: i32,
) -> (created: bool)
    requires
        old(stats).has_room(),
        old(topics).wf(),
        old(topics).has_room_for(topic@),
        bytes >= 0,
    ensures
        created == !old(topics)@.contains_key(topic@),
        final(topics).wf(),
        exists|now: u64| final(topics)@ == observe_spec(old(topics)@, topic@, bytes, qos, now),
        final(stats).messages_received_spec() == old(stats).messages_received_spec() + 1,
        final(stats).last_received_spec() == old(stats).last_received_spec() + 1,
        final(stats).num_topics_spec() == old(stats).num_topics_spec() + (if created {
            1int
        } else {
            0int
        }),
        final(stats).connection_error_spec() == old(stats).connection_error_spec(),
        final(stats).start_time_spec() == old(stats).start_time_spec(),
{
    stats.record_message();
    let created = topics.observe(topic, bytes, qos);
    stats.record_observation(created);
    created
}

/// The upsert reports a topic as new exactly once: of two messages on an
/// absent topic, handled one after the other in whichever order, the first
/// finds the topic absent and the second finds it present, so a count of
/// distinct topics that grows on each report of a new topic grows by one.
pub proof fn lemma_upsert_creates_once(
    m: Map<Seq<char>, crate::stats::TopicStats>,
    topic: Seq<char>,
    first: (i32, i32, u64),
    second: (i32, i32, u64),
    num_topics: int,
)
    requires
        !m.contains_key(topic),
    ensures
        ({
            let m1 = observe_spec(m, topic, first.0, first.1, first.2);
            let m2 = observe_spec(m1, topic, second.0, second.1, second.2);
            let first_created = !m.contains_key(topic);
            let second_created = !m1.contains_key(topic);
            &&& first_created && !second_created
            &&& num_topics + (if first_created {
                1int
            } else {
                0int
            }) + (if second_created {
                1int
            } else {
                0int
            }) == num_topics + 1
            &&& m2.dom() == m.dom().insert(topic)
        }),
{
    let m1 = observe_spec(m, topic, first.0, first.1, first.2);
    let m2 = observe_spec(m1, topic, second.0, second.1, second.2);
    assert(m2.dom() =~= m.dom().insert(topic));
}

/// The count of distinct topics follows the registry: where it equals the
/// number of registered topics, it still does after an upsert that counts the
/// topic when reported new.
pub proof fn lemma_distinct_topics_track_registry(
    m: Map<Seq<char>, crate::stats::TopicStats>,
    num_topics: int,
    topic: Seq<char>,
    bytes: i32,
    qos: i32,
    now: u64,
)
    requires
        m.dom().finite(),
        num_topics == m.dom().len(),
    ensures
        observe_spec(m, topic, bytes, qos, now).dom().finite(),
        num_topics + (if !m.contains_key(topic) {
            1int
        } else {
            0int
        }) == observe_spec(m, topic, bytes, qos, now).dom().len(),
{
    let m1 = observe_spec(m, topic, bytes, qos, now);
    assert(m1.dom() =~= m.dom().insert(topic));
}

/// Where the ingestion loop stands with respect to the transport.
#[derive(Clone, Copy, Debug, PartialEq, Eq, Structural)]
pub enum Link {
    Connected,
    Reconnecting { failed: u32 },
    Terminated,
}

/// What the transport side reports to the ingestion loop.
#[derive(Clone, Copy, Debug, PartialEq, Eq, Structural)]
pub enum StreamEvent {
    /// The stream yielded a message.
    Message,
    /// The stream yielded its disconnect marker.
    Disconnected,
    ReconnectSucceeded,
    ReconnectFailed,
}

/// What the ingestion loop is to do next.
#[derive(Clone, Copy, Debug, PartialEq, Eq, Structural)]
pub enum Action {
    /// Hand the message to a concurrent unit of work and pull the next item.
    Dispatch,
    /// Count a connection error where asked, wait, then try to reconnect once.
    Reconnect { delay_ms: u64, count_error: bool },
    /// Reconnected: pull the next item.
    Resume,
    /// The retry budget is spent: report an unrecoverable disconnection.
    GiveUp,
    /// The event does not apply in this state.
    Ignore,
    /// The loop has terminated: do nothing more.
    Stop,
}

/// The decisions of the ingestion loop: a state machine over [`Link`] that
/// the caller feeds with events and whose actions it performs.
#[derive(Clone, Copy, Debug, PartialEq, Eq, Structural)]
pub struct Ingestion {
    pub link: Link,
    pub policy: ReconnectPolicy,
}

/// The next state and action of the ingestion loop on an event.
pub open spec fn step_spec(s: Ingestion, e: StreamEvent) -> (Ingestion, Action) {
    match s.link {
        Link::Connected => match e {
            StreamEvent::Message => (s, Action::Dispatch),
            StreamEvent::Disconnected => (
                Ingestion { link: Link::Reconnecting { failed: 0 }, ..s },
                Action::Reconnect { delay_ms: s.policy.delay_ms, count_error: true },
            ),
            _ => (s, Action::Ignore),
        },
        Link::Reconnecting { failed } => match e {
            StreamEvent::ReconnectSucceeded => (
                Ingestion { link: Link::Connected, ..s },
                Action::Resume,
            ),
            StreamEvent::ReconnectFailed => if s.policy.may_retry_spec(failed + 1) {
                (
                    Ingestion { link: Link::Reconnecting { failed: (failed + 1) as u32 }, ..s },
                    Action::Reconnect { delay_ms: s.policy.delay_ms, count_error: false },
                )
            } else {
                (Ingestion { link: Link::Terminated, ..s }, Action::GiveUp)
            },
            _ => (s, Action::Ignore),
        },
        Link::Terminated => (s, Action::Stop),
    }
}

impl Ingestion {
    /// The policy allows an attempt, and a count of failed attempts stays
    /// under the budget.
    pub open spec fn wf(self) -> bool {
        &&& self.policy.wf()
        &&& match self.link {
            Link::Reconnecting { failed } => failed < self.policy.max_attempts,
            _ => true,
        }
    }

    /// A connected loop under the given policy.
    pub fn new(policy: ReconnectPolicy) -> (r: Ingestion)
        requires
            policy.wf(),
        ensures
            r.wf(),
            r == (Ingestion { link: Link::Connected, policy }),
    {
        Ingestion { link: Link::Connected, policy }
    }

    /// Whether the loop has terminated.
    pub fn is_terminated(&self) -> (r: bool)
        ensures
            r == (self.link == Link::Terminated),
    {
        match self.link {
            Link::Terminated => true,
            _ => false,
        }
    }

    /// Moves the loop on by one event and returns what to do.
    pub fn on_event(&mut self, e: StreamEvent) -> (r: Action)
        requires
            old(self).wf(),
        ensures
            (*final(self), r) == step_spec(*old(self), e),
            final(self).wf(),
    {
        match self.link {
            Link::Connected => match e {
                StreamEvent::Message => Action::Dispatch,
                StreamEvent::Disconnected => {
                    self.link = Link::Reconnecting { failed: 0 };
                    Action::Reconnect { delay_ms: self.policy.delay_ms, count_error: true }
                },
                _ => Action::Ignore,
            },
            Link::Reconnecting { failed } => match e {
                StreamEvent::ReconnectSucceeded => {
                    self.link = Link::Connected;
                    Action::Resume
                },
                StreamEvent::ReconnectFailed => {
                    let failed = failed + 1;
                    if self.policy.may_retry(failed) {
                        self.link = Link::Reconnecting { failed };
                        Action::Reconnect { delay_ms: self.policy.delay_ms, count_error: false }
                    } else {
                        self.link = Link::Terminated;
                        Action::GiveUp
                    }
                },
                _ => Action::Ignore,
            },
            Link::Terminated => Action::Stop,
        }
    }
}

/// The state after `n` failed reconnect attempts in a row.
pub open spec fn after_failures(s: Ingestion, n: nat) -> Ingestion
    decreases n,
{
    if n == 0 {
        s
    } else {
        step_spec(after_failures(s, (n - 1) as nat), StreamEvent::ReconnectFailed).0
    }
}

proof fn lemma_failures_count(s: Ingestion, n: nat)
    requires
        s.wf(),
        s.link == (Link::Reconnecting { failed: 0 }),
    ensures
        after_failures(s, n).policy == s.policy,
        n < s.policy.max_attempts ==> after_failures(s, n).link == (Link::Reconnecting {
            failed: n as u32,
        }),
        n >= s.policy.max_attempts ==> after_failures(s, n).link == Link::Terminated,
    decreases n,
{
    if n > 0 {
        lemma_failures_count(s, (n - 1) as nat);
    }
}

/// A disconnect followed by at least as many failed reconnect attempts as the
/// budget allows ends the loop: the attempt that spends the budget reports the
/// unrecoverable disconnection, and from then on every event, a message
/// included, is answered with `Stop`, so no message is handed on.
pub proof fn lemma_exhausted_budget_is_fatal(s: Ingestion, n: nat, e: StreamEvent)
    requires
        s.wf(),
        s.link == Link::Connected,
        n >= s.policy.max_attempts,
    ensures
        ({
            let d = step_spec(s, StreamEvent::Disconnected).0;
            &&& step_spec(
                after_failures(d, (s.policy.max_attempts - 1) as nat),
                StreamEvent::ReconnectFailed,
            ).1 == Action::GiveUp
            &&& after_failures(d, n).link == Link::Terminated
            &&& step_spec(after_failures(d, n), e) == (after_failures(d, n), Action::Stop)
        }),
{
    let d = step_spec(s, StreamEvent::Disconnected).0;
    lemma_failures_count(d, (s.policy.max_attempts - 1) as nat);
    lemma_failures_count(d, n);
}

/// The two most recent samples of a topic, as sizes and instants.
#[derive(Clone, Copy, Debug, PartialEq, Eq, Structural)]
pub struct TopicStats {
    pub bytes: i32,
    pub time: u64,
    pub old_bytes: i32,
    pub old_time: u64,
    pub qos: i32,
}

impl TopicStats {
    /// The first sample of a topic, taken at `time`.
    pub fn new_at(bytes: i32, qos: i32, time: u64) -> (r: TopicStats)
        ensures
            r == (TopicStats { bytes, time, old_bytes: 0, old_time: time, qos }),
    {
        TopicStats { bytes, time, old_bytes: 0, old_time: time, qos }
    }

    /// The first sample of a topic, taken now.
    pub fn new(bytes: i32, qos: i32) -> (r: TopicStats)
        ensures
            r == (TopicStats { bytes, time: r.time, old_bytes: 0, old_time: r.time, qos }),
    {
        TopicStats::new_at(bytes, qos, now_at_least(0))
    }

    /// The next sample, taken at `time`: the current one becomes the older one.
    pub fn swap_at(&self, bytes: i32, qos: i32, time: u64) -> (r: TopicStats)
        requires
            time >= self.time,
        ensures
            r == (TopicStats { bytes, time, old_bytes: self.bytes, old_time: self.time, qos }),
    {
        TopicStats { bytes, time, old_bytes: self.bytes, old_time: self.time, qos }
    }

    /// The next sample, taken now: the current one becomes the older one.
    pub fn swap(&self, bytes: i32, qos: i32) -> (r: TopicStats)
        ensures
            r.time >= self.time,
            r == (TopicStats { bytes, time: r.time, old_bytes: self.bytes, old_time: self.time, qos }),
    {
        self.swap_at(bytes, qos, now_at_least(self.time))
    }
}

} // verus!
