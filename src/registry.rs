use crate::clock::now_at_least;
use crate::stats::{advance_spec, new_spec, TopicStats};
use vstd::prelude::*;

verus! {

/// The later of two instants.
pub open spec fn later(a: u64, b: u64) -> u64 {
    if a >= b {
        a
    } else {
        b
    }
}

/// The registry after a message of `bytes` on `topic` at `now`: a new entry
/// where the topic is absent, else the entry advanced by the sample (at `now`,
/// or at the entry's last instant where the clock reads earlier).
pub open spec fn observe_spec(
    m: Map<Seq<char>, TopicStats>,
    topic: Seq<char>,
    bytes: i32,
    qos: i32,
    now: u64,
) -> Map<Seq<char>, TopicStats> {
    if m.contains_key(topic) {
        m.insert(topic, advance_spec(m[topic], bytes, qos, later(now, m[topic].last.time)))
    } else {
        m.insert(topic, new_spec(bytes, qos, now))
    }
}

/// Statistics of every topic seen, keyed by topic name. Entries are made on
/// the first message of a topic and replaced whole on each later one.
///
/// The entries are held as a vector of pairs whose names are unique, found by
/// a linear search. A `HashMap<String, TopicStats>` was considered: vstd's
/// specification of `HashMap` promises nothing unless the key type obeys its
/// key model, which vstd grants to integer and `bool` keys but not to
/// `String`, so none of the registry's contracts could be proved over it.
pub struct TopicRegistry {
    entries: Vec<(String, TopicStats)>,
}

impl View for TopicRegistry {
    type V = Map<Seq<char>, TopicStats>;

    closed spec fn view(&self) -> Map<Seq<char>, TopicStats> {
        Map::new(
            |k: Seq<char>|
                exists|i: int| 0 <= i < self.entries.len() && #[trigger] self.entries@[i].0@ == k,
            |k: Seq<char>|
                self.entries@[choose|i: int|
                    0 <= i < self.entries.len() && #[trigger] self.entries@[i].0@ == k].1,
        )
    }
}

impl TopicRegistry {
    /// Keys are unique and every entry keeps the statistics invariant.
    pub closed spec fn wf(&self) -> bool {
        &&& forall|i: int, j: int|
            0 <= i < j < self.entries.len() ==> #[trigger] self.entries@[i].0@
                != #[trigger] self.entries@[j].0@
        &&& forall|i: int| 0 <= i < self.entries.len() ==> (#[trigger] self.entries@[i]).1.wf()
    }

    proof fn lemma_view_at(&self, i: int)
        requires
            self.wf(),
            0 <= i < self.entries.len(),
        ensures
            self@.contains_key(self.entries@[i].0@),
            self@[self.entries@[i].0@] == self.entries@[i].1,
    {
        let k = self.entries@[i].0@;
        assert(self.entries@[i].0@ == k);
        let j = choose|j: int| 0 <= j < self.entries.len() && #[trigger] self.entries@[j].0@ == k;
        if j < i {
            assert(self.entries@[j].0@ != self.entries@[i].0@);
        } else if j > i {
            assert(self.entries@[i].0@ != self.entries@[j].0@);
        }
    }

    /// Writing one entry, in place or at the end, inserts its key and value
    /// into the view.
    proof fn lemma_put_view(before: TopicRegistry, after: TopicRegistry, i: int)
        requires
            before.wf(),
            after.wf(),
            0 <= i < after.entries.len(),
            (i < before.entries.len() && before.entries@[i].0@ == after.entries@[i].0@
                && after.entries@ == before.entries@.update(i, after.entries@[i])) || (i
                == before.entries.len() && after.entries@ == before.entries@.push(
                after.entries@[i],
            )),
        ensures
            after@ == before@.insert(after.entries@[i].0@, after.entries@[i].1),
    {
        let key = after.entries@[i].0@;
        let target = before@.insert(key, after.entries@[i].1);
        after.lemma_view_at(i);
        assert forall|k: Seq<char>| #[trigger] after@.contains_key(k) <==> target.contains_key(k) by {
            if k != key {
                if after@.contains_key(k) {
                    let j = choose|j: int| 0 <= j < after.entries.len() && #[trigger] after.entries@[j].0@ == k;
                    assert(before.entries@[j].0@ == k);
                }
                if before@.contains_key(k) {
                    let j = choose|j: int| 0 <= j < before.entries.len() && #[trigger] before.entries@[j].0@ == k;
                    assert(after.entries@[j].0@ == k);
                }
            }
        }
        assert forall|k: Seq<char>| #[trigger] after@.contains_key(k) && k != key implies after@[k] == target[k] by {
            let j = choose|j: int| 0 <= j < after.entries.len() && #[trigger] after.entries@[j].0@ == k;
            after.lemma_view_at(j);
            before.lemma_view_at(j);
        }
        assert(after@ =~= target);
    }

    /// An empty registry.
    pub fn new() -> (r: TopicRegistry)
        ensures
            r.wf(),
            r@ == Map::<Seq<char>, TopicStats>::empty(),
    {
        let r = TopicRegistry { entries: Vec::new() };
        assert(r@ =~= Map::<Seq<char>, TopicStats>::empty());
        r
    }

    fn find(&self, key: &String) -> (r: Option<usize>)
        requires
            self.wf(),
        ensures
            match r {
                Some(i) => i < self.entries.len() && self.entries@[i as int].0@ == key@,
                None => !self@.contains_key(key@),
            },
    {
        let mut i: usize = 0;
        while i < self.entries.len()
            invariant
                i <= self.entries.len(),
                forall|j: int| 0 <= j < i ==> self.entries@[j].0@ != key@,
            decreases self.entries.len() - i,
        {
            if self.entries[i].0 == *key {
                return Some(i);
            }
            i = i + 1;
        }
        None
    }

    /// The statistics of `topic`, if any message on it was seen.
    pub fn get(&self, topic: &str) -> (r: Option<TopicStats>)
        requires
            self.wf(),
        ensures
            r == (if self@.contains_key(topic@) {
                Some(self@[topic@])
            } else {
                None::<TopicStats>
            }),
    {
        let key = topic.to_owned();
        match self.find(&key) {
            Some(i) => {
                proof {
                    self.lemma_view_at(i as int);
                }
                Some(self.entries[i].1)
            },
            None => None,
        }
    }

    /// Every topic with its statistics, each topic once, for readers such as
    /// exporters.
    pub fn snapshot(&self) -> (r: Vec<(String, TopicStats)>)
        requires
            self.wf(),
        ensures
            forall|i: int|
                0 <= i < r.len() ==> self@.contains_key(#[trigger] r@[i].0@) && self@[r@[i].0@]
                    == r@[i].1,
            forall|k: Seq<char>|
                #[trigger] self@.contains_key(k) ==> exists|i: int| 0 <= i < r.len() && #[trigger] r@[i].0@ == k,
            forall|i: int, j: int| 0 <= i < j < r.len() ==> #[trigger] r@[i].0@ != #[trigger] r@[j].0@,
    {
        let mut out: Vec<(String, TopicStats)> = Vec::new();
        let mut i: usize = 0;
        while i < self.entries.len()
            invariant
                i <= self.entries.len(),
                out.len() == i,
                forall|j: int|
                    0 <= j < i ==> (#[trigger] out@[j]).0@ == self.entries@[j].0@ && out@[j].1
                        == self.entries@[j].1,
            decreases self.entries.len() - i,
        {
            let name = self.entries[i].0.clone();
            out.push((name, self.entries[i].1));
            i = i + 1;
        }
        proof {
            assert forall|j: int|
                0 <= j < out.len() implies self@.contains_key(#[trigger] out@[j].0@) && self@[out@[j].0@]
                    == out@[j].1 by {
                assert(out@[j].0@ == self.entries@[j].0@);
                self.lemma_view_at(j);
            }
            assert forall|k: Seq<char>| #[trigger] self@.contains_key(k) implies exists|j: int|
                0 <= j < out.len() && #[trigger] out@[j].0@ == k by {
                let j = choose|j: int| 0 <= j < self.entries.len() && #[trigger] self.entries@[j].0@ == k;
                assert(out@[j].0@ == k);
            }
            assert forall|a: int, b: int| 0 <= a < b < out.len() implies #[trigger] out@[a].0@
                != #[trigger] out@[b].0@ by {
                assert(out@[a].0@ == self.entries@[a].0@);
                assert(out@[b].0@ == self.entries@[b].0@);
                assert(self.entries@[a].0@ != self.entries@[b].0@);
            }
        }
        out
    }

    /// Whether a message on `topic` can still be counted.
    pub open spec fn has_room_for(&self, topic: Seq<char>) -> bool {
        self@.contains_key(topic) ==> self@[topic].has_room()
    }

    /// Tells whether a message on `topic` can still be counted.
    pub fn can_observe(&self, topic: &str) -> (r: bool)
        requires
            self.wf(),
        ensures
            r == self.has_room_for(topic@),
    {
        match self.get(topic) {
            Some(s) => s.message_count < u64::MAX,
            None => true,
        }
    }

    /// Records a message of `bytes` on `topic` arriving at `now`, in one step:
    /// inserts fresh statistics where the topic is new, and replaces the entry
    /// with its advanced statistics otherwise. Returns whether the topic was new.
    pub fn observe_at(&mut self, topic: &str, bytes: i32, qos: i32, now: u64) -> (created: bool)
        requires
            old(self).wf(),
            old(self).has_room_for(topic@),
            bytes >= 0,
        ensures
            final(self).wf(),
            created == !old(self)@.contains_key(topic@),
            final(self)@ == observe_spec(old(self)@, topic@, bytes, qos, now),
    {
        let key = topic.to_owned();
        match self.find(&key) {
            Some(i) => {
                let current = self.entries[i].1;
                proof {
                    self.lemma_view_at(i as int);
                }
                let time = if now >= current.last.time {
                    now
                } else {
                    current.last.time
                };
                let next = current.advance_at(bytes, qos, time);
                let ghost before = *self;
                self.entries.set(i, (key, next));
                proof {
                    assert forall|a: int, b: int|
                        0 <= a < b < self.entries.len() implies #[trigger] self.entries@[a].0@
                        != #[trigger] self.entries@[b].0@ by {
                        assert(before.entries@[a].0@ != before.entries@[b].0@);
                    }
                    assert(self.wf());
                    TopicRegistry::lemma_put_view(before, *self, i as int);
                }
                false
            },
            None => {
                let fresh = TopicStats::new_at(bytes, qos, now);
                let ghost before = *self;
                self.entries.push((key, fresh));
                proof {
                    let n = before.entries.len() as int;
                    assert forall|a: int, b: int|
                        0 <= a < b < self.entries.len() implies #[trigger] self.entries@[a].0@
                        != #[trigger] self.entries@[b].0@ by {
                        if b == n {
                            before.lemma_view_at(a);
                        } else {
                            assert(before.entries@[a].0@ != before.entries@[b].0@);
                        }
                    }
                    assert(self.wf());
                    TopicRegistry::lemma_put_view(before, *self, n);
                }
                true
            },
        }
    }

    /// Records a message of `bytes` on `topic` arriving now; see `observe_at`.
    pub fn observe(&mut self, topic: &str, bytes: i32, qos: i32) -> (created: bool)
        requires
            old(self).wf(),
            old(self).has_room_for(topic@),
            bytes >= 0,
        ensures
            final(self).wf(),
            created == !old(self)@.contains_key(topic@),
            exists|now: u64| final(self)@ == observe_spec(old(self)@, topic@, bytes, qos, now),
    {
        let now = now_at_least(0);
        self.observe_at(topic, bytes, qos, now)
    }
}

} // verus!
