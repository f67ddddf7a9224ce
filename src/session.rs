use vstd::prelude::*;
use std::collections::HashMap;
use crate::clock::{OffsetUpdate, offset_update, offset_update_spec, server_time, server_time_spec};
use crate::ids::{next_pubuid, next_pubuid_spec, next_subuid, next_subuid_spec};
use crate::json::{
    array_text, publish_message, publish_text, setproperties_message, setproperties_text,
    subscribe_message, subscribe_text, unpublish_message, unpublish_text, unsubscribe_message,
    unsubscribe_text, views,
};
use crate::frame::{UnsignedIntOrNegativeOne, encode_value_frame, enc_u32, push_u32, value_frame_bytes};
use crate::topic::{PublishProperties, PublishedTopic, SubscriptionOptions, Topic};
use crate::types::Type;

verus! {

broadcast use vstd::std_specs::hash::group_hash_axioms;

/// What the registry keeps of a subscription: its id, its topic patterns and its options.
#[derive(Debug)]
pub struct SubscriptionRecord {
    pub subuid: i32,
    pub topics: Vec<String>,
    pub options: Option<SubscriptionOptions>,
}

/// Whether a subscription's options ask for prefix matching.
pub open spec fn prefix_matching(o: Option<SubscriptionOptions>) -> bool {
    match o {
        Some(q) => q.prefix == Some(true),
        None => false,
    }
}

/// Whether a topic name matches one pattern: exactly, or by prefix.
pub open spec fn pattern_matches(pattern: Seq<char>, prefix: bool, name: Seq<char>) -> bool {
    if prefix {
        pattern.len() <= name.len() && name.subrange(0, pattern.len() as int) == pattern
    } else {
        name == pattern
    }
}

/// Whether a subscription wants values of the topic with this name.
pub open spec fn record_matches(rec: SubscriptionRecord, name: Seq<char>) -> bool {
    exists|i: int| 0 <= i < rec.topics@.len() && pattern_matches(#[trigger] rec.topics@[i]@, prefix_matching(rec.options), name)
}

/// No two entries share a publisher id.
pub open spec fn unique_pubuids(s: Seq<PublishedTopic>) -> bool {
    forall|i: int, j: int| 0 <= i < s.len() && 0 <= j < s.len() && #[trigger] s[i].pubuid == #[trigger] s[j].pubuid ==> i == j
}

/// No two entries share a subscriber id.
pub open spec fn unique_subuids(s: Seq<SubscriptionRecord>) -> bool {
    forall|i: int, j: int| 0 <= i < s.len() && 0 <= j < s.len() && #[trigger] s[i].subuid == #[trigger] s[j].subuid ==> i == j
}

/// Some entry has this publisher id.
pub open spec fn has_pubuid(s: Seq<PublishedTopic>, pubuid: u32) -> bool {
    exists|i: int| 0 <= i < s.len() && #[trigger] s[i].pubuid == pubuid
}

/// Some entry has this subscriber id.
pub open spec fn has_subuid(s: Seq<SubscriptionRecord>, subuid: i32) -> bool {
    exists|i: int| 0 <= i < s.len() && #[trigger] s[i].subuid == subuid
}

/// The synthetic entry of the time channel.
pub open spec fn is_time_topic(t: Topic) -> bool {
    t.id == -1 && t.name@ == "Time"@ && t.pubuid == Some(-1i32) && t.topic_type == Type::Int && t.properties is None
}

/// The frame that restores a connection: one `publish` per published topic,
/// then one `subscribe` per subscription.
pub open spec fn rehydration_text(published: Seq<PublishedTopic>, subs: Seq<SubscriptionRecord>) -> Seq<char> {
    array_text(published.map_values(|p: PublishedTopic| publish_of(p)) + subs.map_values(|s: SubscriptionRecord| subscribe_of(s)))
}

/// What to do with a value that arrived for a topic id.
#[derive(Debug)]
pub enum Routing {
    /// The topic is known: hand the value to these subscriptions, in this order.
    Deliver { topic_name: String, subuids: Vec<i32> },
    /// The topic is not announced yet: try once more a little later.
    Retry,
    /// The topic is still unknown on the second try: the value is dropped.
    Drop,
}

/// What to do after a time-sync reply has been applied.
#[derive(Debug, Clone, Copy, PartialEq, Eq)]
pub enum TimeReplyAction {
    /// The offset is up to date.
    Done,
    /// The clock anchor is too old: renew it, send a fresh ping, and apply the
    /// same reply once more with the new client time.
    ReanchorAndRetry,
    /// The arithmetic failed again after renewing the anchor: the offset stays.
    GiveUp,
}

/// The session's state: announced topics, this client's published topics and
/// subscriptions, the id counters and the clock offset.
#[derive(Debug)]
pub struct Session {
    announced: HashMap<i32, Topic>,
    published: Vec<PublishedTopic>,
    subscriptions: Vec<SubscriptionRecord>,
    sub_counter: i32,
    topic_counter: u32,
    offset: u32,
}

fn time_topic() -> (r: Topic)
    ensures
        is_time_topic(r),
{
    Topic {
        name: String::from_str("Time"),
        id: -1,
        pubuid: Some(-1),
        topic_type: Type::Int,
        properties: None,
    }
}

fn contains_id(ids: &Vec<i32>, id: i32) -> (r: bool)
    ensures
        r == ids@.contains(id),
{
    let mut i: usize = 0;
    while i < ids.len()
        invariant
            i <= ids@.len(),
            forall|k: int| 0 <= k < i ==> ids@[k] != id,
        decreases ids@.len() - i,
    {
        if ids[i] == id {
            proof {
                assert(ids@[i as int] == id);
            }
            return true;
        }
        i = i + 1;
    }
    false
}

fn starts_with(name: &str, pattern: &str) -> (r: bool)
    ensures
        r == (pattern@.len() <= name@.len() && name@.subrange(0, pattern@.len() as int) == pattern@),
{
    let n = name.unicode_len();
    let m = pattern.unicode_len();
    if m > n {
        return false;
    }
    let mut i: usize = 0;
    while i < m
        invariant
            m == pattern@.len(),
            n == name@.len(),
            m <= n,
            i <= m,
            forall|k: int| 0 <= k < i ==> name@[k] == pattern@[k],
        decreases m - i,
    {
        if name.get_char(i) != pattern.get_char(i) {
            proof {
                assert(name@.subrange(0, m as int)[i as int] != pattern@[i as int]);
            }
            return false;
        }
        i = i + 1;
    }
    proof {
        assert(name@.subrange(0, m as int) =~= pattern@);
    }
    true
}

/// Whether a subscription wants values of the topic with this name.
pub fn matches_topic(rec: &SubscriptionRecord, name: &str) -> (r: bool)
    ensures
        r == record_matches(*rec, name@),
{
    let prefix = match &rec.options {
        Some(q) => match q.prefix {
            Some(b) => b,
            None => false,
        },
        None => false,
    };
    let mut i: usize = 0;
    while i < rec.topics.len()
        invariant
            i <= rec.topics@.len(),
            prefix == prefix_matching(rec.options),
            forall|k: int| 0 <= k < i ==> !pattern_matches(#[trigger] rec.topics@[k]@, prefix, name@),
        decreases rec.topics@.len() - i,
    {
        let hit = if prefix {
            starts_with(name, rec.topics[i].as_str())
        } else {
            rec.topics[i].as_str().unicode_len() == name.unicode_len() && starts_with(name, rec.topics[i].as_str())
        };
        if hit {
            proof {
                let k = i as int;
                if !prefix {
                    assert(name@.subrange(0, name@.len() as int) =~= name@);
                }
                assert(pattern_matches(rec.topics@[k]@, prefix_matching(rec.options), name@));
            }
            return true;
        }
        proof {
            if !prefix {
                if name@ == rec.topics@[i as int]@ {
                    assert(name@.subrange(0, name@.len() as int) =~= name@);
                }
            }
        }
        i = i + 1;
    }
    false
}


/// What a published topic's `publish` message reads.
pub open spec fn publish_of(p: PublishedTopic) -> Seq<char> {
    publish_text(p.name@, p.pubuid, p.topic_type, p.properties)
}

/// What a subscription's `subscribe` message reads.
pub open spec fn subscribe_of(s: SubscriptionRecord) -> Seq<char> {
    subscribe_text(s.subuid, s.topics@, s.options)
}

/// The frame that announces a new topic: its `publish` message, followed by a
/// `setproperties` message for the same name when properties are given.
pub open spec fn publish_frame_text(name: Seq<char>, pubuid: u32, t: Type, p: Option<PublishProperties>) -> Seq<char> {
    match p {
        Some(q) => array_text(seq![publish_text(name, pubuid, t, p), setproperties_text(name, q)]),
        None => array_text(seq![publish_text(name, pubuid, t, p)]),
    }
}

impl Session {
    /// The announced topics by server id.
    pub closed spec fn announced_view(&self) -> Map<i32, Topic> {
        self.announced@
    }

    /// This client's published topics.
    pub closed spec fn published_view(&self) -> Seq<PublishedTopic> {
        self.published@
    }

    /// The subscriptions in the registry.
    pub closed spec fn subscriptions_view(&self) -> Seq<SubscriptionRecord> {
        self.subscriptions@
    }

    /// The client-to-server clock offset in microseconds.
    pub closed spec fn offset_view(&self) -> u32 {
        self.offset
    }

    /// The last publisher id handed out.
    pub closed spec fn pubuid_counter(&self) -> u32 {
        self.topic_counter
    }

    /// The last subscriber id handed out.
    pub closed spec fn subuid_counter(&self) -> i32 {
        self.sub_counter
    }

    /// Ids are unique in both registries, and the time channel is announced.
    pub closed spec fn wf(&self) -> bool {
        &&& unique_pubuids(self.published@)
        &&& unique_subuids(self.subscriptions@)
        &&& self.announced@.contains_key(-1i32)
        &&& self.announced@[-1i32].id == -1
        &&& self.announced@[-1i32].topic_type == Type::Int
        &&& self.sub_counter >= 0
    }

    /// A session with nothing published or subscribed, whose only announced
    /// topic is the time channel.
    pub fn new() -> (r: Session)
        ensures
            r.wf(),
            r.published_view().len() == 0,
            r.subscriptions_view().len() == 0,
            r.announced_view().dom() == set![-1i32],
            is_time_topic(r.announced_view()[-1i32]),
            r.offset_view() == 0,
            r.pubuid_counter() == 0,
            r.subuid_counter() == 0,
    {
        let mut announced: HashMap<i32, Topic> = HashMap::new();
        announced.insert(-1, time_topic());
        let r = Session {
            announced,
            published: Vec::new(),
            subscriptions: Vec::new(),
            sub_counter: 0,
            topic_counter: 0,
            offset: 0,
        };
        proof {
            assert(r.announced@.dom() =~= set![-1i32]);
        }
        r
    }

    /// Hands out the next publisher id.
    pub fn new_topic_id(&mut self) -> (r: u32)
        requires
            old(self).wf(),
        ensures
            final(self).wf(),
            r == next_pubuid_spec(old(self).pubuid_counter()),
            r != 0,
            final(self).pubuid_counter() == r,
            final(self).subuid_counter() == old(self).subuid_counter(),
            final(self).published_view() == old(self).published_view(),
            final(self).subscriptions_view() == old(self).subscriptions_view(),
            final(self).announced_view() == old(self).announced_view(),
            final(self).offset_view() == old(self).offset_view(),
    {
        next_pubuid(&mut self.topic_counter)
    }

    /// Hands out the next subscriber id, which is positive.
    pub fn new_sub_id(&mut self) -> (r: i32)
        requires
            old(self).wf(),
        ensures
            final(self).wf(),
            r == next_subuid_spec(old(self).subuid_counter()),
            r > 0,
            final(self).subuid_counter() == r,
            final(self).pubuid_counter() == old(self).pubuid_counter(),
            final(self).published_view() == old(self).published_view(),
            final(self).subscriptions_view() == old(self).subscriptions_view(),
            final(self).announced_view() == old(self).announced_view(),
            final(self).offset_view() == old(self).offset_view(),
    {
        next_subuid(&mut self.sub_counter)
    }

    /// The text frame that publishes a topic.
    pub fn publish_frame(name: &str, pubuid: u32, t: Type, properties: &Option<PublishProperties>) -> (r: String)
        ensures
            r@ == publish_frame_text(name@, pubuid, t, *properties),
    {
        let mut items: Vec<String> = Vec::new();
        items.push(publish_message(name, pubuid, t, properties));
        match properties {
            Some(p) => {
                items.push(setproperties_message(name, p));
            },
            None => {},
        }
        let r = crate::json::array(&items);
        proof {
            if properties.is_some() {
                let q = properties.unwrap();
                assert(views(items@) =~= seq![publish_text(name@, pubuid, t, *properties), setproperties_text(name@, q)]);
            } else {
                assert(views(items@) =~= seq![publish_text(name@, pubuid, t, *properties)]);
            }
        }
        r
    }

    /// Publishes a topic: hands out its publisher id, records the topic under
    /// it and returns the id, the text frame to send and any entry it replaced.
    /// Should the send fail, `remove_published` takes the entry out again and
    /// `record_published` puts back the entry it replaced, if any.
    pub fn publish_topic(&mut self, name: String, topic_type: Type, properties: Option<PublishProperties>) -> (r: (u32, String, Option<PublishedTopic>))
        requires
            old(self).wf(),
        ensures
            final(self).wf(),
            r.0 == next_pubuid_spec(old(self).pubuid_counter()),
            r.0 != 0,
            r.1@ == publish_frame_text(name@, r.0, topic_type, properties),
            has_pubuid(final(self).published_view(), r.0),
            match r.2 {
                Some(prev) => old(self).published_view().contains(prev) && prev.pubuid == r.0,
                None => !has_pubuid(old(self).published_view(), r.0),
            },
            forall|p: PublishedTopic| #[trigger] final(self).published_view().contains(p)
                <==> (p == (PublishedTopic { name, pubuid: r.0, topic_type, properties })
                    || (old(self).published_view().contains(p) && p.pubuid != r.0)),
            final(self).pubuid_counter() == r.0,
            final(self).subuid_counter() == old(self).subuid_counter(),
            final(self).subscriptions_view() == old(self).subscriptions_view(),
            final(self).announced_view() == old(self).announced_view(),
            final(self).offset_view() == old(self).offset_view(),
    {
        let pubuid = self.new_topic_id();
        let frame = Session::publish_frame(name.as_str(), pubuid, topic_type, &properties);
        let replaced = self.record_published(PublishedTopic { name, pubuid, topic_type, properties });
        (pubuid, frame, replaced)
    }

    /// The text frame that sets new properties on a topic.
    pub fn set_properties(name: &str, properties: &PublishProperties) -> (r: String)
        ensures
            r@ == array_text(seq![setproperties_text(name@, *properties)]),
    {
        let mut items: Vec<String> = Vec::new();
        items.push(setproperties_message(name, properties));
        proof {
            assert(views(items@) =~= seq![setproperties_text(name@, *properties)]);
        }
        crate::json::array(&items)
    }

    /// Adds a published topic, replacing any entry with the same publisher id.
    pub fn record_published(&mut self, topic: PublishedTopic) -> (r: Option<PublishedTopic>)
        requires
            old(self).wf(),
        ensures
            final(self).wf(),
            match r {
                Some(prev) => old(self).published_view().contains(prev) && prev.pubuid == topic.pubuid,
                None => !has_pubuid(old(self).published_view(), topic.pubuid),
            },
            has_pubuid(final(self).published_view(), topic.pubuid),
            forall|p: PublishedTopic| #[trigger] final(self).published_view().contains(p)
                <==> (p == topic || (old(self).published_view().contains(p) && p.pubuid != topic.pubuid)),
            !has_pubuid(old(self).published_view(), topic.pubuid) ==> final(self).published_view() == old(self).published_view().push(topic),
            has_pubuid(old(self).published_view(), topic.pubuid) ==> exists|i: int| 0 <= i < old(self).published_view().len()
                && #[trigger] old(self).published_view()[i].pubuid == topic.pubuid
                && final(self).published_view() == old(self).published_view().update(i, topic),
            final(self).subscriptions_view() == old(self).subscriptions_view(),
            final(self).announced_view() == old(self).announced_view(),
            final(self).offset_view() == old(self).offset_view(),
            final(self).pubuid_counter() == old(self).pubuid_counter(),
            final(self).subuid_counter() == old(self).subuid_counter(),
    {
        let ghost old_s = self.published@;
        let n = self.published.len();
        let mut i: usize = 0;
        while i < n && self.published[i].pubuid != topic.pubuid
            invariant
                n == self.published@.len(),
                self.published@ == old_s,
                i <= n,
                forall|k: int| 0 <= k < i ==> (#[trigger] old_s[k]).pubuid != topic.pubuid,
            decreases n - i,
        {
            i = i + 1;
        }
        let ghost key = topic.pubuid;
        let mut replaced: Option<PublishedTopic> = None;
        if i < n {
            let ghost old_i = old_s[i as int];
            let prev = self.published.remove(i);
            self.published.insert(i, topic);
            replaced = Some(prev);
            proof {
                assert(old_s.contains(prev));
            }
            proof {
                let s = self.published@;
                assert(s =~= old_s.update(i as int, topic));
                assert(s[i as int].pubuid == key);
                assert forall|a: int, b: int| 0 <= a < s.len() && 0 <= b < s.len() && #[trigger] s[a].pubuid == #[trigger] s[b].pubuid implies a == b by {
                    if a != i && b != i {
                        assert(old_s[a].pubuid == old_s[b].pubuid);
                    } else if a == i && b != i {
                        assert(old_s[b].pubuid == old_s[i as int].pubuid);
                    } else if b == i && a != i {
                        assert(old_s[a].pubuid == old_s[i as int].pubuid);
                    }
                }
                assert forall|p: PublishedTopic| #[trigger] s.contains(p)
                    <==> (p == topic || (old_s.contains(p) && p.pubuid != key)) by {
                    if s.contains(p) {
                        let j = choose|j: int| 0 <= j < s.len() && s[j] == p;
                        if j != i {
                            assert(old_s[j] == p);
                            assert(old_s[j].pubuid != old_s[i as int].pubuid);
                        }
                    }
                    if p == topic {
                        assert(s[i as int] == p);
                    } else if old_s.contains(p) && p.pubuid != key {
                        let j = choose|j: int| 0 <= j < old_s.len() && old_s[j] == p;
                        assert(j != i);
                        assert(s[j] == p);
                    }
                }
            }
        } else {
            self.published.push(topic);
            proof {
                let s = self.published@;
                assert(s =~= old_s.push(topic));
                assert(s[n as int].pubuid == key);
                assert forall|a: int, b: int| 0 <= a < s.len() && 0 <= b < s.len() && #[trigger] s[a].pubuid == #[trigger] s[b].pubuid implies a == b by {
                    if a != n && b != n {
                        assert(old_s[a].pubuid == old_s[b].pubuid);
                    }
                }
                assert forall|p: PublishedTopic| #[trigger] s.contains(p)
                    <==> (p == topic || (old_s.contains(p) && p.pubuid != key)) by {
                    if s.contains(p) {
                        let j = choose|j: int| 0 <= j < s.len() && s[j] == p;
                        if j != n {
                            assert(old_s[j] == p);
                        }
                    }
                    if p == topic {
                        assert(s[n as int] == p);
                    } else if old_s.contains(p) && p.pubuid != key {
                        let j = choose|j: int| 0 <= j < old_s.len() && old_s[j] == p;
                        assert(s[j] == p);
                    }
                }
            }
        }
        replaced
    }

    /// Drops a published topic from the registry, keeping the others.
    pub fn remove_published(&mut self, pubuid: u32)
        requires
            old(self).wf(),
        ensures
            final(self).wf(),
            !has_pubuid(final(self).published_view(), pubuid),
            forall|p: PublishedTopic| #[trigger] final(self).published_view().contains(p)
                <==> (old(self).published_view().contains(p) && p.pubuid != pubuid),
            final(self).subscriptions_view() == old(self).subscriptions_view(),
            final(self).announced_view() == old(self).announced_view(),
            final(self).offset_view() == old(self).offset_view(),
            final(self).pubuid_counter() == old(self).pubuid_counter(),
            final(self).subuid_counter() == old(self).subuid_counter(),
    {
        let ghost old_s = self.published@;
        let n = self.published.len();
        let mut i: usize = 0;
        while i < n && self.published[i].pubuid != pubuid
            invariant
                n == self.published@.len(),
                self.published@ == old_s,
                i <= n,
                forall|k: int| 0 <= k < i ==> (#[trigger] old_s[k]).pubuid != pubuid,
            decreases n - i,
        {
            i = i + 1;
        }
        if i < n {
            self.published.remove(i);
            proof {
                let s = self.published@;
                assert(s =~= old_s.remove(i as int));
                assert forall|a: int, b: int| 0 <= a < s.len() && 0 <= b < s.len() && #[trigger] s[a].pubuid == #[trigger] s[b].pubuid implies a == b by {
                    let a2 = if a < i { a } else { a + 1 };
                    let b2 = if b < i { b } else { b + 1 };
                    assert(old_s[a2].pubuid == old_s[b2].pubuid);
                }
                assert forall|k: int| 0 <= k < s.len() implies #[trigger] s[k].pubuid != pubuid by {
                    let k2 = if k < i { k } else { k + 1 };
                    assert(old_s[k2].pubuid != old_s[i as int].pubuid);
                }
                assert forall|p: PublishedTopic| #[trigger] s.contains(p)
                    <==> (old_s.contains(p) && p.pubuid != pubuid) by {
                    if s.contains(p) {
                        let j = choose|j: int| 0 <= j < s.len() && s[j] == p;
                        let j2 = if j < i { j } else { j + 1 };
                        assert(old_s[j2] == p);
                    }
                    if old_s.contains(p) && p.pubuid != pubuid {
                        let j = choose|j: int| 0 <= j < old_s.len() && old_s[j] == p;
                        assert(j != i);
                        let j2 = if j < i { j } else { j - 1 };
                        assert(s[j2] == p);
                    }
                }
            }
        }
    }

    /// Stops publishing a topic: drops it from the registry and returns the
    /// text frame with its `unpublish` message.
    pub fn unpublish(&mut self, pubuid: u32) -> (r: String)
        requires
            old(self).wf(),
        ensures
            final(self).wf(),
            r@ == array_text(seq![unpublish_text(pubuid)]),
            !has_pubuid(final(self).published_view(), pubuid),
            forall|p: PublishedTopic| #[trigger] final(self).published_view().contains(p)
                <==> (old(self).published_view().contains(p) && p.pubuid != pubuid),
            final(self).subscriptions_view() == old(self).subscriptions_view(),
            final(self).announced_view() == old(self).announced_view(),
            final(self).offset_view() == old(self).offset_view(),
            final(self).pubuid_counter() == old(self).pubuid_counter(),
            final(self).subuid_counter() == old(self).subuid_counter(),
    {
        self.remove_published(pubuid);
        let mut items: Vec<String> = Vec::new();
        items.push(unpublish_message(pubuid));
        proof {
            assert(views(items@) =~= seq![unpublish_text(pubuid)]);
        }
        crate::json::array(&items)
    }

    /// The text frame that subscribes to topics.
    pub fn subscribe_frame(subuid: i32, topics: &Vec<String>, options: &Option<SubscriptionOptions>) -> (r: String)
        ensures
            r@ == array_text(seq![subscribe_text(subuid, topics@, *options)]),
    {
        let mut items: Vec<String> = Vec::new();
        items.push(subscribe_message(subuid, topics, options));
        proof {
            assert(views(items@) =~= seq![subscribe_text(subuid, topics@, *options)]);
        }
        crate::json::array(&items)
    }

    /// Subscribes to topics: hands out the subscriber id, records the
    /// subscription under it and returns the id, the text frame to send and any
    /// entry it replaced.
    /// Should the send fail, `remove_subscription` takes the entry out again and
    /// `record_subscription` puts back the entry it replaced, if any.
    pub fn subscribe_w_options(&mut self, topics: Vec<String>, options: Option<SubscriptionOptions>) -> (r: (i32, String, Option<SubscriptionRecord>))
        requires
            old(self).wf(),
        ensures
            final(self).wf(),
            r.0 == next_subuid_spec(old(self).subuid_counter()),
            r.0 > 0,
            r.1@ == array_text(seq![subscribe_text(r.0, topics@, options)]),
            has_subuid(final(self).subscriptions_view(), r.0),
            match r.2 {
                Some(prev) => old(self).subscriptions_view().contains(prev) && prev.subuid == r.0,
                None => !has_subuid(old(self).subscriptions_view(), r.0),
            },
            forall|q: SubscriptionRecord| #[trigger] final(self).subscriptions_view().contains(q)
                <==> (q == (SubscriptionRecord { subuid: r.0, topics, options })
                    || (old(self).subscriptions_view().contains(q) && q.subuid != r.0)),
            final(self).subuid_counter() == r.0,
            final(self).pubuid_counter() == old(self).pubuid_counter(),
            final(self).published_view() == old(self).published_view(),
            final(self).announced_view() == old(self).announced_view(),
            final(self).offset_view() == old(self).offset_view(),
    {
        let subuid = self.new_sub_id();
        let frame = Session::subscribe_frame(subuid, &topics, &options);
        let replaced = self.record_subscription(SubscriptionRecord { subuid, topics, options });
        (subuid, frame, replaced)
    }

    /// Adds a subscription, replacing any entry with the same subscriber id.
    pub fn record_subscription(&mut self, rec: SubscriptionRecord) -> (r: Option<SubscriptionRecord>)
        requires
            old(self).wf(),
        ensures
            final(self).wf(),
            match r {
                Some(prev) => old(self).subscriptions_view().contains(prev) && prev.subuid == rec.subuid,
                None => !has_subuid(old(self).subscriptions_view(), rec.subuid),
            },
            has_subuid(final(self).subscriptions_view(), rec.subuid),
            forall|q: SubscriptionRecord| #[trigger] final(self).subscriptions_view().contains(q)
                <==> (q == rec || (old(self).subscriptions_view().contains(q) && q.subuid != rec.subuid)),
            !has_subuid(old(self).subscriptions_view(), rec.subuid) ==> final(self).subscriptions_view() == old(self).subscriptions_view().push(rec),
            has_subuid(old(self).subscriptions_view(), rec.subuid) ==> exists|i: int| 0 <= i < old(self).subscriptions_view().len()
                && #[trigger] old(self).subscriptions_view()[i].subuid == rec.subuid
                && final(self).subscriptions_view() == old(self).subscriptions_view().update(i, rec),
            final(self).published_view() == old(self).published_view(),
            final(self).announced_view() == old(self).announced_view(),
            final(self).offset_view() == old(self).offset_view(),
            final(self).pubuid_counter() == old(self).pubuid_counter(),
            final(self).subuid_counter() == old(self).subuid_counter(),
    {
        let ghost old_s = self.subscriptions@;
        let n = self.subscriptions.len();
        let mut i: usize = 0;
        while i < n && self.subscriptions[i].subuid != rec.subuid
            invariant
                n == self.subscriptions@.len(),
                self.subscriptions@ == old_s,
                i <= n,
                forall|k: int| 0 <= k < i ==> (#[trigger] old_s[k]).subuid != rec.subuid,
            decreases n - i,
        {
            i = i + 1;
        }
        let ghost key = rec.subuid;
        let ghost rv = rec;
        let mut replaced: Option<SubscriptionRecord> = None;
        if i < n {
            let prev = self.subscriptions.remove(i);
            self.subscriptions.insert(i, rec);
            replaced = Some(prev);
            proof {
                assert(old_s.contains(prev));
            }
            proof {
                let s = self.subscriptions@;
                assert(s =~= old_s.update(i as int, rv));
                assert(s[i as int].subuid == key);
                assert forall|a: int, b: int| 0 <= a < s.len() && 0 <= b < s.len() && #[trigger] s[a].subuid == #[trigger] s[b].subuid implies a == b by {
                    if a != i && b != i {
                        assert(old_s[a].subuid == old_s[b].subuid);
                    } else if a == i && b != i {
                        assert(old_s[b].subuid == old_s[i as int].subuid);
                    } else if b == i && a != i {
                        assert(old_s[a].subuid == old_s[i as int].subuid);
                    }
                }
                assert forall|q: SubscriptionRecord| #[trigger] s.contains(q)
                    <==> (q == rv || (old_s.contains(q) && q.subuid != key)) by {
                    if s.contains(q) {
                        let j = choose|j: int| 0 <= j < s.len() && s[j] == q;
                        if j != i {
                            assert(old_s[j] == q);
                            assert(old_s[j].subuid != old_s[i as int].subuid);
                        }
                    }
                    if q == rv {
                        assert(s[i as int] == q);
                    } else if old_s.contains(q) && q.subuid != key {
                        let j = choose|j: int| 0 <= j < old_s.len() && old_s[j] == q;
                        assert(j != i);
                        assert(s[j] == q);
                    }
                }
            }
        } else {
            self.subscriptions.push(rec);
            proof {
                let s = self.subscriptions@;
                assert(s =~= old_s.push(rv));
                assert(s[n as int].subuid == key);
                assert forall|a: int, b: int| 0 <= a < s.len() && 0 <= b < s.len() && #[trigger] s[a].subuid == #[trigger] s[b].subuid implies a == b by {
                    if a != n && b != n {
                        assert(old_s[a].subuid == old_s[b].subuid);
                    }
                }
                assert forall|q: SubscriptionRecord| #[trigger] s.contains(q)
                    <==> (q == rv || (old_s.contains(q) && q.subuid != key)) by {
                    if s.contains(q) {
                        let j = choose|j: int| 0 <= j < s.len() && s[j] == q;
                        if j != n {
                            assert(old_s[j] == q);
                        }
                    }
                    if q == rv {
                        assert(s[n as int] == q);
                    } else if old_s.contains(q) && q.subuid != key {
                        let j = choose|j: int| 0 <= j < old_s.len() && old_s[j] == q;
                        assert(s[j] == q);
                    }
                }
            }
        }
        replaced
    }

    /// Drops a subscription from the registry, keeping the order of the others.
    pub fn remove_subscription(&mut self, subuid: i32)
        requires
            old(self).wf(),
        ensures
            final(self).wf(),
            !has_subuid(final(self).subscriptions_view(), subuid),
            forall|q: SubscriptionRecord| #[trigger] final(self).subscriptions_view().contains(q)
                <==> (old(self).subscriptions_view().contains(q) && q.subuid != subuid),
            has_subuid(old(self).subscriptions_view(), subuid) ==> exists|i: int| 0 <= i < old(self).subscriptions_view().len()
                && final(self).subscriptions_view() == old(self).subscriptions_view().remove(i),
            !has_subuid(old(self).subscriptions_view(), subuid) ==> final(self).subscriptions_view() == old(self).subscriptions_view(),
            final(self).published_view() == old(self).published_view(),
            final(self).announced_view() == old(self).announced_view(),
            final(self).offset_view() == old(self).offset_view(),
            final(self).pubuid_counter() == old(self).pubuid_counter(),
            final(self).subuid_counter() == old(self).subuid_counter(),
    {
        let ghost old_s = self.subscriptions@;
        let n = self.subscriptions.len();
        let mut i: usize = 0;
        while i < n && self.subscriptions[i].subuid != subuid
            invariant
                n == self.subscriptions@.len(),
                self.subscriptions@ == old_s,
                i <= n,
                forall|k: int| 0 <= k < i ==> (#[trigger] old_s[k]).subuid != subuid,
            decreases n - i,
        {
            i = i + 1;
        }
        if i < n {
            self.subscriptions.remove(i);
            proof {
                let s = self.subscriptions@;
                assert(s =~= old_s.remove(i as int));
                assert forall|a: int, b: int| 0 <= a < s.len() && 0 <= b < s.len() && #[trigger] s[a].subuid == #[trigger] s[b].subuid implies a == b by {
                    let a2 = if a < i { a } else { a + 1 };
                    let b2 = if b < i { b } else { b + 1 };
                    assert(old_s[a2].subuid == old_s[b2].subuid);
                }
                assert forall|k: int| 0 <= k < s.len() implies #[trigger] s[k].subuid != subuid by {
                    let k2 = if k < i { k } else { k + 1 };
                    assert(old_s[k2].subuid != old_s[i as int].subuid);
                }
                assert forall|q: SubscriptionRecord| #[trigger] s.contains(q)
                    <==> (old_s.contains(q) && q.subuid != subuid) by {
                    if s.contains(q) {
                        let j = choose|j: int| 0 <= j < s.len() && s[j] == q;
                        let j2 = if j < i { j } else { j + 1 };
                        assert(old_s[j2] == q);
                    }
                    if old_s.contains(q) && q.subuid != subuid {
                        let j = choose|j: int| 0 <= j < old_s.len() && old_s[j] == q;
                        assert(j != i);
                        let j2 = if j < i { j } else { j - 1 };
                        assert(s[j2] == q);
                    }
                }
            }
        } else {
            proof {
                assert forall|q: SubscriptionRecord| #[trigger] old_s.contains(q) implies q.subuid != subuid by {
                    let j = choose|j: int| 0 <= j < old_s.len() && old_s[j] == q;
                }
            }
        }
    }

    /// Ends a subscription: drops it from the registry and returns the text
    /// frame with its `unsubscribe` message.
    pub fn unsubscribe(&mut self, subuid: i32) -> (r: String)
        requires
            old(self).wf(),
        ensures
            final(self).wf(),
            r@ == array_text(seq![unsubscribe_text(subuid)]),
            !has_subuid(final(self).subscriptions_view(), subuid),
            forall|q: SubscriptionRecord| #[trigger] final(self).subscriptions_view().contains(q)
                <==> (old(self).subscriptions_view().contains(q) && q.subuid != subuid),
            final(self).published_view() == old(self).published_view(),
            final(self).announced_view() == old(self).announced_view(),
            final(self).offset_view() == old(self).offset_view(),
            final(self).pubuid_counter() == old(self).pubuid_counter(),
            final(self).subuid_counter() == old(self).subuid_counter(),
    {
        self.remove_subscription(subuid);
        let mut items: Vec<String> = Vec::new();
        items.push(unsubscribe_message(subuid));
        proof {
            assert(views(items@) =~= seq![unsubscribe_text(subuid)]);
        }
        crate::json::array(&items)
    }

    /// Drops the subscriptions whose ids are listed: those whose handle the
    /// user has dropped or whose queue has closed. The others keep their order.
    pub fn prune_subscriptions(&mut self, dead: &Vec<i32>)
        requires
            old(self).wf(),
        ensures
            final(self).wf(),
            final(self).subscriptions_view() == old(self).subscriptions_view().filter(
                |q: SubscriptionRecord| !dead@.contains(q.subuid)),
            forall|q: SubscriptionRecord| #[trigger] final(self).subscriptions_view().contains(q)
                <==> (old(self).subscriptions_view().contains(q) && !dead@.contains(q.subuid)),
            forall|k: int| 0 <= k < dead@.len() ==> !has_subuid(final(self).subscriptions_view(), #[trigger] dead@[k]),
            final(self).published_view() == old(self).published_view(),
            final(self).announced_view() == old(self).announced_view(),
            final(self).offset_view() == old(self).offset_view(),
            final(self).pubuid_counter() == old(self).pubuid_counter(),
            final(self).subuid_counter() == old(self).subuid_counter(),
    {
        let ghost pred = |q: SubscriptionRecord| !dead@.contains(q.subuid);
        let ghost orig = self.subscriptions@;
        let mut rest: Vec<SubscriptionRecord> = Vec::new();
        core::mem::swap(&mut rest, &mut self.subscriptions);
        let mut kept: Vec<SubscriptionRecord> = Vec::new();
        let ghost mut i: int = 0;
        proof {
            assert(orig.subrange(0, 0) =~= Seq::<SubscriptionRecord>::empty());
            reveal(Seq::filter);
            assert(rest@ =~= orig.subrange(0, orig.len() as int));
        }
        while rest.len() > 0
            invariant
                0 <= i <= orig.len(),
                rest@ == orig.subrange(i, orig.len() as int),
                kept@ == orig.subrange(0, i).filter(pred),
                unique_subuids(orig),
                unique_subuids(kept@),
                forall|k: int| #![trigger kept@[k]] 0 <= k < kept@.len() ==> exists|j: int| 0 <= j < i && #[trigger] orig[j] == kept@[k],
                pred == (|q: SubscriptionRecord| !dead@.contains(q.subuid)),
            decreases rest@.len(),
        {
            let q = rest.remove(0);
            let drop = contains_id(dead, q.subuid);
            let ghost before = kept@;
            proof {
                assert(q == orig[i]);
                assert(orig.subrange(0, i + 1).drop_last() =~= orig.subrange(0, i));
                assert(orig.subrange(0, i + 1).last() == orig[i]);
                reveal(Seq::filter);
            }
            if !drop {
                proof {
                    assert forall|k: int| 0 <= k < before.len() implies before[k].subuid != q.subuid by {
                        let j = choose|j: int| 0 <= j < i && #[trigger] orig[j] == before[k];
                    }
                }
                kept.push(q);
                proof {
                    let s2 = kept@;
                    assert forall|a: int, b: int| 0 <= a < s2.len() && 0 <= b < s2.len() && #[trigger] s2[a].subuid == #[trigger] s2[b].subuid implies a == b by {
                        if a < before.len() && b < before.len() {
                            assert(before[a].subuid == before[b].subuid);
                        }
                    }
                    assert forall|k: int| #![trigger s2[k]] 0 <= k < s2.len() implies exists|j: int| 0 <= j < i + 1 && #[trigger] orig[j] == s2[k] by {
                        if k < before.len() {
                            let j = choose|j: int| 0 <= j < i && #[trigger] orig[j] == before[k];
                            assert(orig[j] == s2[k]);
                        } else {
                            assert(orig[i] == s2[k]);
                        }
                    }
                }
            }
            proof {
                assert(pred(orig[i]) == !drop);
                i = i + 1;
                assert(rest@ =~= orig.subrange(i, orig.len() as int));
            }
        }
        proof {
            assert(orig.subrange(0, orig.len() as int) =~= orig);
        }
        self.subscriptions = kept;
        proof {
            let f = self.subscriptions@;
            assert forall|q: SubscriptionRecord| #[trigger] f.contains(q)
                <==> (orig.contains(q) && !dead@.contains(q.subuid)) by {
                if f.contains(q) {
                    let k = choose|k: int| 0 <= k < f.len() && f[k] == q;
                    orig.lemma_filter_pred(pred, k);
                    assert(pred(f[k]));
                    assert(orig.contains(q)) by {
                        let j = choose|j: int| 0 <= j < i && #[trigger] orig[j] == f[k];
                    }
                }
                if orig.contains(q) && !dead@.contains(q.subuid) {
                    let j = choose|j: int| 0 <= j < orig.len() && orig[j] == q;
                    orig.lemma_filter_contains(pred, j);
                }
            }
            assert forall|k: int| 0 <= k < dead@.len() implies !has_subuid(f, #[trigger] dead@[k]) by {
                if has_subuid(f, dead@[k]) {
                    let j = choose|j: int| 0 <= j < f.len() && #[trigger] f[j].subuid == dead@[k];
                    orig.lemma_filter_pred(pred, j);
                    assert(pred(f[j]));
                    assert(dead@.contains(dead@[k]));
                }
            }
        }
    }

    /// Prepares a fresh connection: puts back the time channel's entry, drops
    /// the subscriptions listed as dead, and returns the single text frame that
    /// publishes every published topic and subscribes every remaining subscription.
    pub fn rehydrate(&mut self, dead: &Vec<i32>) -> (r: String)
        requires
            old(self).wf(),
        ensures
            final(self).wf(),
            r@ == rehydration_text(final(self).published_view(), final(self).subscriptions_view()),
            final(self).subscriptions_view() == old(self).subscriptions_view().filter(
                |q: SubscriptionRecord| !dead@.contains(q.subuid)),
            forall|q: SubscriptionRecord| #[trigger] final(self).subscriptions_view().contains(q)
                <==> (old(self).subscriptions_view().contains(q) && !dead@.contains(q.subuid)),
            final(self).announced_view().dom() == old(self).announced_view().dom(),
            is_time_topic(final(self).announced_view()[-1i32]),
            forall|k: i32| k != -1 && #[trigger] old(self).announced_view().contains_key(k)
                ==> final(self).announced_view()[k] == old(self).announced_view()[k],
            final(self).published_view() == old(self).published_view(),
            final(self).offset_view() == old(self).offset_view(),
            final(self).pubuid_counter() == old(self).pubuid_counter(),
            final(self).subuid_counter() == old(self).subuid_counter(),
    {
        self.announced.insert(-1, time_topic());
        proof {
            assert(self.announced@.dom() =~= old(self).announced@.dom());
        }
        self.prune_subscriptions(dead);
        let mut items: Vec<String> = Vec::new();
        let mut i: usize = 0;
        while i < self.published.len()
            invariant
                i <= self.published@.len(),
                views(items@) == self.published@.subrange(0, i as int).map_values(|p: PublishedTopic| publish_of(p)),
            decreases self.published@.len() - i,
        {
            let p = &self.published[i];
            let m = publish_message(p.name.as_str(), p.pubuid, p.topic_type, &p.properties);
            let ghost before = items@;
            items.push(m);
            i = i + 1;
            proof {
                assert(views(items@) =~= views(before).push(m@));
                assert(self.published@.subrange(0, i as int).map_values(|p: PublishedTopic| publish_of(p))
                    =~= self.published@.subrange(0, i - 1).map_values(|p: PublishedTopic| publish_of(p)).push(publish_of(self.published@[i - 1])));
            }
        }
        let ghost pubs = self.published@.map_values(|p: PublishedTopic| publish_of(p));
        proof {
            assert(self.published@.subrange(0, self.published@.len() as int) =~= self.published@);
            assert(views(items@) =~= pubs + self.subscriptions@.subrange(0, 0).map_values(|s: SubscriptionRecord| subscribe_of(s)));
        }
        let mut j: usize = 0;
        while j < self.subscriptions.len()
            invariant
                j <= self.subscriptions@.len(),
                pubs == self.published@.map_values(|p: PublishedTopic| publish_of(p)),
                views(items@) == pubs + self.subscriptions@.subrange(0, j as int).map_values(|s: SubscriptionRecord| subscribe_of(s)),
            decreases self.subscriptions@.len() - j,
        {
            let q = &self.subscriptions[j];
            let m = subscribe_message(q.subuid, &q.topics, &q.options);
            let ghost before = items@;
            items.push(m);
            j = j + 1;
            proof {
                assert(views(items@) =~= views(before).push(m@));
                assert(self.subscriptions@.subrange(0, j as int).map_values(|s: SubscriptionRecord| subscribe_of(s))
                    =~= self.subscriptions@.subrange(0, j - 1).map_values(|s: SubscriptionRecord| subscribe_of(s)).push(subscribe_of(self.subscriptions@[j - 1])));
                assert(views(items@) =~= pubs + self.subscriptions@.subrange(0, j as int).map_values(|s: SubscriptionRecord| subscribe_of(s)));
            }
        }
        proof {
            assert(self.subscriptions@.subrange(0, self.subscriptions@.len() as int) =~= self.subscriptions@);
        }
        crate::json::array(&items)
    }

    /// Decides where a value for topic `id` goes. When the topic is announced,
    /// the subscriptions listed as dead are dropped and the value goes to every
    /// remaining subscription that matches the topic's name, in registry order.
    /// Otherwise the value is kept for one more try (`retry` false) or dropped.
    pub fn route_value(&mut self, id: i32, retry: bool, dead: &Vec<i32>) -> (r: Routing)
        requires
            old(self).wf(),
        ensures
            final(self).wf(),
            old(self).announced_view().contains_key(id) ==> {
                &&& final(self).subscriptions_view() == old(self).subscriptions_view().filter(
                    |q: SubscriptionRecord| !dead@.contains(q.subuid))
                &&& forall|q: SubscriptionRecord| #[trigger] final(self).subscriptions_view().contains(q)
                    <==> (old(self).subscriptions_view().contains(q) && !dead@.contains(q.subuid))
                &&& r matches Routing::Deliver { topic_name, subuids } && topic_name@ == old(self).announced_view()[id].name@
                    && subuids@ == final(self).subscriptions_view().filter(|q: SubscriptionRecord| record_matches(q, topic_name@)).map_values(
                    |q: SubscriptionRecord| q.subuid)
            },
            !old(self).announced_view().contains_key(id) ==> {
                &&& final(self).subscriptions_view() == old(self).subscriptions_view()
                &&& if retry { r is Drop } else { r is Retry }
            },
            final(self).published_view() == old(self).published_view(),
            final(self).announced_view() == old(self).announced_view(),
            final(self).offset_view() == old(self).offset_view(),
            final(self).pubuid_counter() == old(self).pubuid_counter(),
            final(self).subuid_counter() == old(self).subuid_counter(),
    {
        let name = match self.announced.get(&id) {
            Some(t) => t.name.clone(),
            None => {
                return if retry { Routing::Drop } else { Routing::Retry };
            },
        };
        self.prune_subscriptions(dead);
        let ghost subs = self.subscriptions@;
        let mut subuids: Vec<i32> = Vec::new();
        let mut i: usize = 0;
        while i < self.subscriptions.len()
            invariant
                subs == self.subscriptions@,
                i <= subs.len(),
                subuids@ == subs.subrange(0, i as int).filter(|q: SubscriptionRecord| record_matches(q, name@)).map_values(
                    |q: SubscriptionRecord| q.subuid),
            decreases subs.len() - i,
        {
            let hit = matches_topic(&self.subscriptions[i], name.as_str());
            let ghost before = subuids@;
            if hit {
                subuids.push(self.subscriptions[i].subuid);
            }
            i = i + 1;
            proof {
                let pred = |q: SubscriptionRecord| record_matches(q, name@);
                assert(subs.subrange(0, i as int).drop_last() =~= subs.subrange(0, i - 1));
                assert(subs.subrange(0, i as int).last() == subs[i - 1]);
                assert(pred(subs[i - 1]) == hit);
                reveal(Seq::filter);
                if hit {
                    assert(subs.subrange(0, i as int).filter(pred) == subs.subrange(0, i - 1).filter(pred).push(subs[i - 1]));
                    assert(subuids@ =~= subs.subrange(0, i as int).filter(pred).map_values(|q: SubscriptionRecord| q.subuid));
                } else {
                    assert(subs.subrange(0, i as int).filter(pred) == subs.subrange(0, i - 1).filter(pred));
                }
            }
        }
        proof {
            assert(subs.subrange(0, subs.len() as int) =~= subs);
        }
        Routing::Deliver { topic_name: name, subuids }
    }

    /// Records an announce from the server. A topic already known keeps its
    /// entry and only takes the server's publisher id when one is sent.
    pub fn handle_announce(&mut self, name: String, id: i32, pubuid: Option<i32>, topic_type: Type, properties: PublishProperties)
        requires
            old(self).wf(),
        ensures
            final(self).wf(),
            final(self).announced_view().dom() == old(self).announced_view().dom().insert(id),
            forall|k: i32| k != id && #[trigger] old(self).announced_view().contains_key(k)
                ==> final(self).announced_view()[k] == old(self).announced_view()[k],
            old(self).announced_view().contains_key(id) ==> {
                let before = old(self).announced_view()[id];
                let after = final(self).announced_view()[id];
                &&& after.name == before.name
                &&& after.id == before.id
                &&& after.topic_type == before.topic_type
                &&& after.properties == before.properties
                &&& after.pubuid == if pubuid is Some { pubuid } else { before.pubuid }
            },
            !old(self).announced_view().contains_key(id) ==> final(self).announced_view()[id] == (Topic {
                name,
                id,
                pubuid,
                topic_type,
                properties: Some(properties),
            }),
            final(self).published_view() == old(self).published_view(),
            final(self).subscriptions_view() == old(self).subscriptions_view(),
            final(self).offset_view() == old(self).offset_view(),
            final(self).pubuid_counter() == old(self).pubuid_counter(),
            final(self).subuid_counter() == old(self).subuid_counter(),
    {
        match self.announced.remove(&id) {
            Some(existing) => {
                let mut t = existing;
                if pubuid.is_some() {
                    t.pubuid = pubuid;
                }
                self.announced.insert(id, t);
            },
            None => {
                self.announced.insert(id, Topic { name, id, pubuid, topic_type, properties: Some(properties) });
            },
        }
        proof {
            assert(self.announced@.dom() =~= old(self).announced@.dom().insert(id));
        }
    }

    /// Records an unannounce from the server and returns the entry it removed.
    /// The time channel's entry is permanent and is never removed.
    pub fn handle_unannounce(&mut self, id: i32) -> (r: Option<Topic>)
        requires
            old(self).wf(),
        ensures
            final(self).wf(),
            id == -1 ==> r is None && final(self).announced_view() == old(self).announced_view(),
            id != -1 ==> final(self).announced_view() == old(self).announced_view().remove(id),
            id != -1 ==> match r {
                Some(t) => old(self).announced_view().contains_key(id) && t == old(self).announced_view()[id],
                None => !old(self).announced_view().contains_key(id),
            },
            final(self).published_view() == old(self).published_view(),
            final(self).subscriptions_view() == old(self).subscriptions_view(),
            final(self).offset_view() == old(self).offset_view(),
            final(self).pubuid_counter() == old(self).pubuid_counter(),
            final(self).subuid_counter() == old(self).subuid_counter(),
    {
        if id == -1 {
            return None;
        }
        self.announced.remove(&id)
    }

    /// The announced topic with this server id.
    pub fn announced_topic(&self, id: i32) -> (r: Option<&Topic>)
        ensures
            match r {
                Some(t) => self.announced_view().contains_key(id) && *t == self.announced_view()[id],
                None => !self.announced_view().contains_key(id),
            },
    {
        self.announced.get(&id)
    }

    /// All announced topics by server id.
    pub fn use_announced_topics(&self) -> (r: &HashMap<i32, Topic>)
        ensures
            r@ == self.announced_view(),
    {
        &self.announced
    }

    /// The published topic with this publisher id.
    pub fn published_topic(&self, pubuid: u32) -> (r: Option<&PublishedTopic>)
        requires
            self.wf(),
        ensures
            match r {
                Some(t) => self.published_view().contains(*t) && t.pubuid == pubuid,
                None => !has_pubuid(self.published_view(), pubuid),
            },
    {
        let mut i: usize = 0;
        while i < self.published.len()
            invariant
                i <= self.published@.len(),
                forall|k: int| 0 <= k < i ==> (#[trigger] self.published@[k]).pubuid != pubuid,
            decreases self.published@.len() - i,
        {
            if self.published[i].pubuid == pubuid {
                proof {
                    assert(self.published@.contains(self.published@[i as int]));
                }
                return Some(&self.published[i]);
            }
            i = i + 1;
        }
        None
    }

    /// The ids of the subscriptions in the registry, in registry order.
    pub fn subscription_ids(&self) -> (r: Vec<i32>)
        ensures
            r@ == self.subscriptions_view().map_values(|q: SubscriptionRecord| q.subuid),
    {
        let mut r: Vec<i32> = Vec::new();
        let mut i: usize = 0;
        while i < self.subscriptions.len()
            invariant
                i <= self.subscriptions@.len(),
                r@ == self.subscriptions@.subrange(0, i as int).map_values(|q: SubscriptionRecord| q.subuid),
            decreases self.subscriptions@.len() - i,
        {
            r.push(self.subscriptions[i].subuid);
            i = i + 1;
            proof {
                assert(r@ =~= self.subscriptions@.subrange(0, i as int).map_values(|q: SubscriptionRecord| q.subuid));
            }
        }
        proof {
            assert(self.subscriptions@.subrange(0, self.subscriptions@.len() as int) =~= self.subscriptions@);
        }
        r
    }

    /// The client-to-server clock offset in microseconds.
    pub fn offset(&self) -> (r: u32)
        ensures
            r == self.offset_view(),
    {
        self.offset
    }

    /// The server time for a client time.
    pub fn server_time(&self, client_time: u32) -> (r: u32)
        ensures
            r == server_time_spec(client_time, self.offset_view()),
    {
        server_time(client_time, self.offset)
    }

    /// Applies a time-sync reply. Returns false when the arithmetic overflowed:
    /// the caller then renews the clock anchor, sends a fresh ping and applies
    /// the reply once more.
    pub fn handle_new_timestamp(&mut self, server_timestamp: u32, echoed: Option<i64>, receive_time: u32) -> (r: bool)
        requires
            old(self).wf(),
        ensures
            final(self).wf(),
            r == !(offset_update_spec(server_timestamp, echoed, receive_time) is Overflow),
            final(self).offset_view() == match offset_update_spec(server_timestamp, echoed, receive_time) {
                OffsetUpdate::Adjusted(o) => o,
                _ => old(self).offset_view(),
            },
            final(self).published_view() == old(self).published_view(),
            final(self).subscriptions_view() == old(self).subscriptions_view(),
            final(self).announced_view() == old(self).announced_view(),
            final(self).pubuid_counter() == old(self).pubuid_counter(),
            final(self).subuid_counter() == old(self).subuid_counter(),
    {
        match offset_update(server_timestamp, echoed, receive_time) {
            OffsetUpdate::Adjusted(o) => {
                self.offset = o;
                true
            },
            OffsetUpdate::Unchanged => true,
            OffsetUpdate::Overflow => false,
        }
    }

    /// Applies a time-sync reply and decides what follows. `retried` tells
    /// whether the anchor was already renewed for this reply.
    pub fn on_time_reply(&mut self, server_timestamp: u32, echoed: Option<i64>, receive_time: u32, retried: bool) -> (r: TimeReplyAction)
        requires
            old(self).wf(),
        ensures
            final(self).wf(),
            final(self).offset_view() == match offset_update_spec(server_timestamp, echoed, receive_time) {
                OffsetUpdate::Adjusted(o) => o,
                _ => old(self).offset_view(),
            },
            !(offset_update_spec(server_timestamp, echoed, receive_time) is Overflow) ==> r == TimeReplyAction::Done,
            offset_update_spec(server_timestamp, echoed, receive_time) is Overflow ==> r == if retried {
                TimeReplyAction::GiveUp
            } else {
                TimeReplyAction::ReanchorAndRetry
            },
            final(self).published_view() == old(self).published_view(),
            final(self).subscriptions_view() == old(self).subscriptions_view(),
            final(self).announced_view() == old(self).announced_view(),
            final(self).pubuid_counter() == old(self).pubuid_counter(),
            final(self).subuid_counter() == old(self).subuid_counter(),
    {
        if self.handle_new_timestamp(server_timestamp, echoed, receive_time) {
            TimeReplyAction::Done
        } else if retried {
            TimeReplyAction::GiveUp
        } else {
            TimeReplyAction::ReanchorAndRetry
        }
    }

    /// The time-sync ping: id -1, server timestamp 0, the time channel's type,
    /// and the current client time as the value.
    pub fn time_ping(&self, client_time: u32) -> (r: Vec<u8>)
        requires
            self.wf(),
        ensures
            r@ == value_frame_bytes(UnsignedIntOrNegativeOne::NegativeOne, 0, Type::Int, enc_u32(client_time)),
    {
        let t = match self.announced.get(&-1) {
            Some(topic) => topic.topic_type,
            None => Type::Int,
        };
        let mut value: Vec<u8> = Vec::new();
        push_u32(&mut value, client_time);
        proof {
            assert(value@ =~= enc_u32(client_time));
        }
        encode_value_frame(UnsignedIntOrNegativeOne::NegativeOne, 0, t, &value)
    }

    /// The binary frame that publishes a value on a topic at a given time;
    /// `value` holds the value's MessagePack bytes.
    pub fn publish_value_w_timestamp(topic: &PublishedTopic, timestamp: u32, value: &Vec<u8>) -> (r: Vec<u8>)
        ensures
            r@ == value_frame_bytes(UnsignedIntOrNegativeOne::UnsignedInt(topic.pubuid), timestamp, topic.topic_type, value@),
    {
        encode_value_frame(UnsignedIntOrNegativeOne::UnsignedInt(topic.pubuid), timestamp, topic.topic_type, value)
    }

    /// The binary frame that publishes a value on a topic, stamped with the
    /// server time for the given client time.
    pub fn publish_value(&self, topic: &PublishedTopic, client_time: u32, value: &Vec<u8>) -> (r: Vec<u8>)
        ensures
            r@ == value_frame_bytes(
                UnsignedIntOrNegativeOne::UnsignedInt(topic.pubuid),
                server_time_spec(client_time, self.offset_view()),
                topic.topic_type,
                value@,
            ),
    {
        let ts = self.server_time(client_time);
        Session::publish_value_w_timestamp(topic, ts, value)
    }
}

/// In a well-formed session every publisher id and every subscriber id occurs
/// at most once, and the time channel is announced.
pub proof fn lemma_ids_unique(s: &Session)
    requires
        s.wf(),
    ensures
        unique_pubuids(s.published_view()),
        unique_subuids(s.subscriptions_view()),
        s.announced_view().contains_key(-1i32),
        s.announced_view()[-1i32].id == -1,
        s.announced_view()[-1i32].topic_type == Type::Int,
{
}

/// The frame sent on a new connection holds one message per published topic
/// followed by one per subscription: the `i`-th published topic's `publish`
/// at position `i`, the `j`-th subscription's `subscribe` after all of them.
pub proof fn lemma_rehydration_one_message_each(published: Seq<PublishedTopic>, subs: Seq<SubscriptionRecord>)
    ensures
        exists|msgs: Seq<Seq<char>>| {
            &&& rehydration_text(published, subs) == array_text(msgs)
            &&& msgs.len() == published.len() + subs.len()
            &&& forall|i: int| 0 <= i < published.len() ==> msgs[i] == publish_of(#[trigger] published[i])
            &&& forall|j: int| 0 <= j < subs.len() ==> msgs[published.len() + j] == subscribe_of(#[trigger] subs[j])
        },
{
    let msgs = published.map_values(|p: PublishedTopic| publish_of(p)) + subs.map_values(|s: SubscriptionRecord| subscribe_of(s));
    assert forall|j: int| 0 <= j < subs.len() implies msgs[published.len() + j] == subscribe_of(#[trigger] subs[j]) by {
        assert(msgs[published.len() + j] == subs.map_values(|s: SubscriptionRecord| subscribe_of(s))[j]);
    }
}

} // verus!
