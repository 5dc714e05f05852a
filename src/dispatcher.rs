use vstd::prelude::*;
use crate::error::ErrorKind;
use crate::registry::{contains_id, has_id, lemma_has_id_push, remove_all, without_id};
use crate::types::{copy_ids, Subscribers, Topics};

verus! {

/// Most messages drained from the FIFO in one tick.
pub const MAX_CHUNK_SIZE: usize = 250;

/// Seconds between two ticks of the consumer.
pub const MIN_INTERVAL_SECS: u64 = 10;

/// Freshness target of a cache entry, in nanoseconds.
pub const CACHE_TTL_NS: u64 = 60000000000;

/// A message submitted by a producer.
pub struct Message {
    pub topic: String,
    pub value: String,
}

/// Arguments a dispatcher may be installed with.
pub struct InitArgs {
    pub registry_canister: String,
}

/// The producer identities allowed to publish on a topic.
pub struct CanisterIds {
    pub ids: Vec<String>,
}

/// The cached subscriber ids of one topic, by topic name.
pub struct Idcache {
    pub ids: Vec<String>,
    pub topic: String,
    pub timestamp: u64,
}

/// A denormalised snapshot of one subscriber.
pub struct SubscriberCache {
    pub id: String,
    pub canister_id: String,
    pub callback: String,
    pub name: String,
    pub description: String,
    pub topic: String,
    pub topic_name: String,
    pub namespace: String,
    pub active: bool,
    pub timestamp: u64,
}

impl SubscriberCache {
    pub fn duplicate(&self) -> (r: SubscriberCache)
        ensures
            r.id@ == self.id@,
            r.canister_id@ == self.canister_id@,
            r.callback@ == self.callback@,
            r.name@ == self.name@,
            r.description@ == self.description@,
            r.topic@ == self.topic@,
            r.topic_name@ == self.topic_name@,
            r.namespace@ == self.namespace@,
            r.active == self.active,
            r.timestamp == self.timestamp,
    {
        SubscriberCache {
            id: self.id.clone(),
            canister_id: self.canister_id.clone(),
            callback: self.callback.clone(),
            name: self.name.clone(),
            description: self.description.clone(),
            topic: self.topic.clone(),
            topic_name: self.topic_name.clone(),
            namespace: self.namespace.clone(),
            active: self.active,
            timestamp: self.timestamp,
        }
    }
}

/// The address of a peer service.
pub struct CanisterSettings {
    pub canister_id: String,
}

/// One outbound callback invocation: `callback` on service `canister_id` with `value`.
pub struct Delivery {
    pub canister_id: String,
    pub callback: String,
    pub value: String,
}

/// Whether a message carries both a topic and a value.
pub open spec fn valid_message(m: Message) -> bool {
    m.topic@.len() > 0 && m.value@.len() > 0
}

/// The dispatcher's state: the FIFO, the publisher whitelist, the subscriber
/// cache and the peer address book.
pub struct Dispatcher {
    pub fifo: Vec<Message>,
    pub whitelist: Vec<(String, CanisterIds)>,
    pub topic_cache: Vec<Idcache>,
    pub data_cache: Vec<SubscriberCache>,
    pub settings: Vec<(String, CanisterSettings)>,
}

impl Dispatcher {
    /// Each keyed store holds at most one entry per key.
    pub open spec fn wf(&self) -> bool {
        &&& forall|i: int, j: int|
            0 <= i < self.whitelist@.len() && 0 <= j < self.whitelist@.len() && i != j
                ==> self.whitelist@[i].0@ != self.whitelist@[j].0@
        &&& forall|i: int, j: int|
            0 <= i < self.topic_cache@.len() && 0 <= j < self.topic_cache@.len() && i != j
                ==> self.topic_cache@[i].topic@ != self.topic_cache@[j].topic@
        &&& forall|i: int, j: int|
            0 <= i < self.data_cache@.len() && 0 <= j < self.data_cache@.len() && i != j
                ==> self.data_cache@[i].id@ != self.data_cache@[j].id@
        &&& forall|i: int, j: int|
            0 <= i < self.settings@.len() && 0 <= j < self.settings@.len() && i != j
                ==> self.settings@[i].0@ != self.settings@[j].0@
    }

    pub open spec fn has_whitelist(&self, topic: Seq<char>) -> bool {
        exists|i: int| 0 <= i < self.whitelist@.len() && self.whitelist@[i].0@ == topic
    }

    /// The identities whitelisted for `topic`; empty when it has no entry.
    pub open spec fn whitelist_of(&self, topic: Seq<char>) -> Seq<String> {
        if self.has_whitelist(topic) {
            let i = choose|i: int| 0 <= i < self.whitelist@.len() && self.whitelist@[i].0@ == topic;
            self.whitelist@[i].1.ids@
        } else {
            Seq::empty()
        }
    }

    pub open spec fn has_topic_cache(&self, name: Seq<char>) -> bool {
        exists|i: int| 0 <= i < self.topic_cache@.len() && self.topic_cache@[i].topic@ == name
    }

    /// The cached subscriber ids of topic `name`; empty when it has no entry.
    pub open spec fn cached_ids(&self, name: Seq<char>) -> Seq<String> {
        if self.has_topic_cache(name) {
            let i = choose|i: int| 0 <= i < self.topic_cache@.len() && self.topic_cache@[i].topic@ == name;
            self.topic_cache@[i].ids@
        } else {
            Seq::empty()
        }
    }

    /// The ingestion time of the cache entry of topic `name`.
    pub open spec fn cache_stamp(&self, name: Seq<char>) -> u64 {
        let i = choose|i: int| 0 <= i < self.topic_cache@.len() && self.topic_cache@[i].topic@ == name;
        self.topic_cache@[i].timestamp
    }

    pub open spec fn has_data(&self, id: Seq<char>) -> bool {
        exists|i: int| 0 <= i < self.data_cache@.len() && self.data_cache@[i].id@ == id
    }

    /// The cached snapshot of subscriber `id`, when there is one.
    pub open spec fn data_of(&self, id: Seq<char>) -> SubscriberCache {
        let i = choose|i: int| 0 <= i < self.data_cache@.len() && self.data_cache@[i].id@ == id;
        self.data_cache@[i]
    }

    /// Whether `id` is listed under some topic of the cache.
    pub open spec fn caches_id(&self, id: Seq<char>) -> bool {
        exists|c: int| 0 <= c < self.topic_cache@.len() && #[trigger] has_id(self.topic_cache@[c].ids@, id)
    }

    pub open spec fn has_setting(&self, name: Seq<char>) -> bool {
        exists|i: int| 0 <= i < self.settings@.len() && self.settings@[i].0@ == name
    }

    pub fn new() -> (r: Dispatcher)
        ensures
            r.wf(),
            r.fifo@.len() == 0,
            r.whitelist@.len() == 0,
            r.topic_cache@.len() == 0,
            r.data_cache@.len() == 0,
            r.settings@.len() == 0,
    {
        Dispatcher {
            fifo: Vec::new(),
            whitelist: Vec::new(),
            topic_cache: Vec::new(),
            data_cache: Vec::new(),
            settings: Vec::new(),
        }
    }

    proof fn lemma_whitelist_at(&self, i: int)
        requires
            self.wf(),
            0 <= i < self.whitelist@.len(),
        ensures
            self.has_whitelist(self.whitelist@[i].0@),
            self.whitelist_of(self.whitelist@[i].0@) == self.whitelist@[i].1.ids@,
    {
        let t = self.whitelist@[i].0@;
        assert(0 <= i < self.whitelist@.len() && self.whitelist@[i].0@ == t);
        let k = choose|k: int| 0 <= k < self.whitelist@.len() && self.whitelist@[k].0@ == t;
        assert(k == i);
    }

    proof fn lemma_topic_cache_at(&self, i: int)
        requires
            self.wf(),
            0 <= i < self.topic_cache@.len(),
        ensures
            self.has_topic_cache(self.topic_cache@[i].topic@),
            self.cached_ids(self.topic_cache@[i].topic@) == self.topic_cache@[i].ids@,
            self.cache_stamp(self.topic_cache@[i].topic@) == self.topic_cache@[i].timestamp,
    {
        let t = self.topic_cache@[i].topic@;
        assert(0 <= i < self.topic_cache@.len() && self.topic_cache@[i].topic@ == t);
        let k = choose|k: int| 0 <= k < self.topic_cache@.len() && self.topic_cache@[k].topic@ == t;
        assert(k == i);
    }

    proof fn lemma_data_at(&self, i: int)
        requires
            self.wf(),
            0 <= i < self.data_cache@.len(),
        ensures
            self.has_data(self.data_cache@[i].id@),
            self.data_of(self.data_cache@[i].id@) == self.data_cache@[i],
    {
        let t = self.data_cache@[i].id@;
        assert(0 <= i < self.data_cache@.len() && self.data_cache@[i].id@ == t);
        let k = choose|k: int| 0 <= k < self.data_cache@.len() && self.data_cache@[k].id@ == t;
        assert(k == i);
    }

    fn whitelist_index(&self, topic: &String) -> (r: Option<usize>)
        ensures
            match r {
                Some(i) => i < self.whitelist@.len() && self.whitelist@[i as int].0@ == topic@,
                None => !self.has_whitelist(topic@),
            },
    {
        let mut i: usize = 0;
        while i < self.whitelist.len()
            invariant
                i <= self.whitelist@.len(),
                forall|k: int| 0 <= k < i ==> self.whitelist@[k].0@ != topic@,
            decreases self.whitelist.len() - i,
        {
            if self.whitelist[i].0 == *topic {
                return Some(i);
            }
            i = i + 1;
        }
        None
    }

    fn topic_cache_index(&self, name: &String) -> (r: Option<usize>)
        ensures
            match r {
                Some(i) => i < self.topic_cache@.len() && self.topic_cache@[i as int].topic@ == name@,
                None => !self.has_topic_cache(name@),
            },
    {
        let mut i: usize = 0;
        while i < self.topic_cache.len()
            invariant
                i <= self.topic_cache@.len(),
                forall|k: int| 0 <= k < i ==> self.topic_cache@[k].topic@ != name@,
            decreases self.topic_cache.len() - i,
        {
            if self.topic_cache[i].topic == *name {
                return Some(i);
            }
            i = i + 1;
        }
        None
    }

    fn data_index(&self, id: &String) -> (r: Option<usize>)
        ensures
            match r {
                Some(i) => i < self.data_cache@.len() && self.data_cache@[i as int].id@ == id@,
                None => !self.has_data(id@),
            },
    {
        let mut i: usize = 0;
        while i < self.data_cache.len()
            invariant
                i <= self.data_cache@.len(),
                forall|k: int| 0 <= k < i ==> self.data_cache@[k].id@ != id@,
            decreases self.data_cache.len() - i,
        {
            if self.data_cache[i].id == *id {
                return Some(i);
            }
            i = i + 1;
        }
        None
    }

    fn setting_index(&self, name: &String) -> (r: Option<usize>)
        ensures
            match r {
                Some(i) => i < self.settings@.len() && self.settings@[i as int].0@ == name@,
                None => !self.has_setting(name@),
            },
    {
        let mut i: usize = 0;
        while i < self.settings.len()
            invariant
                i <= self.settings@.len(),
                forall|k: int| 0 <= k < i ==> self.settings@[k].0@ != name@,
            decreases self.settings.len() - i,
        {
            if self.settings[i].0 == *name {
                return Some(i);
            }
            i = i + 1;
        }
        None
    }

    /// Pushes a valid message to the tail of the FIFO.
    pub fn fifo_producer(&mut self, msg: Message) -> (r: Result<String, ErrorKind>)
        requires
            old(self).wf(),
        ensures
            final(self).wf(),
            r is Ok <==> valid_message(msg),
            r is Ok ==> final(self).fifo@ == old(self).fifo@.push(msg),
            r is Err ==> r == Err::<String, ErrorKind>(ErrorKind::InvalidArgument)
                && final(self).fifo@ == old(self).fifo@,
            final(self).whitelist@ == old(self).whitelist@,
            final(self).topic_cache@ == old(self).topic_cache@,
            final(self).data_cache@ == old(self).data_cache@,
            final(self).settings@ == old(self).settings@,
    {
        if msg.topic.as_str().unicode_len() == 0 || msg.value.as_str().unicode_len() == 0 {
            return Err(ErrorKind::InvalidArgument);
        }
        self.fifo.push(msg);
        Ok(String::from_str("Success: the message was inserted in the queue"))
    }

    /// Drains up to `MAX_CHUNK_SIZE` messages from the head of the FIFO, in order.
    pub fn fifo_consumer(&mut self) -> (batch: Vec<Message>)
        requires
            old(self).wf(),
        ensures
            final(self).wf(),
            ({
                let n = if old(self).fifo@.len() < MAX_CHUNK_SIZE { old(self).fifo@.len() as int } else {
                    MAX_CHUNK_SIZE as int
                };
                &&& batch@ == old(self).fifo@.take(n)
                &&& final(self).fifo@ == old(self).fifo@.skip(n)
            }),
            final(self).whitelist@ == old(self).whitelist@,
            final(self).topic_cache@ == old(self).topic_cache@,
            final(self).data_cache@ == old(self).data_cache@,
            final(self).settings@ == old(self).settings@,
    {
        let n: usize = if self.fifo.len() < MAX_CHUNK_SIZE { self.fifo.len() } else { MAX_CHUNK_SIZE };
        let mut batch = self.fifo.split_off(n);
        std::mem::swap(&mut batch, &mut self.fifo);
        assert(batch@ =~= old(self).fifo@.take(n as int));
        assert(self.fifo@ =~= old(self).fifo@.skip(n as int));
        batch
    }

    /// The number of messages waiting in the FIFO.
    pub fn fifo_buffer_size(&self) -> (r: usize)
        ensures
            r == self.fifo@.len(),
    {
        self.fifo.len()
    }

    /// Drops every message waiting in the FIFO.
    pub fn fifo_buffer_empty(&mut self)
        requires
            old(self).wf(),
        ensures
            final(self).wf(),
            final(self).fifo@.len() == 0,
            final(self).whitelist@ == old(self).whitelist@,
            final(self).topic_cache@ == old(self).topic_cache@,
            final(self).data_cache@ == old(self).data_cache@,
            final(self).settings@ == old(self).settings@,
    {
        self.fifo.clear();
    }

    /// Allows `canister_id` to publish on `topic`; an id already listed is not repeated.
    pub fn whitelist_register(&mut self, topic: String, canister_id: String)
        requires
            old(self).wf(),
        ensures
            final(self).wf(),
            final(self).whitelist_of(topic@) == if has_id(old(self).whitelist_of(topic@), canister_id@) {
                old(self).whitelist_of(topic@)
            } else {
                old(self).whitelist_of(topic@).push(canister_id)
            },
            forall|t: Seq<char>| t != topic@ ==> final(self).whitelist_of(t) == old(self).whitelist_of(t),
            final(self).fifo@ == old(self).fifo@,
            final(self).topic_cache@ == old(self).topic_cache@,
            final(self).data_cache@ == old(self).data_cache@,
            final(self).settings@ == old(self).settings@,
    {
        match self.whitelist_index(&topic) {
            Some(i) => {
                proof {
                    self.lemma_whitelist_at(i as int);
                }
                if !contains_id(&self.whitelist[i].1.ids, &canister_id) {
                    let mut ids = copy_ids(&self.whitelist[i].1.ids);
                    ids.push(canister_id);
                    self.whitelist.set(i, (topic, CanisterIds { ids }));
                    proof {
                        self.lemma_whitelist_at(i as int);
                        assert forall|t: Seq<char>| t != topic@ implies self.whitelist_of(t)
                            == old(self).whitelist_of(t) by {
                            if old(self).has_whitelist(t) {
                                let k = choose|k: int|
                                    0 <= k < old(self).whitelist@.len() && old(self).whitelist@[k].0@ == t;
                                old(self).lemma_whitelist_at(k);
                                self.lemma_whitelist_at(k);
                            }
                            if self.has_whitelist(t) {
                                let k = choose|k: int| 0 <= k < self.whitelist@.len() && self.whitelist@[k].0@ == t;
                                self.lemma_whitelist_at(k);
                                old(self).lemma_whitelist_at(k);
                            }
                        }
                    }
                }
            },
            None => {
                let mut ids: Vec<String> = Vec::new();
                ids.push(canister_id);
                self.whitelist.push((topic, CanisterIds { ids }));
                proof {
                    let last = self.whitelist@.len() - 1;
                    assert(self.wf());
                    self.lemma_whitelist_at(last);
                    assert(old(self).whitelist_of(topic@) == Seq::<String>::empty());
                    assert(self.whitelist@[last].1.ids@ =~= Seq::<String>::empty().push(canister_id));
                    assert forall|t: Seq<char>| t != topic@ implies self.whitelist_of(t)
                        == old(self).whitelist_of(t) by {
                        if old(self).has_whitelist(t) {
                            let k = choose|k: int|
                                0 <= k < old(self).whitelist@.len() && old(self).whitelist@[k].0@ == t;
                            old(self).lemma_whitelist_at(k);
                            self.lemma_whitelist_at(k);
                        }
                        if self.has_whitelist(t) {
                            let k = choose|k: int| 0 <= k < self.whitelist@.len() && self.whitelist@[k].0@ == t;
                            self.lemma_whitelist_at(k);
                            if k < old(self).whitelist@.len() {
                                old(self).lemma_whitelist_at(k);
                            }
                        }
                    }
                }
            },
        }
    }

    /// Removes every occurrence of `canister_id` from the whitelist of `topic`.
    pub fn whitelist_unregister(&mut self, topic: &String, canister_id: &String) -> (r: Result<String, ErrorKind>)
        requires
            old(self).wf(),
        ensures
            final(self).wf(),
            r is Ok <==> old(self).has_whitelist(topic@),
            r is Err ==> r == Err::<String, ErrorKind>(ErrorKind::NotFound),
            final(self).whitelist_of(topic@) == without_id(old(self).whitelist_of(topic@), canister_id@),
            forall|t: Seq<char>| t != topic@ ==> final(self).whitelist_of(t) == old(self).whitelist_of(t),
            final(self).fifo@ == old(self).fifo@,
            final(self).topic_cache@ == old(self).topic_cache@,
            final(self).data_cache@ == old(self).data_cache@,
            final(self).settings@ == old(self).settings@,
    {
        match self.whitelist_index(topic) {
            None => {
                proof {
                    reveal(Seq::filter);
                }
                Err(ErrorKind::NotFound)
            },
            Some(i) => {
                proof {
                    self.lemma_whitelist_at(i as int);
                }
                let ids = remove_all(&self.whitelist[i].1.ids, canister_id);
                self.whitelist.set(i, (topic.clone(), CanisterIds { ids }));
                proof {
                    self.lemma_whitelist_at(i as int);
                    assert forall|t: Seq<char>| t != topic@ implies self.whitelist_of(t)
                        == old(self).whitelist_of(t) by {
                        if old(self).has_whitelist(t) {
                            let k = choose|k: int|
                                0 <= k < old(self).whitelist@.len() && old(self).whitelist@[k].0@ == t;
                            old(self).lemma_whitelist_at(k);
                            self.lemma_whitelist_at(k);
                        }
                        if self.has_whitelist(t) {
                            let k = choose|k: int| 0 <= k < self.whitelist@.len() && self.whitelist@[k].0@ == t;
                            self.lemma_whitelist_at(k);
                            old(self).lemma_whitelist_at(k);
                        }
                    }
                }
                Ok(String::from_str("The canister id was removed from the topic whitelist"))
            },
        }
    }

    /// The identities whitelisted for `topic`.
    pub fn whitelist_lookup(&self, topic: &String) -> (r: Vec<String>)
        requires
            self.wf(),
        ensures
            r@ == self.whitelist_of(topic@),
    {
        match self.whitelist_index(topic) {
            None => Vec::new(),
            Some(i) => {
                proof {
                    self.lemma_whitelist_at(i as int);
                }
                copy_ids(&self.whitelist[i].1.ids)
            },
        }
    }

    /// Succeeds when `canister_id` may publish on `topic`.
    pub fn whitelist_canister_check(&self, topic: &String, canister_id: &String) -> (r: Result<String, ErrorKind>)
        requires
            self.wf(),
        ensures
            r is Ok <==> has_id(self.whitelist_of(topic@), canister_id@),
            r is Err ==> r == Err::<String, ErrorKind>(ErrorKind::NotWhitelisted),
    {
        match self.whitelist_index(topic) {
            None => Err(ErrorKind::NotWhitelisted),
            Some(i) => {
                proof {
                    self.lemma_whitelist_at(i as int);
                }
                if contains_id(&self.whitelist[i].1.ids, canister_id) {
                    Ok(String::from_str("The canister id is whitelisted for this topic"))
                } else {
                    Err(ErrorKind::NotWhitelisted)
                }
            },
        }
    }

    /// Admits a message from `caller`: it must carry a topic and a value, and
    /// `caller` must be whitelisted for its topic; it is then enqueued once.
    pub fn intake(&mut self, msg: Message, caller: &String) -> (r: Result<String, ErrorKind>)
        requires
            old(self).wf(),
        ensures
            final(self).wf(),
            !valid_message(msg) ==> r == Err::<String, ErrorKind>(ErrorKind::InvalidArgument),
            valid_message(msg) && !has_id(old(self).whitelist_of(msg.topic@), caller@)
                ==> r == Err::<String, ErrorKind>(ErrorKind::NotWhitelisted),
            r is Ok <==> valid_message(msg) && has_id(old(self).whitelist_of(msg.topic@), caller@),
            r is Ok ==> final(self).fifo@ == old(self).fifo@.push(msg),
            r is Err ==> final(self).fifo@ == old(self).fifo@,
            final(self).whitelist@ == old(self).whitelist@,
            final(self).topic_cache@ == old(self).topic_cache@,
            final(self).data_cache@ == old(self).data_cache@,
            final(self).settings@ == old(self).settings@,
    {
        if msg.topic.as_str().unicode_len() == 0 || msg.value.as_str().unicode_len() == 0 {
            return Err(ErrorKind::InvalidArgument);
        }
        if self.whitelist_canister_check(&msg.topic, caller).is_err() {
            return Err(ErrorKind::NotWhitelisted);
        }
        match self.fifo_producer(msg) {
            Ok(_) => Ok(String::from_str("Success: the message has been pushed to the queue")),
            Err(e) => Err(e),
        }
    }

    /// Records the address `canister_id` of peer `canister_name`, replacing an earlier one.
    pub fn canister_settings_store(&mut self, canister_name: String, canister_id: String)
        requires
            old(self).wf(),
        ensures
            final(self).wf(),
            final(self).has_setting(canister_name@),
            forall|i: int| 0 <= i < final(self).settings@.len() && final(self).settings@[i].0@ == canister_name@
                ==> final(self).settings@[i].1.canister_id@ == canister_id@,
            forall|i: int| 0 <= i < old(self).settings@.len() && old(self).settings@[i].0@ != canister_name@
                ==> final(self).settings@.contains(old(self).settings@[i]),
            forall|i: int| 0 <= i < final(self).settings@.len() && final(self).settings@[i].0@ != canister_name@
                ==> old(self).settings@.contains(final(self).settings@[i]),
            final(self).fifo@ == old(self).fifo@,
            final(self).whitelist@ == old(self).whitelist@,
            final(self).topic_cache@ == old(self).topic_cache@,
            final(self).data_cache@ == old(self).data_cache@,
    {
        let ghost name = canister_name@;
        match self.setting_index(&canister_name) {
            Some(i) => {
                self.settings.set(i, (canister_name, CanisterSettings { canister_id }));
                proof {
                    assert(self.settings@[i as int].0@ == name);
                    assert forall|j: int| 0 <= j < old(self).settings@.len() && old(self).settings@[j].0@
                        != canister_name@ implies self.settings@.contains(old(self).settings@[j]) by {
                        assert(self.settings@[j] == old(self).settings@[j]);
                    }
                    assert forall|j: int| 0 <= j < self.settings@.len() && self.settings@[j].0@
                        != canister_name@ implies old(self).settings@.contains(self.settings@[j]) by {
                        assert(self.settings@[j] == old(self).settings@[j]);
                    }
                }
            },
            None => {
                self.settings.push((canister_name, CanisterSettings { canister_id }));
                proof {
                    let last = self.settings@.len() - 1;
                    assert(self.settings@[last].0@ == canister_name@);
                    assert forall|j: int| 0 <= j < old(self).settings@.len() && old(self).settings@[j].0@
                        != canister_name@ implies self.settings@.contains(old(self).settings@[j]) by {
                        assert(self.settings@[j] == old(self).settings@[j]);
                    }
                    assert forall|j: int| 0 <= j < self.settings@.len() && self.settings@[j].0@
                        != canister_name@ implies old(self).settings@.contains(self.settings@[j]) by {
                        assert(self.settings@[j] == old(self).settings@[j]);
                    }
                }
            },
        }
    }

    /// The recorded address of peer `canister_name`.
    pub fn canister_settings_get(&self, canister_name: &String) -> (r: Option<CanisterSettings>)
        ensures
            r is Some <==> self.has_setting(canister_name@),
            r matches Some(c) ==> exists|i: int|
                0 <= i < self.settings@.len() && self.settings@[i].0@ == canister_name@
                    && c.canister_id@ == self.settings@[i].1.canister_id@,
    {
        match self.setting_index(canister_name) {
            None => None,
            Some(i) => Some(CanisterSettings { canister_id: self.settings[i].1.canister_id.clone() }),
        }
    }

    /// The cached subscriber ids of topic `name`.
    pub fn cache_subscribers(&self, name: &String) -> (r: Vec<String>)
        requires
            self.wf(),
        ensures
            r@ == self.cached_ids(name@),
    {
        match self.topic_cache_index(name) {
            None => Vec::new(),
            Some(i) => {
                proof {
                    self.lemma_topic_cache_at(i as int);
                }
                copy_ids(&self.topic_cache[i].ids)
            },
        }
    }

    /// Whether topic `name` must be refreshed before its cache entry is used at
    /// time `now`: it has no entry, or the entry is `CACHE_TTL_NS` old or older.
    pub fn cache_needs_refresh(&self, name: &String, now: u64) -> (r: bool)
        requires
            self.wf(),
        ensures
            r == (!self.has_topic_cache(name@) || now as int - self.cache_stamp(name@) as int
                >= CACHE_TTL_NS as int),
    {
        match self.topic_cache_index(name) {
            None => true,
            Some(i) => {
                proof {
                    self.lemma_topic_cache_at(i as int);
                }
                let stamp = self.topic_cache[i].timestamp;
                now >= stamp && now - stamp >= CACHE_TTL_NS
            },
        }
    }

    /// The cached snapshot of subscriber `id`.
    pub fn cache_subscriber_data(&self, id: &String) -> (r: Option<SubscriberCache>)
        requires
            self.wf(),
        ensures
            r is Some <==> self.has_data(id@),
            r matches Some(c) ==> {
                let d = self.data_of(id@);
                &&& c.id@ == d.id@
                &&& c.canister_id@ == d.canister_id@
                &&& c.callback@ == d.callback@
                &&& c.name@ == d.name@
                &&& c.description@ == d.description@
                &&& c.topic@ == d.topic@
                &&& c.topic_name@ == d.topic_name@
                &&& c.namespace@ == d.namespace@
                &&& c.active == d.active
                &&& c.timestamp == d.timestamp
            },
    {
        match self.data_index(id) {
            None => None,
            Some(i) => {
                proof {
                    self.lemma_data_at(i as int);
                }
                Some(self.data_cache[i].duplicate())
            },
        }
    }

    /// Empties both subscriber caches.
    pub fn cache_subscribers_clear(&mut self)
        requires
            old(self).wf(),
        ensures
            final(self).wf(),
            final(self).topic_cache@.len() == 0,
            final(self).data_cache@.len() == 0,
            final(self).fifo@ == old(self).fifo@,
            final(self).whitelist@ == old(self).whitelist@,
            final(self).settings@ == old(self).settings@,
    {
        self.topic_cache.clear();
        self.data_cache.clear();
    }

    /// Stores `snap` as the snapshot of its subscriber, replacing an earlier one.
    fn upsert_data(&mut self, snap: SubscriberCache)
        requires
            old(self).wf(),
        ensures
            final(self).wf(),
            final(self).has_data(snap.id@),
            final(self).data_of(snap.id@) == snap,
            forall|x: Seq<char>| final(self).has_data(x) <==> old(self).has_data(x) || x == snap.id@,
            final(self).fifo@ == old(self).fifo@,
            final(self).whitelist@ == old(self).whitelist@,
            final(self).topic_cache@ == old(self).topic_cache@,
            final(self).settings@ == old(self).settings@,
    {
        let ghost id = snap.id@;
        match self.data_index(&snap.id) {
            Some(i) => {
                self.data_cache.set(i, snap);
                proof {
                    self.lemma_data_at(i as int);
                    assert forall|x: Seq<char>| self.has_data(x) <==> old(self).has_data(x) || x == id by {
                        if old(self).has_data(x) {
                            let k = choose|k: int| 0 <= k < old(self).data_cache@.len() && old(self).data_cache@[k].id@ == x;
                            if k != i {
                                assert(self.data_cache@[k] == old(self).data_cache@[k]);
                            }
                        }
                        if self.has_data(x) {
                            let k = choose|k: int| 0 <= k < self.data_cache@.len() && self.data_cache@[k].id@ == x;
                            if k != i {
                                assert(self.data_cache@[k] == old(self).data_cache@[k]);
                            }
                        }
                    }
                }
            },
            None => {
                self.data_cache.push(snap);
                proof {
                    let last = self.data_cache@.len() - 1;
                    self.lemma_data_at(last);
                    assert forall|x: Seq<char>| self.has_data(x) <==> old(self).has_data(x) || x == id by {
                        if old(self).has_data(x) {
                            let k = choose|k: int| 0 <= k < old(self).data_cache@.len() && old(self).data_cache@[k].id@ == x;
                            assert(self.data_cache@[k] == old(self).data_cache@[k]);
                        }
                        if self.has_data(x) {
                            let k = choose|k: int| 0 <= k < self.data_cache@.len() && self.data_cache@[k].id@ == x;
                            if k != last {
                                assert(self.data_cache@[k] == old(self).data_cache@[k]);
                            }
                        }
                    }
                }
            },
        }
    }

    /// Lists subscriber `sub` under topic name `topic_name`; its snapshot is stored
    /// when its id was not listed there yet. The entry's timestamp becomes `now`.
    fn cache_one(&mut self, sub: &Subscribers, topic_name: &String, now: u64)
        requires
            old(self).wf(),
        ensures
            final(self).wf(),
            final(self).caches_id(sub.id@),
            has_id(final(self).cached_ids(topic_name@), sub.id@),
            forall|n: Seq<char>, x: Seq<char>| has_id(old(self).cached_ids(n), x) ==> #[trigger] has_id(
                final(self).cached_ids(n),
                x,
            ),
            forall|x: Seq<char>| final(self).caches_id(x) <==> old(self).caches_id(x) || x == sub.id@,
            forall|x: Seq<char>| final(self).has_data(x) ==> old(self).has_data(x) || x == sub.id@,
            forall|x: Seq<char>| old(self).has_data(x) ==> final(self).has_data(x),
            final(self).fifo@ == old(self).fifo@,
            final(self).whitelist@ == old(self).whitelist@,
            final(self).settings@ == old(self).settings@,
    {
        let snap = SubscriberCache {
            id: sub.id.clone(),
            canister_id: sub.canister_id.clone(),
            callback: sub.callback.clone(),
            name: sub.name.clone(),
            description: sub.description.clone(),
            topic: sub.topic.clone(),
            topic_name: topic_name.clone(),
            namespace: sub.namespace.clone(),
            active: sub.active,
            timestamp: now,
        };
        let ghost id = sub.id@;
        match self.topic_cache_index(topic_name) {
            Some(c) => {
                let listed = contains_id(&self.topic_cache[c].ids, &sub.id);
                let mut ids = copy_ids(&self.topic_cache[c].ids);
                if !listed {
                    ids.push(sub.id.clone());
                }
                let ghost new_ids = ids@;
                self.topic_cache.set(c, Idcache { ids, topic: topic_name.clone(), timestamp: now });
                let ghost mid = *self;
                if !listed {
                    self.upsert_data(snap);
                }
                proof {
                    assert(self.topic_cache@ == mid.topic_cache@);
                    assert(mid.data_cache@ == old(self).data_cache@);
                    assert forall|x: Seq<char>| old(self).has_data(x) implies mid.has_data(x) by {
                        let k = choose|k: int| 0 <= k < old(self).data_cache@.len() && old(self).data_cache@[k].id@ == x;
                        assert(mid.data_cache@[k] == old(self).data_cache@[k]);
                    }
                    if listed {
                        assert(self.data_cache@ == old(self).data_cache@);
                        assert forall|x: Seq<char>| old(self).has_data(x) implies self.has_data(x) by {
                            let k = choose|k: int| 0 <= k < old(self).data_cache@.len() && old(self).data_cache@[k].id@ == x;
                            assert(self.data_cache@[k] == old(self).data_cache@[k]);
                        }
                    }
                    assert forall|x: Seq<char>| has_id(new_ids, x) <==> has_id(old(self).topic_cache@[c as int].ids@, x) || (!listed && x == id) by {
                        if !listed {
                            lemma_has_id_push(old(self).topic_cache@[c as int].ids@, sub.id, x);
                        }
                    }
                    assert(has_id(new_ids, id)) by {
                        if !listed {
                            lemma_has_id_push(old(self).topic_cache@[c as int].ids@, sub.id, id);
                        }
                    }
                    assert(has_id(self.topic_cache@[c as int].ids@, id));
                    self.lemma_topic_cache_at(c as int);
                    old(self).lemma_topic_cache_at(c as int);
                    assert forall|n: Seq<char>, x: Seq<char>| has_id(old(self).cached_ids(n), x) implies #[trigger] has_id(
                        self.cached_ids(n),
                        x,
                    ) by {
                        if n != topic_name@ && old(self).has_topic_cache(n) {
                            let k = choose|k: int| 0 <= k < old(self).topic_cache@.len() && old(self).topic_cache@[k].topic@ == n;
                            old(self).lemma_topic_cache_at(k);
                            assert(self.topic_cache@[k] == old(self).topic_cache@[k]);
                            self.lemma_topic_cache_at(k);
                        }
                    }
                    assert forall|x: Seq<char>| self.caches_id(x) <==> old(self).caches_id(x) || x == id by {
                        if old(self).caches_id(x) {
                            let k = choose|k: int| 0 <= k < old(self).topic_cache@.len() && #[trigger] has_id(old(self).topic_cache@[k].ids@, x);
                            if k != c {
                                assert(self.topic_cache@[k] == old(self).topic_cache@[k]);
                            }
                            assert(has_id(self.topic_cache@[k].ids@, x));
                        }
                        if self.caches_id(x) {
                            let k = choose|k: int| 0 <= k < self.topic_cache@.len() && #[trigger] has_id(self.topic_cache@[k].ids@, x);
                            if k != c {
                                assert(self.topic_cache@[k] == old(self).topic_cache@[k]);
                            }
                        }
                    }
                }
            },
            None => {
                let mut ids: Vec<String> = Vec::new();
                ids.push(sub.id.clone());
                self.topic_cache.push(Idcache { ids, topic: topic_name.clone(), timestamp: now });
                let ghost mid = *self;
                self.upsert_data(snap);
                proof {
                    let last = self.topic_cache@.len() - 1;
                    assert(self.topic_cache@ == mid.topic_cache@);
                    assert(mid.data_cache@ == old(self).data_cache@);
                    assert forall|x: Seq<char>| old(self).has_data(x) implies mid.has_data(x) by {
                        let k = choose|k: int| 0 <= k < old(self).data_cache@.len() && old(self).data_cache@[k].id@ == x;
                        assert(mid.data_cache@[k] == old(self).data_cache@[k]);
                    }
                    assert(self.topic_cache@[last].ids@[0]@ == id);
                    assert(has_id(self.topic_cache@[last].ids@, id));
                    self.lemma_topic_cache_at(last);
                    assert forall|n: Seq<char>, x: Seq<char>| has_id(old(self).cached_ids(n), x) implies #[trigger] has_id(
                        self.cached_ids(n),
                        x,
                    ) by {
                        if old(self).has_topic_cache(n) {
                            let k = choose|k: int| 0 <= k < old(self).topic_cache@.len() && old(self).topic_cache@[k].topic@ == n;
                            old(self).lemma_topic_cache_at(k);
                            assert(self.topic_cache@[k] == old(self).topic_cache@[k]);
                            self.lemma_topic_cache_at(k);
                        }
                    }
                    assert forall|x: Seq<char>| self.caches_id(x) <==> old(self).caches_id(x) || x == id by {
                        if old(self).caches_id(x) {
                            let k = choose|k: int| 0 <= k < old(self).topic_cache@.len() && #[trigger] has_id(old(self).topic_cache@[k].ids@, x);
                            assert(self.topic_cache@[k] == old(self).topic_cache@[k]);
                            assert(has_id(self.topic_cache@[k].ids@, x));
                        }
                        if self.caches_id(x) {
                            let k = choose|k: int| 0 <= k < self.topic_cache@.len() && #[trigger] has_id(self.topic_cache@[k].ids@, x);
                            if k != last {
                                assert(self.topic_cache@[k] == old(self).topic_cache@[k]);
                            } else {
                                let j = choose|j: int| 0 <= j < self.topic_cache@[k].ids@.len() && self.topic_cache@[k].ids@[j]@ == x;
                                assert(j == 0);
                            }
                        }
                    }
                }
            },
        }
    }

    /// Merges a registry snapshot (`topics()` and `subscribers()`) into the cache:
    /// each subscriber whose topic is among `topics` is listed under that topic's
    /// name. Nothing already cached is removed.
    pub fn cache_subscribers_fetch(&mut self, topics: &Vec<Topics>, subscribers: &Vec<Subscribers>, now: u64)
        requires
            old(self).wf(),
        ensures
            final(self).wf(),
            forall|x: Seq<char>| #[trigger] final(self).caches_id(x) ==> old(self).caches_id(x) || exists|s: int|
                0 <= s < subscribers@.len() && subscribers@[s].id@ == x,
            forall|x: Seq<char>| #[trigger] final(self).has_data(x) ==> old(self).has_data(x) || exists|s: int|
                0 <= s < subscribers@.len() && subscribers@[s].id@ == x,
            forall|x: Seq<char>| old(self).caches_id(x) ==> #[trigger] final(self).caches_id(x),
            forall|x: Seq<char>| old(self).has_data(x) ==> #[trigger] final(self).has_data(x),
            forall|s: int, t: int|
                0 <= s < subscribers@.len() && 0 <= t < topics@.len() && #[trigger] topics@[t].id@
                    == #[trigger] subscribers@[s].topic@ ==> final(self).caches_id(subscribers@[s].id@),
            forall|s: int, t: int|
                0 <= s < subscribers@.len() && 0 <= t < topics@.len() && #[trigger] topics@[t].id@
                    == #[trigger] subscribers@[s].topic@ && (forall|u: int| 0 <= u < t ==> topics@[u].id@
                    != subscribers@[s].topic@) ==> has_id(
                    final(self).cached_ids(topics@[t].name@),
                    subscribers@[s].id@,
                ),
            forall|n: Seq<char>, x: Seq<char>| has_id(old(self).cached_ids(n), x) ==> #[trigger] has_id(
                final(self).cached_ids(n),
                x,
            ),
            final(self).fifo@ == old(self).fifo@,
            final(self).whitelist@ == old(self).whitelist@,
            final(self).settings@ == old(self).settings@,
    {
        let mut i: usize = 0;
        while i < subscribers.len()
            invariant
                self.wf(),
                i <= subscribers@.len(),
                forall|x: Seq<char>| #[trigger] self.caches_id(x) ==> old(self).caches_id(x) || exists|s: int|
                    0 <= s < i && subscribers@[s].id@ == x,
                forall|x: Seq<char>| #[trigger] self.has_data(x) ==> old(self).has_data(x) || exists|s: int|
                    0 <= s < i && subscribers@[s].id@ == x,
                forall|x: Seq<char>| old(self).caches_id(x) ==> #[trigger] self.caches_id(x),
                forall|x: Seq<char>| old(self).has_data(x) ==> #[trigger] self.has_data(x),
                forall|s: int, t: int|
                    0 <= s < i && 0 <= t < topics@.len() && #[trigger] topics@[t].id@
                        == #[trigger] subscribers@[s].topic@ ==> self.caches_id(subscribers@[s].id@),
                forall|s: int, t: int|
                    0 <= s < i && 0 <= t < topics@.len() && #[trigger] topics@[t].id@
                        == #[trigger] subscribers@[s].topic@ && (forall|u: int| 0 <= u < t ==> topics@[u].id@
                        != subscribers@[s].topic@) ==> has_id(self.cached_ids(topics@[t].name@), subscribers@[s].id@),
                forall|n: Seq<char>, x: Seq<char>| has_id(old(self).cached_ids(n), x) ==> #[trigger] has_id(
                    self.cached_ids(n),
                    x,
                ),
                self.fifo@ == old(self).fifo@,
                self.whitelist@ == old(self).whitelist@,
                self.settings@ == old(self).settings@,
            decreases subscribers.len() - i,
        {
            let sub = &subscribers[i];
            let mut t: usize = 0;
            while t < topics.len() && topics[t].id != sub.topic
                invariant
                    t <= topics@.len(),
                    forall|k: int| 0 <= k < t ==> topics@[k].id@ != sub.topic@,
                decreases topics.len() - t,
            {
                t = t + 1;
            }
            let ghost before = *self;
            if t < topics.len() {
                self.cache_one(sub, &topics[t].name, now);
            }
            proof {
                assert forall|x: Seq<char>| #[trigger] self.caches_id(x) implies old(self).caches_id(x) || exists|s: int|
                    0 <= s < i + 1 && subscribers@[s].id@ == x by {
                    if before.caches_id(x) {
                        if !old(self).caches_id(x) {
                            let s = choose|s: int| 0 <= s < i && subscribers@[s].id@ == x;
                            assert(0 <= s < i + 1 && subscribers@[s].id@ == x);
                        }
                    } else {
                        assert(subscribers@[i as int].id@ == x);
                    }
                }
                assert forall|x: Seq<char>| #[trigger] self.has_data(x) implies old(self).has_data(x) || exists|s: int|
                    0 <= s < i + 1 && subscribers@[s].id@ == x by {
                    if before.has_data(x) {
                        if !old(self).has_data(x) {
                            let s = choose|s: int| 0 <= s < i && subscribers@[s].id@ == x;
                            assert(0 <= s < i + 1 && subscribers@[s].id@ == x);
                        }
                    } else {
                        assert(subscribers@[i as int].id@ == x);
                    }
                }
                assert forall|s: int, u: int|
                    0 <= s < i + 1 && 0 <= u < topics@.len() && #[trigger] topics@[u].id@
                        == #[trigger] subscribers@[s].topic@ implies self.caches_id(subscribers@[s].id@) by {
                    if s < i {
                        assert(before.caches_id(subscribers@[s].id@));
                    } else {
                        assert(t < topics@.len());
                    }
                }
                assert forall|s: int, u: int|
                    0 <= s < i + 1 && 0 <= u < topics@.len() && #[trigger] topics@[u].id@
                        == #[trigger] subscribers@[s].topic@ && (forall|w: int| 0 <= w < u ==> topics@[w].id@
                        != subscribers@[s].topic@) implies has_id(self.cached_ids(topics@[u].name@), subscribers@[s].id@) by {
                    if s < i {
                        assert(has_id(before.cached_ids(topics@[u].name@), subscribers@[s].id@));
                    } else {
                        if u < t {
                            assert(topics@[u].id@ != subscribers@[s].topic@);
                        }
                        if t < u {
                            assert(topics@[t as int].id@ == sub.topic@);
                        }
                        assert(u == t);
                    }
                }
            }
            i = i + 1;
        }
    }

    /// The deliveries of `msg`: for each subscriber id cached under its topic, in
    /// order, the callback of its snapshot with the message value; ids without a
    /// snapshot are skipped.
    pub fn route_message(&self, msg: &Message) -> (r: Vec<Delivery>)
        requires
            self.wf(),
        ensures
            ({
                let f = self.cached_ids(msg.topic@).filter(|e: String| self.has_data(e@));
                &&& r@.len() == f.len()
                &&& forall|k: int| 0 <= k < r@.len() ==> {
                    &&& r@[k].canister_id@ == self.data_of(f[k]@).canister_id@
                    &&& r@[k].callback@ == self.data_of(f[k]@).callback@
                    &&& r@[k].value@ == msg.value@
                }
            }),
    {
        let ids = self.cache_subscribers(&msg.topic);
        let ghost pred = |e: String| self.has_data(e@);
        let mut out: Vec<Delivery> = Vec::new();
        let mut i: usize = 0;
        while i < ids.len()
            invariant
                self.wf(),
                i <= ids@.len(),
                ids@ == self.cached_ids(msg.topic@),
                pred == (|e: String| self.has_data(e@)),
                out@.len() == ids@.subrange(0, i as int).filter(pred).len(),
                forall|k: int| 0 <= k < out@.len() ==> {
                    &&& out@[k].canister_id@ == self.data_of(ids@.subrange(0, i as int).filter(pred)[k]@).canister_id@
                    &&& out@[k].callback@ == self.data_of(ids@.subrange(0, i as int).filter(pred)[k]@).callback@
                    &&& out@[k].value@ == msg.value@
                },
            decreases ids.len() - i,
        {
            proof {
                reveal(Seq::filter);
                let s1 = ids@.subrange(0, i + 1);
                assert(s1.drop_last() =~= ids@.subrange(0, i as int));
                assert(s1.last() == ids@[i as int]);
            }
            match self.data_index(&ids[i]) {
                None => {},
                Some(d) => {
                    proof {
                        self.lemma_data_at(d as int);
                    }
                    out.push(Delivery {
                        canister_id: self.data_cache[d].canister_id.clone(),
                        callback: self.data_cache[d].callback.clone(),
                        value: msg.value.clone(),
                    });
                },
            }
            i = i + 1;
        }
        assert(ids@.subrange(0, ids@.len() as int) =~= ids@);
        out
    }
}

} // verus!

verus! {

/// Whitelisting an identity and then removing it leaves the topic's list as it
/// was, when the identity was not listed before.
pub proof fn lemma_whitelist_round_trip(before: Seq<String>, id: String)
    requires
        !has_id(before, id@),
    ensures
        without_id(if has_id(before, id@) { before } else { before.push(id) }, id@) == before,
{
    crate::registry::lemma_subscribe_unsubscribe_restores(before, id);
}

/// Draining an empty FIFO hands out nothing and leaves it empty.
pub proof fn lemma_consume_empty(fifo: Seq<Message>)
    requires
        fifo.len() == 0,
    ensures
        fifo.take(0).len() == 0,
        fifo.skip(0) == fifo,
{
    assert(fifo.skip(0) =~= fifo);
}

} // verus!

verus! {

/// One sample of the balance tracker: the highest balance seen so far becomes
/// the reference, and the cycles used are that reference minus `current`.
/// Returns `(reference, used)`.
pub fn track_cycles_used(initial: u64, current: u64) -> (r: (u64, u64))
    ensures
        r.0 == if initial >= current { initial } else { current },
        r.1 == r.0 - current,
{
    let reference = if initial >= current { initial } else { current };
    (reference, reference - current)
}

} // verus!
