use vstd::prelude::*;
use crate::error::ErrorKind;
use crate::ident::{create_uuid, fresh_id};
use crate::types::{
    CallSubscriberResponse, CallSubscribersResponse, Canisters,
    Namespace, Namespaces, Subscriber, Subscribers, Topic, Topics,
};

verus! {

pub open spec fn topic_ids_unique(s: Seq<Topics>) -> bool {
    forall|i: int, j: int| 0 <= i < s.len() && 0 <= j < s.len() && i != j ==> s[i].id@ != s[j].id@
}

pub open spec fn namespace_ids_unique(s: Seq<Namespaces>) -> bool {
    forall|i: int, j: int| 0 <= i < s.len() && 0 <= j < s.len() && i != j ==> s[i].id@ != s[j].id@
}

pub open spec fn subscriber_ids_unique(s: Seq<Subscribers>) -> bool {
    forall|i: int, j: int| 0 <= i < s.len() && 0 <= j < s.len() && i != j ==> s[i].id@ != s[j].id@
}

pub open spec fn canister_names_unique(s: Seq<Canisters>) -> bool {
    forall|i: int, j: int|
        0 <= i < s.len() && 0 <= j < s.len() && i != j ==> s[i].canister_name@ != s[j].canister_name@
}

/// `l` with every occurrence of `x` taken out, order kept.
pub open spec fn without_id(l: Seq<String>, x: Seq<char>) -> Seq<String> {
    l.filter(kept_by(x))
}

/// Whether an element survives `without_id(_, x)`.
pub open spec fn kept_by(x: Seq<char>) -> spec_fn(String) -> bool {
    |e: String| e@ != x
}

/// The authoritative store of topics, namespaces, subscribers and peer services.
pub struct Registry {
    pub topics: Vec<Topics>,
    pub namespaces: Vec<Namespaces>,
    pub subscribers: Vec<Subscribers>,
    pub canisters: Vec<Canisters>,
}

impl Registry {
    /// Each store is keyed uniquely: topics, namespaces and subscribers by id,
    /// peer services by logical name.
    pub open spec fn wf(&self) -> bool {
        &&& topic_ids_unique(self.topics@)
        &&& namespace_ids_unique(self.namespaces@)
        &&& subscriber_ids_unique(self.subscribers@)
        &&& canister_names_unique(self.canisters@)
    }

    pub open spec fn has_topic(&self, id: Seq<char>) -> bool {
        exists|i: int| 0 <= i < self.topics@.len() && self.topics@[i].id@ == id
    }

    pub open spec fn has_namespace(&self, id: Seq<char>) -> bool {
        exists|i: int| 0 <= i < self.namespaces@.len() && self.namespaces@[i].id@ == id
    }

    pub open spec fn has_subscriber(&self, id: Seq<char>) -> bool {
        exists|i: int| 0 <= i < self.subscribers@.len() && self.subscribers@[i].id@ == id
    }

    pub open spec fn has_canister(&self, name: Seq<char>) -> bool {
        exists|i: int| 0 <= i < self.canisters@.len() && self.canisters@[i].canister_name@ == name
    }

    pub fn new() -> (r: Registry)
        ensures
            r.wf(),
            r.topics@.len() == 0,
            r.namespaces@.len() == 0,
            r.subscribers@.len() == 0,
            r.canisters@.len() == 0,
            r.placement_consistent(),
    {
        Registry {
            topics: Vec::new(),
            namespaces: Vec::new(),
            subscribers: Vec::new(),
            canisters: Vec::new(),
        }
    }

    fn topic_index(&self, id: &String) -> (r: Option<usize>)
        ensures
            match r {
                Some(i) => i < self.topics@.len() && self.topics@[i as int].id@ == id@,
                None => !self.has_topic(id@),
            },
    {
        let mut i: usize = 0;
        while i < self.topics.len()
            invariant
                i <= self.topics@.len(),
                forall|k: int| 0 <= k < i ==> self.topics@[k].id@ != id@,
            decreases self.topics.len() - i,
        {
            if self.topics[i].id == *id {
                return Some(i);
            }
            i = i + 1;
        }
        None
    }

    fn namespace_index(&self, id: &String) -> (r: Option<usize>)
        ensures
            match r {
                Some(i) => i < self.namespaces@.len() && self.namespaces@[i as int].id@ == id@,
                None => !self.has_namespace(id@),
            },
    {
        let mut i: usize = 0;
        while i < self.namespaces.len()
            invariant
                i <= self.namespaces@.len(),
                forall|k: int| 0 <= k < i ==> self.namespaces@[k].id@ != id@,
            decreases self.namespaces.len() - i,
        {
            if self.namespaces[i].id == *id {
                return Some(i);
            }
            i = i + 1;
        }
        None
    }

    fn subscriber_index(&self, id: &String) -> (r: Option<usize>)
        ensures
            match r {
                Some(i) => i < self.subscribers@.len() && self.subscribers@[i as int].id@ == id@,
                None => !self.has_subscriber(id@),
            },
    {
        let mut i: usize = 0;
        while i < self.subscribers.len()
            invariant
                i <= self.subscribers@.len(),
                forall|k: int| 0 <= k < i ==> self.subscribers@[k].id@ != id@,
            decreases self.subscribers.len() - i,
        {
            if self.subscribers[i].id == *id {
                return Some(i);
            }
            i = i + 1;
        }
        None
    }

    fn canister_index(&self, name: &String) -> (r: Option<usize>)
        ensures
            match r {
                Some(i) => i < self.canisters@.len() && self.canisters@[i as int].canister_name@
                    == name@,
                None => !self.has_canister(name@),
            },
    {
        let mut i: usize = 0;
        while i < self.canisters.len()
            invariant
                i <= self.canisters@.len(),
                forall|k: int| 0 <= k < i ==> self.canisters@[k].canister_name@ != name@,
            decreases self.canisters.len() - i,
        {
            if self.canisters[i].canister_name == *name {
                return Some(i);
            }
            i = i + 1;
        }
        None
    }

    /// Registers a topic under the identifier allocated at `now`.
    pub fn topic_register(&mut self, topic: Topic, now: u64) -> (r: Result<String, ErrorKind>)
        requires
            old(self).wf(),
        ensures
            final(self).wf(),
            r is Ok <==> !old(self).has_topic(fresh_id(now)),
            r matches Ok(id) ==> {
                &&& id@ == fresh_id(now)
                &&& final(self).topics@.len() == old(self).topics@.len() + 1
                &&& final(self).topics@.drop_last() == old(self).topics@
                &&& final(self).topics@.last().id@ == fresh_id(now)
                &&& final(self).topics@.last().name@ == topic.name@
                &&& final(self).topics@.last().description@ == topic.description@
                &&& final(self).topics@.last().namespaces@ == topic.namespaces@
                &&& final(self).topics@.last().active == topic.active
            },
            r is Err ==> r == Err::<String, ErrorKind>(ErrorKind::Conflict) && final(self).topics@
                == old(self).topics@,
            final(self).namespaces@ == old(self).namespaces@,
            final(self).subscribers@ == old(self).subscribers@,
            final(self).canisters@ == old(self).canisters@,
    {
        let id = create_uuid(now);
        match self.topic_index(&id) {
            Some(_) => Err(ErrorKind::Conflict),
            None => {
                let t = Topics {
                    id: id.clone(),
                    name: topic.name,
                    description: topic.description,
                    namespaces: topic.namespaces,
                    active: topic.active,
                };
                self.topics.push(t);
                assert(final(self).topics@.drop_last() =~= old(self).topics@);
                Ok(id)
            },
        }
    }

    /// Removes the topic with identifier `id`.
    pub fn topic_unregister(&mut self, id: &String) -> (r: Result<String, ErrorKind>)
        requires
            old(self).wf(),
        ensures
            final(self).wf(),
            r is Ok <==> old(self).has_topic(id@),
            r matches Ok(s) ==> s@ == id@ && exists|i: int|
                0 <= i < old(self).topics@.len() && old(self).topics@[i].id@ == id@
                    && final(self).topics@ == old(self).topics@.remove(i),
            r is Err ==> r == Err::<String, ErrorKind>(ErrorKind::NotFound) && final(self).topics@
                == old(self).topics@,
            final(self).namespaces@ == old(self).namespaces@,
            final(self).subscribers@ == old(self).subscribers@,
            final(self).canisters@ == old(self).canisters@,
    {
        match self.topic_index(id) {
            None => Err(ErrorKind::NotFound),
            Some(i) => {
                self.topics.remove(i);
                Ok(id.clone())
            },
        }
    }

    /// The topic with identifier `id`.
    pub fn topic(&self, id: &String) -> (r: Option<Topics>)
        ensures
            r is Some <==> self.has_topic(id@),
            r matches Some(t) ==> exists|i: int|
                0 <= i < self.topics@.len() && self.topics@[i].id@ == id@ && t.same(&self.topics@[i]),
    {
        match self.topic_index(id) {
            None => None,
            Some(i) => Some(self.topics[i].duplicate()),
        }
    }

    /// All topics, in registry order.
    pub fn topics(&self) -> (r: Vec<Topics>)
        ensures
            r@.len() == self.topics@.len(),
            forall|k: int| 0 <= k < r@.len() ==> r@[k].same(&self.topics@[k]),
    {
        let mut r: Vec<Topics> = Vec::new();
        let mut i: usize = 0;
        while i < self.topics.len()
            invariant
                i <= self.topics@.len(),
                r@.len() == i,
                forall|k: int| 0 <= k < i ==> r@[k].same(&self.topics@[k]),
            decreases self.topics.len() - i,
        {
            r.push(self.topics[i].duplicate());
            i = i + 1;
        }
        r
    }

    /// The last registered topic named `name`.
    pub fn topic_by_name(&self, name: &String) -> (r: Option<Topics>)
        ensures
            r is Some <==> exists|i: int| 0 <= i < self.topics@.len() && self.topics@[i].name@ == name@,
            r matches Some(t) ==> exists|i: int| self.is_last_named(i, name@) && t.same(&self.topics@[i]),
    {
        let mut i: usize = self.topics.len();
        while i > 0
            invariant
                i <= self.topics@.len(),
                forall|j: int| i <= j < self.topics@.len() ==> self.topics@[j].name@ != name@,
            decreases i,
        {
            i = i - 1;
            if self.topics[i].name == *name {
                let t = self.topics[i].duplicate();
                assert(self.is_last_named(i as int, name@) && t.same(&self.topics@[i as int]));
                return Some(t);
            }
        }
        None
    }

    /// Registers a namespace under the identifier allocated at `now`.
    pub fn namespace_register(&mut self, namespace: Namespace, now: u64) -> (r: Result<String, ErrorKind>)
        requires
            old(self).wf(),
        ensures
            final(self).wf(),
            r is Ok <==> !old(self).has_namespace(fresh_id(now)),
            r matches Ok(id) ==> {
                &&& id@ == fresh_id(now)
                &&& final(self).namespaces@.len() == old(self).namespaces@.len() + 1
                &&& final(self).namespaces@.drop_last() == old(self).namespaces@
                &&& final(self).namespaces@.last().id@ == fresh_id(now)
                &&& final(self).namespaces@.last().name@ == namespace.name@
                &&& final(self).namespaces@.last().description@ == namespace.description@
                &&& final(self).namespaces@.last().subscribers@ == namespace.subscribers@
                &&& final(self).namespaces@.last().active == namespace.active
            },
            r is Err ==> r == Err::<String, ErrorKind>(ErrorKind::Conflict)
                && final(self).namespaces@ == old(self).namespaces@,
            final(self).topics@ == old(self).topics@,
            final(self).subscribers@ == old(self).subscribers@,
            final(self).canisters@ == old(self).canisters@,
    {
        let id = create_uuid(now);
        match self.namespace_index(&id) {
            Some(_) => Err(ErrorKind::Conflict),
            None => {
                let ns = Namespaces {
                    id: id.clone(),
                    name: namespace.name,
                    description: namespace.description,
                    subscribers: namespace.subscribers,
                    active: namespace.active,
                };
                self.namespaces.push(ns);
                assert(final(self).namespaces@.drop_last() =~= old(self).namespaces@);
                Ok(id)
            },
        }
    }

    /// Removes the namespace with identifier `id`.
    pub fn namespace_unregister(&mut self, id: &String) -> (r: Result<String, ErrorKind>)
        requires
            old(self).wf(),
        ensures
            final(self).wf(),
            r is Ok <==> old(self).has_namespace(id@),
            r matches Ok(s) ==> s@ == id@ && exists|i: int|
                0 <= i < old(self).namespaces@.len() && old(self).namespaces@[i].id@ == id@
                    && final(self).namespaces@ == old(self).namespaces@.remove(i),
            r is Err ==> r == Err::<String, ErrorKind>(ErrorKind::NotFound)
                && final(self).namespaces@ == old(self).namespaces@,
            final(self).topics@ == old(self).topics@,
            final(self).subscribers@ == old(self).subscribers@,
            final(self).canisters@ == old(self).canisters@,
    {
        match self.namespace_index(id) {
            None => Err(ErrorKind::NotFound),
            Some(i) => {
                self.namespaces.remove(i);
                Ok(id.clone())
            },
        }
    }

    /// The namespace with identifier `id`.
    pub fn namespace(&self, id: &String) -> (r: Option<Namespaces>)
        ensures
            r is Some <==> self.has_namespace(id@),
            r matches Some(n) ==> exists|i: int|
                0 <= i < self.namespaces@.len() && self.namespaces@[i].id@ == id@
                    && n.same(&self.namespaces@[i]),
    {
        match self.namespace_index(id) {
            None => None,
            Some(i) => Some(self.namespaces[i].duplicate()),
        }
    }

    /// All namespaces, in registry order.
    pub fn namespaces(&self) -> (r: Vec<Namespaces>)
        ensures
            r@.len() == self.namespaces@.len(),
            forall|k: int| 0 <= k < r@.len() ==> r@[k].same(&self.namespaces@[k]),
    {
        let mut r: Vec<Namespaces> = Vec::new();
        let mut i: usize = 0;
        while i < self.namespaces.len()
            invariant
                i <= self.namespaces@.len(),
                r@.len() == i,
                forall|k: int| 0 <= k < i ==> r@[k].same(&self.namespaces@[k]),
            decreases self.namespaces.len() - i,
        {
            r.push(self.namespaces[i].duplicate());
            i = i + 1;
        }
        r
    }

    /// The number of subscriber ids listed in namespace `id`.
    pub fn namespace_subscriber_size(&self, id: &String) -> (r: Result<usize, ErrorKind>)
        ensures
            r is Ok <==> self.has_namespace(id@),
            r matches Ok(n) ==> exists|i: int|
                0 <= i < self.namespaces@.len() && self.namespaces@[i].id@ == id@
                    && n == self.namespaces@[i].subscribers@.len(),
            r is Err ==> r == Err::<usize, ErrorKind>(ErrorKind::NotFound),
    {
        match self.namespace_index(id) {
            None => Err(ErrorKind::NotFound),
            Some(i) => Ok(self.namespaces[i].subscribers.len()),
        }
    }

    /// Appends `subscriber_id` to the member list of namespace `namespace_id`.
    pub fn namespace_register_subscriber(&mut self, namespace_id: &String, subscriber_id: &String) -> (r:
        Result<String, ErrorKind>)
        requires
            old(self).wf(),
        ensures
            final(self).wf(),
            r is Ok <==> old(self).has_namespace(namespace_id@),
            r matches Ok(s) ==> s@ == namespace_id@ && exists|i: int|
                0 <= i < old(self).namespaces@.len() && old(self).namespaces@[i].id@ == namespace_id@
                    && final(self).namespaces@.len() == old(self).namespaces@.len()
                    && final(self).namespaces@[i].subscribers@ == old(self).namespaces@[i].subscribers@.push(
                    *subscriber_id)
                    && final(self).namespaces@[i].id@ == old(self).namespaces@[i].id@
                    && final(self).namespaces@[i].name@ == old(self).namespaces@[i].name@
                    && final(self).namespaces@[i].description@ == old(self).namespaces@[i].description@
                    && final(self).namespaces@[i].active == old(self).namespaces@[i].active
                    && forall|j: int| 0 <= j < final(self).namespaces@.len() && j != i
                        ==> final(self).namespaces@[j] == old(self).namespaces@[j],
            r is Err ==> r == Err::<String, ErrorKind>(ErrorKind::NotFound)
                && final(self).namespaces@ == old(self).namespaces@,
            final(self).topics@ == old(self).topics@,
            final(self).subscribers@ == old(self).subscribers@,
            final(self).canisters@ == old(self).canisters@,
    {
        match self.namespace_index(namespace_id) {
            None => Err(ErrorKind::NotFound),
            Some(i) => {
                self.append_member(i, subscriber_id);
                Ok(namespace_id.clone())
            },
        }
    }

    /// Appends `subscriber_id` to the member list of the namespace at index `i`.
    fn append_member(&mut self, i: usize, subscriber_id: &String)
        requires
            old(self).wf(),
            i < old(self).namespaces@.len(),
        ensures
            final(self).wf(),
            final(self).namespaces@.len() == old(self).namespaces@.len(),
            final(self).namespaces@[i as int].subscribers@ == old(self).namespaces@[i as int].subscribers@.push(
                *subscriber_id),
            final(self).namespaces@[i as int].id@ == old(self).namespaces@[i as int].id@,
            final(self).namespaces@[i as int].name@ == old(self).namespaces@[i as int].name@,
            final(self).namespaces@[i as int].description@ == old(self).namespaces@[i as int].description@,
            final(self).namespaces@[i as int].active == old(self).namespaces@[i as int].active,
            forall|j: int| 0 <= j < final(self).namespaces@.len() && j != i
                ==> final(self).namespaces@[j] == old(self).namespaces@[j],
            final(self).topics@ == old(self).topics@,
            final(self).subscribers@ == old(self).subscribers@,
            final(self).canisters@ == old(self).canisters@,
    {
        let mut ns = self.namespaces[i].duplicate();
        ns.subscribers.push(subscriber_id.clone());
        self.namespaces.set(i, ns);
    }

    /// The namespaces attached to topic `topic_id`, in registry order.
    pub fn namespaces_by_topic(&self, topic_id: &String) -> (r: Result<Vec<Namespaces>, ErrorKind>)
        ensures
            r is Ok <==> self.has_topic(topic_id@),
            r is Err ==> r == Err::<Vec<Namespaces>, ErrorKind>(ErrorKind::NotFound),
            r matches Ok(v) ==> exists|t: int|
                0 <= t < self.topics@.len() && self.topics@[t].id@ == topic_id@ && ({
                    let f = self.namespaces@.filter(
                        |n: Namespaces| has_id(self.topics@[t].namespaces@, n.id@)
                    );
                    v@.len() == f.len() && forall|k: int| 0 <= k < v@.len() ==> v@[k].same(&f[k])
                }),
    {
        match self.topic_index(topic_id) {
            None => Err(ErrorKind::NotFound),
            Some(t) => {
                let ids = &self.topics[t].namespaces;
                let ghost pred = |n: Namespaces| has_id(self.topics@[t as int].namespaces@, n.id@);
                let mut v: Vec<Namespaces> = Vec::new();
                let mut i: usize = 0;
                while i < self.namespaces.len()
                    invariant
                        i <= self.namespaces@.len(),
                        t < self.topics@.len(),
                        pred == (|n: Namespaces| has_id(self.topics@[t as int].namespaces@, n.id@)),
                        ids@ == self.topics@[t as int].namespaces@,
                        v@.len() == self.namespaces@.subrange(0, i as int).filter(pred).len(),
                        forall|k: int| 0 <= k < v@.len() ==> v@[k].same(
                            &self.namespaces@.subrange(0, i as int).filter(pred)[k],
                        ),
                    decreases self.namespaces.len() - i,
                {
                    proof {
                        reveal(Seq::filter);
                        let s1 = self.namespaces@.subrange(0, i + 1);
                        assert(s1.drop_last() =~= self.namespaces@.subrange(0, i as int));
                        assert(s1.last() == self.namespaces@[i as int]);
                        assert(s1.filter(pred) == if pred(self.namespaces@[i as int]) {
                            self.namespaces@.subrange(0, i as int).filter(pred).push(self.namespaces@[i as int])
                        } else {
                            self.namespaces@.subrange(0, i as int).filter(pred)
                        });
                    }
                    if contains_id(ids, &self.namespaces[i].id) {
                        v.push(self.namespaces[i].duplicate());
                    }
                    i = i + 1;
                }
                assert(self.namespaces@.subrange(0, self.namespaces@.len() as int) =~= self.namespaces@);
                Ok(v)
            },
        }
    }

    /// The namespace that subscriber `subscriber_id` is placed in.
    pub fn namespace_by_subscriber(&self, subscriber_id: &String) -> (r: Result<Namespaces, ErrorKind>)
        requires
            self.wf(),
        ensures
            r is Ok <==> exists|s: int|
                0 <= s < self.subscribers@.len() && self.subscribers@[s].id@ == subscriber_id@
                    && self.has_namespace(self.subscribers@[s].namespace@),
            r is Err ==> r == Err::<Namespaces, ErrorKind>(ErrorKind::NotFound),
            r matches Ok(n) ==> exists|s: int, i: int|
                0 <= s < self.subscribers@.len() && self.subscribers@[s].id@ == subscriber_id@
                    && 0 <= i < self.namespaces@.len()
                    && self.namespaces@[i].id@ == self.subscribers@[s].namespace@
                    && n.same(&self.namespaces@[i]),
    {
        match self.subscriber_index(subscriber_id) {
            None => Err(ErrorKind::NotFound),
            Some(s) => match self.namespace_index(&self.subscribers[s].namespace) {
                None => Err(ErrorKind::NotFound),
                Some(i) => Ok(self.namespaces[i].duplicate()),
            },
        }
    }

    /// Whether the topic at index `i` is the last one named `name`.
    pub open spec fn is_last_named(&self, i: int, name: Seq<char>) -> bool {
        &&& 0 <= i < self.topics@.len()
        &&& self.topics@[i].name@ == name
        &&& forall|j: int| i < j < self.topics@.len() ==> self.topics@[j].name@ != name
    }

    /// The member count of the namespace with identifier `id`.
    pub open spec fn member_count(&self, id: Seq<char>) -> int {
        let i = choose|i: int| 0 <= i < self.namespaces@.len() && self.namespaces@[i].id@ == id;
        self.namespaces@[i].subscribers@.len() as int
    }

    /// Whether position `c` of `ids` names a namespace with the fewest members,
    /// earlier positions having strictly more.
    pub open spec fn least_loaded(&self, ids: Seq<String>, c: int) -> bool {
        &&& 0 <= c < ids.len()
        &&& forall|j: int| 0 <= j < c ==> self.member_count(ids[j]@) > self.member_count(ids[c]@)
        &&& forall|j: int| c < j < ids.len() ==> self.member_count(ids[j]@) >= self.member_count(ids[c]@)
    }

    /// Whether topic `name` can take a subscriber: it exists, is active, and has
    /// at least one namespace, each of which resolves.
    pub open spec fn can_place(&self, name: Seq<char>) -> bool {
        exists|t: int| #![trigger self.topics@[t]]
            self.is_last_named(t, name) && self.topics@[t].active
                && self.topics@[t].namespaces@.len() > 0
                && forall|k: int| 0 <= k < self.topics@[t].namespaces@.len()
                    ==> self.has_namespace(self.topics@[t].namespaces@[k]@)
    }

    /// Every namespace lists exactly the subscribers placed in it.
    pub open spec fn placement_consistent(&self) -> bool {
        forall|n: int, x: Seq<char>| 0 <= n < self.namespaces@.len() ==> (
            #[trigger] has_id(self.namespaces@[n].subscribers@, x) <==> exists|s: int|
                0 <= s < self.subscribers@.len() && self.subscribers@[s].id@ == x
                    && self.subscribers@[s].namespace@ == self.namespaces@[n].id@)
    }

    proof fn lemma_member_count(&self, i: int)
        requires
            self.wf(),
            0 <= i < self.namespaces@.len(),
        ensures
            self.member_count(self.namespaces@[i].id@) == self.namespaces@[i].subscribers@.len(),
    {
        let id = self.namespaces@[i].id@;
        assert(0 <= i < self.namespaces@.len() && self.namespaces@[i].id@ == id);
        let k = choose|k: int| 0 <= k < self.namespaces@.len() && self.namespaces@[k].id@ == id;
        assert(k == i);
    }

    /// Registers a subscriber; an empty `id` gets the identifier allocated at `now`.
    pub fn subscriber_register(&mut self, subscriber: Subscribers, now: u64) -> (r: Result<String, ErrorKind>)
        requires
            old(self).wf(),
        ensures
            final(self).wf(),
            ({
                let id = if subscriber.id@.len() == 0 { fresh_id(now) } else { subscriber.id@ };
                &&& r is Ok <==> !old(self).has_subscriber(id)
                &&& r matches Ok(s) ==> {
                    &&& s@ == id
                    &&& final(self).subscribers@.len() == old(self).subscribers@.len() + 1
                    &&& final(self).subscribers@.drop_last() == old(self).subscribers@
                    &&& final(self).subscribers@.last().id@ == id
                    &&& final(self).subscribers@.last().canister_id@ == subscriber.canister_id@
                    &&& final(self).subscribers@.last().callback@ == subscriber.callback@
                    &&& final(self).subscribers@.last().name@ == subscriber.name@
                    &&& final(self).subscribers@.last().description@ == subscriber.description@
                    &&& final(self).subscribers@.last().topic@ == subscriber.topic@
                    &&& final(self).subscribers@.last().namespace@ == subscriber.namespace@
                    &&& final(self).subscribers@.last().active
                }
            }),
            r is Err ==> r == Err::<String, ErrorKind>(ErrorKind::Conflict)
                && final(self).subscribers@ == old(self).subscribers@,
            final(self).topics@ == old(self).topics@,
            final(self).namespaces@ == old(self).namespaces@,
            final(self).canisters@ == old(self).canisters@,
    {
        let id = if subscriber.id.as_str().unicode_len() == 0 {
            create_uuid(now)
        } else {
            subscriber.id
        };
        match self.subscriber_index(&id) {
            Some(_) => Err(ErrorKind::Conflict),
            None => {
                let rec = Subscribers {
                    id: id.clone(),
                    canister_id: subscriber.canister_id,
                    callback: subscriber.callback,
                    name: subscriber.name,
                    description: subscriber.description,
                    topic: subscriber.topic,
                    namespace: subscriber.namespace,
                    active: true,
                };
                self.subscribers.push(rec);
                assert(final(self).subscribers@.drop_last() =~= old(self).subscribers@);
                Ok(id)
            },
        }
    }

    /// Removes the subscriber record `id`; namespace member lists are left as they are.
    pub fn subscriber_unregister(&mut self, id: &String) -> (r: Result<String, ErrorKind>)
        requires
            old(self).wf(),
        ensures
            final(self).wf(),
            r is Ok <==> old(self).has_subscriber(id@),
            r matches Ok(s) ==> s@ == id@ && exists|i: int|
                0 <= i < old(self).subscribers@.len() && old(self).subscribers@[i].id@ == id@
                    && final(self).subscribers@ == old(self).subscribers@.remove(i),
            r is Err ==> r == Err::<String, ErrorKind>(ErrorKind::NotFound)
                && final(self).subscribers@ == old(self).subscribers@,
            final(self).topics@ == old(self).topics@,
            final(self).namespaces@ == old(self).namespaces@,
            final(self).canisters@ == old(self).canisters@,
    {
        match self.subscriber_index(id) {
            None => Err(ErrorKind::NotFound),
            Some(i) => {
                self.subscribers.remove(i);
                Ok(id.clone())
            },
        }
    }

    /// The subscriber with identifier `id`.
    pub fn subscriber(&self, id: &String) -> (r: Option<Subscribers>)
        ensures
            r is Some <==> self.has_subscriber(id@),
            r matches Some(s) ==> exists|i: int|
                0 <= i < self.subscribers@.len() && self.subscribers@[i].id@ == id@
                    && s.same(&self.subscribers@[i]),
    {
        match self.subscriber_index(id) {
            None => None,
            Some(i) => Some(self.subscribers[i].duplicate()),
        }
    }

    /// All subscribers, in registry order.
    pub fn subscribers(&self) -> (r: Vec<Subscribers>)
        ensures
            r@.len() == self.subscribers@.len(),
            forall|k: int| 0 <= k < r@.len() ==> r@[k].same(&self.subscribers@[k]),
    {
        let mut r: Vec<Subscribers> = Vec::new();
        let mut i: usize = 0;
        while i < self.subscribers.len()
            invariant
                i <= self.subscribers@.len(),
                r@.len() == i,
                forall|k: int| 0 <= k < i ==> r@[k].same(&self.subscribers@[k]),
            decreases self.subscribers.len() - i,
        {
            r.push(self.subscribers[i].duplicate());
            i = i + 1;
        }
        r
    }

    /// The subscribers whose `topic` (when `by_caller` is false) or whose
    /// `canister_id` (when it is true) equals `key`, in registry order.
    fn subscribers_where(&self, by_caller: bool, key: &String) -> (r: Vec<Subscribers>)
        ensures
            ({
                let f = self.subscribers@.filter(|s: Subscribers| subscriber_key(s, by_caller) == key@);
                r@.len() == f.len() && forall|k: int| 0 <= k < r@.len() ==> r@[k].same(&f[k])
            }),
    {
        let ghost pred = |s: Subscribers| subscriber_key(s, by_caller) == key@;
        let mut v: Vec<Subscribers> = Vec::new();
        let mut i: usize = 0;
        while i < self.subscribers.len()
            invariant
                i <= self.subscribers@.len(),
                pred == (|s: Subscribers| subscriber_key(s, by_caller) == key@),
                v@.len() == self.subscribers@.subrange(0, i as int).filter(pred).len(),
                forall|k: int| 0 <= k < v@.len() ==> v@[k].same(
                    &self.subscribers@.subrange(0, i as int).filter(pred)[k],
                ),
            decreases self.subscribers.len() - i,
        {
            proof {
                reveal(Seq::filter);
                let s1 = self.subscribers@.subrange(0, i + 1);
                assert(s1.drop_last() =~= self.subscribers@.subrange(0, i as int));
                assert(s1.last() == self.subscribers@[i as int]);
                assert(s1.filter(pred) == if pred(self.subscribers@[i as int]) {
                    self.subscribers@.subrange(0, i as int).filter(pred).push(self.subscribers@[i as int])
                } else {
                    self.subscribers@.subrange(0, i as int).filter(pred)
                });
            }
            let hit = if by_caller {
                self.subscribers[i].canister_id == *key
            } else {
                self.subscribers[i].topic == *key
            };
            if hit {
                v.push(self.subscribers[i].duplicate());
            }
            i = i + 1;
        }
        assert(self.subscribers@.subrange(0, self.subscribers@.len() as int) =~= self.subscribers@);
        v
    }

    /// The subscribers of topic `topic_id`, in registry order.
    pub fn subscribers_by_topic(&self, topic_id: &String) -> (r: Vec<Subscribers>)
        ensures
            ({
                let f = self.subscribers@.filter(|s: Subscribers| s.topic@ == topic_id@);
                r@.len() == f.len() && forall|k: int| 0 <= k < r@.len() ==> r@[k].same(&f[k])
            }),
    {
        let r = self.subscribers_where(false, topic_id);
        let ghost by_key = |s: Subscribers| subscriber_key(s, false) == topic_id@;
        let ghost by_field = |s: Subscribers| s.topic@ == topic_id@;
        assert(by_key =~= by_field);
        assert(self.subscribers@.filter(by_key) == self.subscribers@.filter(by_field));
        r
    }

    /// The subscribers of the last topic named `name`; empty when there is none.
    pub fn subscribers_by_topic_name(&self, name: &String) -> (r: Vec<Subscribers>)
        ensures
            (forall|i: int| 0 <= i < self.topics@.len() ==> self.topics@[i].name@ != name@) ==> r@.len() == 0,
            forall|t: int| self.is_last_named(t, name@) ==> ({
                let f = self.subscribers@.filter(|s: Subscribers| s.topic@ == self.topics@[t].id@);
                r@.len() == f.len() && forall|k: int| 0 <= k < r@.len() ==> r@[k].same(&f[k])
            }),
    {
        match self.topic_by_name(name) {
            None => Vec::new(),
            Some(t) => {
                let r = self.subscribers_by_topic(&t.id);
                assert forall|i: int| self.is_last_named(i, name@) implies ({
                    let f = self.subscribers@.filter(|s: Subscribers| s.topic@ == self.topics@[i].id@);
                    r@.len() == f.len() && forall|k: int| 0 <= k < r@.len() ==> r@[k].same(&f[k])
                }) by {
                    let j = choose|j: int| self.is_last_named(j, name@) && t.same(&self.topics@[j]);
                    assert(i == j);
                    assert(self.subscribers@.filter(|s: Subscribers| s.topic@ == self.topics@[i].id@)
                        =~= self.subscribers@.filter(|s: Subscribers| s.topic@ == t.id@));
                }
                r
            },
        }
    }

    /// Whether `a` and `b` hold the same entities.
    pub open spec fn unchanged(a: &Registry, b: &Registry) -> bool {
        &&& a.topics@ == b.topics@
        &&& a.namespaces@ == b.namespaces@
        &&& a.subscribers@ == b.subscribers@
        &&& a.canisters@ == b.canisters@
    }

    proof fn lemma_last_named_unique(&self, i: int, j: int, name: Seq<char>)
        requires
            self.is_last_named(i, name),
            self.is_last_named(j, name),
        ensures
            i == j,
    {
    }

    /// Subscribes `caller` to topic `topic_name` with procedure `callback`: the
    /// new subscriber, with the identifier allocated at `now`, is placed in the
    /// namespace of the topic with the fewest members (the first such on ties).
    pub fn agent_subscribe(&mut self, topic_name: &String, callback: String, caller: String, now: u64) -> (r:
        Result<String, ErrorKind>)
        requires
            old(self).wf(),
        ensures
            final(self).wf(),
            !old(self).can_place(topic_name@) ==> r == Err::<String, ErrorKind>(ErrorKind::NotFound),
            old(self).can_place(topic_name@) && old(self).has_subscriber(fresh_id(now))
                ==> r == Err::<String, ErrorKind>(ErrorKind::Conflict),
            r is Ok <==> old(self).can_place(topic_name@) && !old(self).has_subscriber(fresh_id(now)),
            r is Err ==> Registry::unchanged(final(self), old(self)),
            old(self).placement_consistent() ==> final(self).placement_consistent(),
            r matches Ok(id) ==> {
                &&& id@ == fresh_id(now)
                &&& final(self).topics@ == old(self).topics@
                &&& final(self).canisters@ == old(self).canisters@
                &&& exists|t: int, c: int, m: int| #![trigger old(self).least_loaded(old(self).topics@[t].namespaces@, c), old(self).namespaces@[m]]
                    old(self).is_last_named(t, topic_name@)
                    && old(self).least_loaded(old(self).topics@[t].namespaces@, c)
                    && 0 <= m < old(self).namespaces@.len()
                    && old(self).namespaces@[m].id@ == old(self).topics@[t].namespaces@[c]@
                    && final(self).subscribers@.len() == old(self).subscribers@.len() + 1
                    && final(self).subscribers@.drop_last() == old(self).subscribers@
                    && final(self).subscribers@.last().id@ == fresh_id(now)
                    && final(self).subscribers@.last().canister_id@ == caller@
                    && final(self).subscribers@.last().callback@ == callback@
                    && final(self).subscribers@.last().name@.len() == 0
                    && final(self).subscribers@.last().description@.len() == 0
                    && final(self).subscribers@.last().topic@ == old(self).topics@[t].id@
                    && final(self).subscribers@.last().namespace@ == old(self).namespaces@[m].id@
                    && final(self).subscribers@.last().active
                    && final(self).namespaces@.len() == old(self).namespaces@.len()
                    && final(self).namespaces@[m].subscribers@ == old(self).namespaces@[m].subscribers@.push(id)
                    && final(self).namespaces@[m].id@ == old(self).namespaces@[m].id@
                    && final(self).namespaces@[m].name@ == old(self).namespaces@[m].name@
                    && final(self).namespaces@[m].description@ == old(self).namespaces@[m].description@
                    && final(self).namespaces@[m].active == old(self).namespaces@[m].active
                    && forall|j: int| 0 <= j < final(self).namespaces@.len() && j != m
                        ==> final(self).namespaces@[j] == old(self).namespaces@[j]
            },
    {
        let t = match self.topic_by_name(topic_name) {
            None => {
                proof {
                    if self.can_place(topic_name@) {
                        let t2 = choose|t2: int| #![trigger self.topics@[t2]]
                            self.is_last_named(t2, topic_name@) && self.topics@[t2].active
                                && self.topics@[t2].namespaces@.len() > 0
                                && forall|k: int| 0 <= k < self.topics@[t2].namespaces@.len()
                                    ==> self.has_namespace(self.topics@[t2].namespaces@[k]@);
                        assert(self.topics@[t2].name@ == topic_name@);
                    }
                }
                return Err(ErrorKind::NotFound);
            },
            Some(t) => t,
        };
        let ghost ti = choose|i: int| self.is_last_named(i, topic_name@) && t.same(&self.topics@[i]);
        proof {
            assert forall|i: int| self.is_last_named(i, topic_name@) implies i == ti by {
                self.lemma_last_named_unique(i, ti, topic_name@);
            }
        }
        if !t.active || t.namespaces.len() == 0 {
            proof {
                if self.can_place(topic_name@) {
                    let t2 = choose|t2: int| #![trigger self.topics@[t2]]
                        self.is_last_named(t2, topic_name@) && self.topics@[t2].active
                            && self.topics@[t2].namespaces@.len() > 0
                            && forall|k: int| 0 <= k < self.topics@[t2].namespaces@.len()
                                ==> self.has_namespace(self.topics@[t2].namespaces@[k]@);
                    assert(t2 == ti);
                }
            }
            return Err(ErrorKind::NotFound);
        }
        let ids = &t.namespaces;
        let mut best: usize = 0;
        let mut best_idx: usize = 0;
        let mut best_size: usize = 0;
        let mut j: usize = 0;
        while j < ids.len()
            invariant
                self.wf(),
                self == old(self),
                0 <= ti < self.topics@.len(),
                self.is_last_named(ti, topic_name@),
                forall|i: int| self.is_last_named(i, topic_name@) ==> i == ti,
                j <= ids@.len(),
                ids@ == self.topics@[ti].namespaces@,
                j > 0 ==> {
                    &&& best < j
                    &&& best_idx < self.namespaces@.len()
                    &&& self.namespaces@[best_idx as int].id@ == ids@[best as int]@
                    &&& best_size == self.member_count(ids@[best as int]@)
                    &&& forall|k: int| 0 <= k < best ==> self.member_count(ids@[k]@) > best_size
                    &&& forall|k: int| best < k < j ==> self.member_count(ids@[k]@) >= best_size
                },
                forall|k: int| 0 <= k < j ==> self.has_namespace(ids@[k]@),
            decreases ids.len() - j,
        {
            let idx = match self.namespace_index(&ids[j]) {
                None => {
                    proof {
                        if self.can_place(topic_name@) {
                            let t2 = choose|t2: int| #![trigger self.topics@[t2]]
                                self.is_last_named(t2, topic_name@) && self.topics@[t2].active
                                    && self.topics@[t2].namespaces@.len() > 0
                                    && forall|k: int| 0 <= k < self.topics@[t2].namespaces@.len()
                                        ==> self.has_namespace(self.topics@[t2].namespaces@[k]@);
                            assert(t2 == ti);
                            assert(self.has_namespace(self.topics@[t2].namespaces@[j as int]@));
                        }
                    }
                    return Err(ErrorKind::NotFound);
                },
                Some(x) => x,
            };
            let size = self.namespaces[idx].subscribers.len();
            proof {
                self.lemma_member_count(idx as int);
            }
            if j == 0 || size < best_size {
                best = j;
                best_idx = idx;
                best_size = size;
            }
            j = j + 1;
        }
        proof {
            assert(self.is_last_named(ti, topic_name@) && self.topics@[ti].active
                && self.topics@[ti].namespaces@.len() > 0
                && forall|k: int| 0 <= k < self.topics@[ti].namespaces@.len()
                    ==> self.has_namespace(self.topics@[ti].namespaces@[k]@));
            assert(self.least_loaded(self.topics@[ti].namespaces@, best as int));
        }
        let id = create_uuid(now);
        if self.subscriber_index(&id).is_some() {
            return Err(ErrorKind::Conflict);
        }
        let rec = Subscribers {
            id: id.clone(),
            canister_id: caller,
            callback: callback,
            name: String::new(),
            description: String::new(),
            topic: t.id.clone(),
            namespace: self.namespaces[best_idx].id.clone(),
            active: true,
        };
        self.subscribers.push(rec);
        assert(self.subscribers@.drop_last() =~= old(self).subscribers@);
        self.append_member(best_idx, &id);
        proof {
            if old(self).placement_consistent() {
                lemma_subscribe_keeps_placement(old(self), self, best_idx as int, id);
            }
        }
        Ok(id)
    }

    /// Removes subscription `subscription_id`: its id leaves the member list of
    /// its namespace and its record is deleted.
    pub fn agent_unsubscribe(&mut self, subscription_id: &String) -> (r: Result<String, ErrorKind>)
        requires
            old(self).wf(),
        ensures
            final(self).wf(),
            r is Ok <==> exists|s: int|
                0 <= s < old(self).subscribers@.len() && old(self).subscribers@[s].id@ == subscription_id@
                    && old(self).has_namespace(old(self).subscribers@[s].namespace@),
            r is Err ==> r == Err::<String, ErrorKind>(ErrorKind::NotFound) && Registry::unchanged(
                final(self),
                old(self),
            ),
            old(self).placement_consistent() ==> final(self).placement_consistent(),
            r matches Ok(x) ==> {
                &&& x@ == subscription_id@
                &&& final(self).topics@ == old(self).topics@
                &&& final(self).canisters@ == old(self).canisters@
                &&& exists|s: int, m: int| #![trigger old(self).subscribers@[s], old(self).namespaces@[m]]
                    0 <= s < old(self).subscribers@.len() && old(self).subscribers@[s].id@ == subscription_id@
                    && 0 <= m < old(self).namespaces@.len()
                    && old(self).namespaces@[m].id@ == old(self).subscribers@[s].namespace@
                    && final(self).subscribers@ == old(self).subscribers@.remove(s)
                    && final(self).namespaces@.len() == old(self).namespaces@.len()
                    && final(self).namespaces@[m].subscribers@ == without_id(
                        old(self).namespaces@[m].subscribers@,
                        subscription_id@,
                    )
                    && final(self).namespaces@[m].id@ == old(self).namespaces@[m].id@
                    && final(self).namespaces@[m].name@ == old(self).namespaces@[m].name@
                    && final(self).namespaces@[m].description@ == old(self).namespaces@[m].description@
                    && final(self).namespaces@[m].active == old(self).namespaces@[m].active
                    && forall|j: int| 0 <= j < final(self).namespaces@.len() && j != m
                        ==> final(self).namespaces@[j] == old(self).namespaces@[j]
            },
    {
        let s = match self.subscriber_index(subscription_id) {
            None => return Err(ErrorKind::NotFound),
            Some(s) => s,
        };
        let m = match self.namespace_index(&self.subscribers[s].namespace) {
            None => return Err(ErrorKind::NotFound),
            Some(m) => m,
        };
        let kept = remove_all(&self.namespaces[m].subscribers, subscription_id);
        let ns = Namespaces {
            id: self.namespaces[m].id.clone(),
            name: self.namespaces[m].name.clone(),
            description: self.namespaces[m].description.clone(),
            subscribers: kept,
            active: self.namespaces[m].active,
        };
        self.namespaces.set(m, ns);
        self.subscribers.remove(s);
        proof {
            if old(self).placement_consistent() {
                lemma_unsubscribe_keeps_placement(old(self), self, s as int, m as int);
            }
        }
        Ok(subscription_id.clone())
    }

    /// The subscription `id` as reported to its agent.
    pub fn agent_subscription(&self, id: &String) -> (r: Result<CallSubscriberResponse, ErrorKind>)
        ensures
            r is Ok <==> self.has_subscriber(id@),
            r is Err ==> r == Err::<CallSubscriberResponse, ErrorKind>(ErrorKind::NotFound),
            r matches Ok(c) ==> exists|i: int|
                0 <= i < self.subscribers@.len() && self.subscribers@[i].id@ == id@ && {
                    let s = self.subscribers@[i];
                    &&& c.result.id@ == id@
                    &&& c.result.canister_id@ == s.canister_id@
                    &&& c.result.callback@ == s.callback@
                    &&& c.result.name@ == s.name@
                    &&& c.result.description@ == s.description@
                    &&& c.result.topic@ == s.topic@
                    &&& c.result.namespace@ == s.namespace@
                    &&& c.result.active
                },
    {
        match self.subscriber_index(id) {
            None => Err(ErrorKind::NotFound),
            Some(i) => {
                let s = &self.subscribers[i];
                Ok(CallSubscriberResponse {
                    result: Subscriber {
                        id: id.clone(),
                        canister_id: s.canister_id.clone(),
                        callback: s.callback.clone(),
                        name: s.name.clone(),
                        description: s.description.clone(),
                        topic: s.topic.clone(),
                        namespace: s.namespace.clone(),
                        active: true,
                    },
                })
            },
        }
    }

    /// The subscribers whose service identity is `caller`, in registry order.
    pub fn agent_subscriptions(&self, caller: &String) -> (r: CallSubscribersResponse)
        ensures
            ({
                let f = self.subscribers@.filter(|s: Subscribers| s.canister_id@ == caller@);
                r.result@.len() == f.len() && forall|k: int| 0 <= k < r.result@.len() ==> r.result@[k].same(&f[k])
            }),
    {
        let r = self.subscribers_where(true, caller);
        let ghost by_key = |s: Subscribers| subscriber_key(s, true) == caller@;
        let ghost by_field = |s: Subscribers| s.canister_id@ == caller@;
        assert(by_key =~= by_field);
        assert(self.subscribers@.filter(by_key) == self.subscribers@.filter(by_field));
        CallSubscribersResponse { result: r }
    }

    /// Registers a peer service under its logical name; the record gets the
    /// identifier allocated at `now` and is marked active.
    pub fn canister_register(&mut self, canister: Canisters, now: u64) -> (r: Result<String, ErrorKind>)
        requires
            old(self).wf(),
        ensures
            final(self).wf(),
            r is Ok <==> !old(self).has_canister(canister.canister_name@),
            r matches Ok(id) ==> {
                &&& id@ == fresh_id(now)
                &&& final(self).canisters@.len() == old(self).canisters@.len() + 1
                &&& final(self).canisters@.drop_last() == old(self).canisters@
                &&& final(self).canisters@.last().id@ == fresh_id(now)
                &&& final(self).canisters@.last().canister_id@ == canister.canister_id@
                &&& final(self).canisters@.last().canister_name@ == canister.canister_name@
                &&& final(self).canisters@.last().name@ == canister.name@
                &&& final(self).canisters@.last().description@ == canister.description@
                &&& final(self).canisters@.last().active
            },
            r is Err ==> r == Err::<String, ErrorKind>(ErrorKind::Conflict)
                && final(self).canisters@ == old(self).canisters@,
            final(self).topics@ == old(self).topics@,
            final(self).namespaces@ == old(self).namespaces@,
            final(self).subscribers@ == old(self).subscribers@,
    {
        if self.canister_index(&canister.canister_name).is_some() {
            return Err(ErrorKind::Conflict);
        }
        let id = create_uuid(now);
        let rec = Canisters {
            id: id.clone(),
            canister_id: canister.canister_id,
            canister_name: canister.canister_name,
            name: canister.name,
            description: canister.description,
            active: true,
        };
        self.canisters.push(rec);
        assert(final(self).canisters@.drop_last() =~= old(self).canisters@);
        Ok(id)
    }

    /// Removes the peer service named `name`.
    pub fn canister_unregister(&mut self, name: &String) -> (r: Result<String, ErrorKind>)
        requires
            old(self).wf(),
        ensures
            final(self).wf(),
            r is Ok <==> old(self).has_canister(name@),
            r matches Ok(s) ==> s@ == name@ && exists|i: int|
                0 <= i < old(self).canisters@.len() && old(self).canisters@[i].canister_name@ == name@
                    && final(self).canisters@ == old(self).canisters@.remove(i),
            r is Err ==> r == Err::<String, ErrorKind>(ErrorKind::NotFound)
                && final(self).canisters@ == old(self).canisters@,
            final(self).topics@ == old(self).topics@,
            final(self).namespaces@ == old(self).namespaces@,
            final(self).subscribers@ == old(self).subscribers@,
    {
        match self.canister_index(name) {
            None => Err(ErrorKind::NotFound),
            Some(i) => {
                self.canisters.remove(i);
                Ok(name.clone())
            },
        }
    }

    /// The peer service named `name`.
    pub fn canister(&self, name: &String) -> (r: Option<Canisters>)
        ensures
            r is Some <==> self.has_canister(name@),
            r matches Some(c) ==> exists|i: int|
                0 <= i < self.canisters@.len() && self.canisters@[i].canister_name@ == name@
                    && c.same(&self.canisters@[i]),
    {
        match self.canister_index(name) {
            None => None,
            Some(i) => Some(self.canisters[i].duplicate()),
        }
    }

    /// All peer services, in registry order.
    pub fn canisters(&self) -> (r: Vec<Canisters>)
        ensures
            r@.len() == self.canisters@.len(),
            forall|k: int| 0 <= k < r@.len() ==> r@[k].same(&self.canisters@[k]),
    {
        let mut r: Vec<Canisters> = Vec::new();
        let mut i: usize = 0;
        while i < self.canisters.len()
            invariant
                i <= self.canisters@.len(),
                r@.len() == i,
                forall|k: int| 0 <= k < i ==> r@[k].same(&self.canisters@[k]),
            decreases self.canisters.len() - i,
        {
            r.push(self.canisters[i].duplicate());
            i = i + 1;
        }
        r
    }

    /// What `canisters_remote_set` sends: every peer except the registry itself
    /// (`targets`, by service identity) is told the name and identity of every
    /// peer, the registry included (`entries`).
    pub fn canisters_remote_set(&self) -> (r: RemotePlan)
        ensures
            ({
                let f = self.canisters@.filter(|c: Canisters| c.canister_name@ != "registry_backend"@);
                &&& r.targets@.len() == f.len()
                &&& forall|k: int| 0 <= k < r.targets@.len() ==> r.targets@[k]@ == f[k].canister_id@
            }),
            r.entries@.len() == self.canisters@.len(),
            forall|k: int| 0 <= k < r.entries@.len() ==> r.entries@[k].0@ == self.canisters@[k].canister_name@
                && r.entries@[k].1@ == self.canisters@[k].canister_id@,
    {
        let registry_key = String::from_str("registry_backend");
        let ghost pred = |c: Canisters| c.canister_name@ != "registry_backend"@;
        let mut targets: Vec<String> = Vec::new();
        let mut entries: Vec<(String, String)> = Vec::new();
        let mut i: usize = 0;
        while i < self.canisters.len()
            invariant
                i <= self.canisters@.len(),
                registry_key@ == "registry_backend"@,
                pred == (|c: Canisters| c.canister_name@ != "registry_backend"@),
                targets@.len() == self.canisters@.subrange(0, i as int).filter(pred).len(),
                forall|k: int| 0 <= k < targets@.len() ==> targets@[k]@ == self.canisters@.subrange(
                    0,
                    i as int,
                ).filter(pred)[k].canister_id@,
                entries@.len() == i,
                forall|k: int| 0 <= k < i ==> entries@[k].0@ == self.canisters@[k].canister_name@
                    && entries@[k].1@ == self.canisters@[k].canister_id@,
            decreases self.canisters.len() - i,
        {
            proof {
                reveal(Seq::filter);
                let s1 = self.canisters@.subrange(0, i + 1);
                assert(s1.drop_last() =~= self.canisters@.subrange(0, i as int));
                assert(s1.last() == self.canisters@[i as int]);
            }
            let c = &self.canisters[i];
            if c.canister_name != registry_key {
                targets.push(c.canister_id.clone());
            }
            entries.push((c.canister_name.clone(), c.canister_id.clone()));
            i = i + 1;
        }
        assert(self.canisters@.subrange(0, self.canisters@.len() as int) =~= self.canisters@);
        RemotePlan { targets, entries }
    }
}

/// The calls of one address-book broadcast: each target is sent every entry.
pub struct RemotePlan {
    pub targets: Vec<String>,
    pub entries: Vec<(String, String)>,
}

/// `ids` with every occurrence of `x` removed, order kept.
pub fn remove_all(ids: &Vec<String>, x: &String) -> (r: Vec<String>)
    ensures
        r@ == without_id(ids@, x@),
{
    let ghost pred = kept_by(x@);
    let mut v: Vec<String> = Vec::new();
    let mut i: usize = 0;
    while i < ids.len()
        invariant
            i <= ids@.len(),
            pred == kept_by(x@),
            v@ == ids@.subrange(0, i as int).filter(pred),
        decreases ids.len() - i,
    {
        proof {
            reveal(Seq::filter);
            let s1 = ids@.subrange(0, i + 1);
            assert(s1.drop_last() =~= ids@.subrange(0, i as int));
            assert(s1.last() == ids@[i as int]);
        }
        if ids[i] != *x {
            v.push(ids[i].clone());
        }
        i = i + 1;
    }
    assert(ids@.subrange(0, ids@.len() as int) =~= ids@);
    v
}

/// The field that `Registry::subscribers_where` selects on.
pub open spec fn subscriber_key(s: Subscribers, by_caller: bool) -> Seq<char> {
    if by_caller { s.canister_id@ } else { s.topic@ }
}

/// Whether some element of `ids` has the characters `id`.
pub open spec fn has_id(ids: Seq<String>, id: Seq<char>) -> bool {
    exists|k: int| 0 <= k < ids.len() && ids[k]@ == id
}

/// Whether `id` occurs in `ids`.
pub fn contains_id(ids: &Vec<String>, id: &String) -> (r: bool)
    ensures
        r == has_id(ids@, id@),
{
    let mut i: usize = 0;
    while i < ids.len()
        invariant
            i <= ids@.len(),
            forall|k: int| 0 <= k < i ==> ids@[k]@ != id@,
        decreases ids.len() - i,
    {
        if ids[i] == *id {
            return true;
        }
        i = i + 1;
    }
    false
}

} // verus!

verus! {

/// Taking out an id that does not occur leaves a list as it is.
pub proof fn lemma_without_absent(l: Seq<String>, x: Seq<char>)
    requires
        !has_id(l, x),
    ensures
        without_id(l, x) == l,
    decreases l.len(),
{
    reveal(Seq::filter);
    if l.len() > 0 {
        let d = l.drop_last();
        assert(!has_id(d, x)) by {
            if has_id(d, x) {
                let k = choose|k: int| 0 <= k < d.len() && d[k]@ == x;
                assert(l[k] == d[k]);
            }
        }
        lemma_without_absent(d, x);
        assert(l.last()@ != x) by {
            assert(l[l.len() - 1] == l.last());
        }
        assert(d.push(l.last()) =~= l);
    }
}

/// A subscriber is listed by `subscribers_by_topic(topic_id)` exactly when its
/// `topic` is `topic_id`.
pub proof fn lemma_subscribers_by_topic_exact(reg: &Registry, topic_id: Seq<char>, s: int)
    requires
        0 <= s < reg.subscribers@.len(),
    ensures
        reg.subscribers@.filter(|x: Subscribers| x.topic@ == topic_id).contains(reg.subscribers@[s])
            <==> reg.subscribers@[s].topic@ == topic_id,
{
    broadcast use vstd::seq_lib::group_filter_ensures;

    let pred = |x: Subscribers| x.topic@ == topic_id;
    let f = reg.subscribers@.filter(pred);
    if f.contains(reg.subscribers@[s]) {
        let k = choose|k: int| 0 <= k < f.len() && f[k] == reg.subscribers@[s];
        assert(pred(f[k]));
    }
}

/// Subscribing and then unsubscribing the returned id gives the namespace back
/// its member list: appending a fresh id and then taking out every occurrence
/// of it restores the list.
pub proof fn lemma_subscribe_unsubscribe_restores(members: Seq<String>, id: String)
    requires
        !has_id(members, id@),
    ensures
        without_id(members.push(id), id@) == members,
{
    reveal(Seq::filter);
    assert(members.push(id).drop_last() =~= members);
    lemma_without_absent(members, id@);
}

} // verus!

verus! {

/// Membership in a list grown by one element.
pub proof fn lemma_has_id_push(l: Seq<String>, e: String, x: Seq<char>)
    ensures
        has_id(l.push(e), x) <==> has_id(l, x) || e@ == x,
{
    if has_id(l, x) {
        let k = choose|k: int| 0 <= k < l.len() && l[k]@ == x;
        assert(l.push(e)[k] == l[k]);
    }
    if e@ == x {
        assert(l.push(e)[l.len() as int] == e);
    }
    if has_id(l.push(e), x) {
        let k = choose|k: int| 0 <= k < l.push(e).len() && l.push(e)[k]@ == x;
        if k < l.len() {
            assert(l.push(e)[k] == l[k]);
        }
    }
}

/// Membership in a list after every occurrence of `y` is taken out.
pub proof fn lemma_has_id_without(l: Seq<String>, y: Seq<char>, x: Seq<char>)
    ensures
        has_id(without_id(l, y), x) <==> has_id(l, x) && x != y,
{
    broadcast use vstd::seq_lib::group_filter_ensures;

    let pred = kept_by(y);
    let f = l.filter(pred);
    if has_id(f, x) {
        let k = choose|k: int| 0 <= k < f.len() && f[k]@ == x;
        assert(pred(f[k]));
        assert(f.contains(f[k]));
        l.lemma_filter_contains_rev(pred, f[k]);
        let j = choose|j: int| 0 <= j < l.len() && l[j] == f[k];
        assert(l[j]@ == x);
    }
    if has_id(l, x) && x != y {
        let k = choose|k: int| 0 <= k < l.len() && l[k]@ == x;
        assert(pred(l[k]));
        assert(f.contains(l[k]));
        let j = choose|j: int| 0 <= j < f.len() && f[j] == l[k];
        assert(f[j]@ == x);
        assert(has_id(f, x));
    }
}

/// Adding subscriber `id` to namespace `m`, with a record that names `m`, keeps
/// every namespace's member list in step with the records.
pub proof fn lemma_subscribe_keeps_placement(o: &Registry, n: &Registry, m: int, id: String)
    requires
        o.wf(),
        n.wf(),
        o.placement_consistent(),
        !o.has_subscriber(id@),
        0 <= m < o.namespaces@.len(),
        n.subscribers@.len() == o.subscribers@.len() + 1,
        n.subscribers@.drop_last() == o.subscribers@,
        n.subscribers@.last().id@ == id@,
        n.subscribers@.last().namespace@ == o.namespaces@[m].id@,
        n.namespaces@.len() == o.namespaces@.len(),
        n.namespaces@[m].subscribers@ == o.namespaces@[m].subscribers@.push(id),
        n.namespaces@[m].id@ == o.namespaces@[m].id@,
        forall|j: int| 0 <= j < n.namespaces@.len() && j != m ==> n.namespaces@[j] == o.namespaces@[j],
    ensures
        n.placement_consistent(),
{
    let last = o.subscribers@.len() as int;
    assert forall|k: int| 0 <= k < last implies n.subscribers@[k] == o.subscribers@[k] by {
        assert(n.subscribers@.drop_last()[k] == n.subscribers@[k]);
    }
    assert(n.subscribers@[last] == n.subscribers@.last());
    assert forall|j: int, x: Seq<char>| 0 <= j < n.namespaces@.len() implies (#[trigger] has_id(
        n.namespaces@[j].subscribers@,
        x,
    ) <==> exists|s: int|
        0 <= s < n.subscribers@.len() && n.subscribers@[s].id@ == x && n.subscribers@[s].namespace@
            == n.namespaces@[j].id@) by {
        let old_rhs = exists|s: int|
            0 <= s < o.subscribers@.len() && o.subscribers@[s].id@ == x && o.subscribers@[s].namespace@
                == o.namespaces@[j].id@;
        assert(has_id(o.namespaces@[j].subscribers@, x) == old_rhs);
        assert(n.namespaces@[j].id@ == o.namespaces@[j].id@);
        if old_rhs {
            let s = choose|s: int|
                0 <= s < o.subscribers@.len() && o.subscribers@[s].id@ == x && o.subscribers@[s].namespace@
                    == o.namespaces@[j].id@;
            assert(n.subscribers@[s] == o.subscribers@[s]);
        }
        if exists|s: int|
            0 <= s < n.subscribers@.len() && n.subscribers@[s].id@ == x && n.subscribers@[s].namespace@
                == n.namespaces@[j].id@ {
            let s = choose|s: int|
                0 <= s < n.subscribers@.len() && n.subscribers@[s].id@ == x && n.subscribers@[s].namespace@
                    == n.namespaces@[j].id@;
            if s < last {
                assert(n.subscribers@[s] == o.subscribers@[s]);
            } else {
                assert(o.namespaces@[j].id@ == o.namespaces@[m].id@);
                assert(j == m);
            }
        }
        if j == m {
            lemma_has_id_push(o.namespaces@[m].subscribers@, id, x);
        } else if x == id@ {
            assert(!old_rhs);
        }
    }
}

/// Taking subscriber `s0` out of its namespace `m` and deleting its record keeps
/// every namespace's member list in step with the records.
pub proof fn lemma_unsubscribe_keeps_placement(o: &Registry, n: &Registry, s0: int, m: int)
    requires
        o.wf(),
        n.wf(),
        o.placement_consistent(),
        0 <= s0 < o.subscribers@.len(),
        0 <= m < o.namespaces@.len(),
        o.namespaces@[m].id@ == o.subscribers@[s0].namespace@,
        n.subscribers@ == o.subscribers@.remove(s0),
        n.namespaces@.len() == o.namespaces@.len(),
        n.namespaces@[m].subscribers@ == without_id(o.namespaces@[m].subscribers@, o.subscribers@[s0].id@),
        n.namespaces@[m].id@ == o.namespaces@[m].id@,
        forall|j: int| 0 <= j < n.namespaces@.len() && j != m ==> n.namespaces@[j] == o.namespaces@[j],
    ensures
        n.placement_consistent(),
{
    let sid = o.subscribers@[s0].id@;
    assert forall|j: int, x: Seq<char>| 0 <= j < n.namespaces@.len() implies (#[trigger] has_id(
        n.namespaces@[j].subscribers@,
        x,
    ) <==> exists|s: int|
        0 <= s < n.subscribers@.len() && n.subscribers@[s].id@ == x && n.subscribers@[s].namespace@
            == n.namespaces@[j].id@) by {
        let old_rhs = exists|s: int|
            0 <= s < o.subscribers@.len() && o.subscribers@[s].id@ == x && o.subscribers@[s].namespace@
                == o.namespaces@[j].id@;
        assert(has_id(o.namespaces@[j].subscribers@, x) == old_rhs);
        assert(n.namespaces@[j].id@ == o.namespaces@[j].id@);
        if old_rhs {
            let s = choose|s: int|
                0 <= s < o.subscribers@.len() && o.subscribers@[s].id@ == x && o.subscribers@[s].namespace@
                    == o.namespaces@[j].id@;
            if s < s0 {
                assert(n.subscribers@[s] == o.subscribers@[s]);
            } else if s > s0 {
                assert(n.subscribers@[s - 1] == o.subscribers@[s]);
            } else {
                assert(j == m);
            }
        }
        if exists|s: int|
            0 <= s < n.subscribers@.len() && n.subscribers@[s].id@ == x && n.subscribers@[s].namespace@
                == n.namespaces@[j].id@ {
            let s = choose|s: int|
                0 <= s < n.subscribers@.len() && n.subscribers@[s].id@ == x && n.subscribers@[s].namespace@
                    == n.namespaces@[j].id@;
            let os = if s < s0 { s } else { s + 1 };
            assert(n.subscribers@[s] == o.subscribers@[os]);
            assert(os != s0);
            assert(x != sid);
        }
        if j == m {
            lemma_has_id_without(o.namespaces@[m].subscribers@, sid, x);
        }
    }
}

} // verus!
