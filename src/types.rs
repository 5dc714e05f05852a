use vstd::prelude::*;

verus! {

/// Copies a list of identifiers.
pub fn copy_ids(v: &Vec<String>) -> (r: Vec<String>)
    ensures
        r@ == v@,
{
    let mut r: Vec<String> = Vec::new();
    let mut i: usize = 0;
    while i < v.len()
        invariant
            i <= v.len(),
            r@ == v@.subrange(0, i as int),
        decreases v.len() - i,
    {
        r.push(v[i].clone());
        i = i + 1;
    }
    assert(r@ =~= v@);
    r
}

/// A topic as submitted for registration.
pub struct Topic {
    pub name: String,
    pub description: String,
    pub namespaces: Vec<String>,
    pub active: bool,
}

/// A registered topic with its identifier.
pub struct Topics {
    pub id: String,
    pub name: String,
    pub description: String,
    pub namespaces: Vec<String>,
    pub active: bool,
}

impl Topics {
    pub open spec fn same(&self, o: &Topics) -> bool {
        &&& self.id@ == o.id@
        &&& self.name@ == o.name@
        &&& self.description@ == o.description@
        &&& self.namespaces@ == o.namespaces@
        &&& self.active == o.active
    }

    pub fn duplicate(&self) -> (r: Topics)
        ensures
            r.same(self),
    {
        Topics {
            id: self.id.clone(),
            name: self.name.clone(),
            description: self.description.clone(),
            namespaces: copy_ids(&self.namespaces),
            active: self.active,
        }
    }
}

/// A namespace as submitted for registration.
pub struct Namespace {
    pub name: String,
    pub description: String,
    pub subscribers: Vec<String>,
    pub active: bool,
}

/// A registered namespace with its identifier and member subscribers.
pub struct Namespaces {
    pub id: String,
    pub name: String,
    pub description: String,
    pub subscribers: Vec<String>,
    pub active: bool,
}

impl Namespaces {
    pub open spec fn same(&self, o: &Namespaces) -> bool {
        &&& self.id@ == o.id@
        &&& self.name@ == o.name@
        &&& self.description@ == o.description@
        &&& self.subscribers@ == o.subscribers@
        &&& self.active == o.active
    }

    pub fn duplicate(&self) -> (r: Namespaces)
        ensures
            r.same(self),
    {
        Namespaces {
            id: self.id.clone(),
            name: self.name.clone(),
            description: self.description.clone(),
            subscribers: copy_ids(&self.subscribers),
            active: self.active,
        }
    }
}

/// A delivery target: a callback procedure on a subscriber service.
pub struct Subscribers {
    pub id: String,
    pub canister_id: String,
    pub callback: String,
    pub name: String,
    pub description: String,
    pub topic: String,
    pub namespace: String,
    pub active: bool,
}

impl Subscribers {
    pub open spec fn same(&self, o: &Subscribers) -> bool {
        &&& self.id@ == o.id@
        &&& self.canister_id@ == o.canister_id@
        &&& self.callback@ == o.callback@
        &&& self.name@ == o.name@
        &&& self.description@ == o.description@
        &&& self.topic@ == o.topic@
        &&& self.namespace@ == o.namespace@
        &&& self.active == o.active
    }

    pub fn duplicate(&self) -> (r: Subscribers)
        ensures
            r.same(self),
    {
        Subscribers {
            id: self.id.clone(),
            canister_id: self.canister_id.clone(),
            callback: self.callback.clone(),
            name: self.name.clone(),
            description: self.description.clone(),
            topic: self.topic.clone(),
            namespace: self.namespace.clone(),
            active: self.active,
        }
    }
}

/// A single subscription as reported back to the subscribing agent.
pub struct Subscriber {
    pub id: String,
    pub canister_id: String,
    pub callback: String,
    pub name: String,
    pub description: String,
    pub topic: String,
    pub namespace: String,
    pub active: bool,
}

/// A known service in the fleet, keyed by its logical name.
pub struct Canisters {
    pub id: String,
    pub canister_id: String,
    pub canister_name: String,
    pub name: String,
    pub description: String,
    pub active: bool,
}

impl Canisters {
    pub open spec fn same(&self, o: &Canisters) -> bool {
        &&& self.id@ == o.id@
        &&& self.canister_id@ == o.canister_id@
        &&& self.canister_name@ == o.canister_name@
        &&& self.name@ == o.name@
        &&& self.description@ == o.description@
        &&& self.active == o.active
    }

    pub fn duplicate(&self) -> (r: Canisters)
        ensures
            r.same(self),
    {
        Canisters {
            id: self.id.clone(),
            canister_id: self.canister_id.clone(),
            canister_name: self.canister_name.clone(),
            name: self.name.clone(),
            description: self.description.clone(),
            active: self.active,
        }
    }
}

pub struct CallStringResponse {
    pub result: String,
}

pub struct CallSubscriberResponse {
    pub result: Subscriber,
}

pub struct CallSubscribersResponse {
    pub result: Vec<Subscribers>,
}

} // verus!
