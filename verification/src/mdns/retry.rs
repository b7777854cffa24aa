//! The services that are announced again and again.
use crate::mdns::resolved::{Service, ServiceModel};
use vstd::prelude::*;

verus! {

/// The models of a list of services.
pub open spec fn service_models(services: Seq<Service>) -> Seq<ServiceModel> {
    services.map_values(|s: Service| s@)
}

/// Whether no two services have the same full name.
pub open spec fn are_distinct(services: Seq<ServiceModel>) -> bool {
    forall|i: int, j: int|
        0 <= i < j < services.len() ==> (#[trigger] services[i]).fullname != (
        #[trigger] services[j]).fullname
}

/// The position of the service with a full name, if it is there.
pub open spec fn position(services: Seq<ServiceModel>, name: Seq<char>) -> Option<int>
    decreases services.len(),
{
    if services.len() == 0 {
        None
    } else if services[0].fullname == name {
        Some(0)
    } else {
        match position(services.skip(1), name) {
            Some(i) => Some(i + 1),
            None => None,
        }
    }
}

/// Services with another one, which takes the place of one with the same full name.
pub open spec fn with_service(services: Seq<ServiceModel>, service: ServiceModel) -> Seq<
    ServiceModel,
> {
    match position(services, service.fullname) {
        Some(i) => services.update(i, service),
        None => services.push(service),
    }
}

/// Services without the one with a full name.
pub open spec fn without_service(services: Seq<ServiceModel>, name: Seq<char>) -> Seq<
    ServiceModel,
> {
    services.filter(|s: ServiceModel| s.fullname != name)
}

proof fn lemma_position(services: Seq<ServiceModel>, name: Seq<char>)
    ensures
        match position(services, name) {
            Some(i) => 0 <= i < services.len() && services[i].fullname == name && forall|j: int|
                0 <= j < i ==> (#[trigger] services[j]).fullname != name,
            None => forall|j: int|
                0 <= j < services.len() ==> (#[trigger] services[j]).fullname != name,
        },
    decreases services.len(),
{
    if services.len() > 0 && services[0].fullname != name {
        let rest = services.skip(1);
        lemma_position(rest, name);
        let bound = match position(rest, name) {
            Some(i) => i + 1,
            None => services.len() as int,
        };
        assert forall|j: int| 0 <= j < bound implies (#[trigger] services[j]).fullname != name by {
            if j > 0 {
                assert(rest[j - 1] == services[j]);
            }
        }
    }
}

/// The services on the network, each under its full name.
#[derive(Debug)]
pub struct RetrySet {
    services: Vec<Service>,
}

impl View for RetrySet {
    type V = Seq<ServiceModel>;

    closed spec fn view(&self) -> Seq<ServiceModel> {
        service_models(self.services@)
    }
}

impl RetrySet {
    /// No two services have the same full name.
    pub open spec fn wf(self) -> bool {
        are_distinct(self@)
    }

    /// A set without services.
    pub fn new() -> (r: RetrySet)
        ensures
            r.wf(),
            r@ == Seq::<ServiceModel>::empty(),
    {
        let services: Vec<Service> = Vec::new();
        assert(service_models(services@) =~= Seq::empty());
        RetrySet { services }
    }

    /// How many services there are.
    pub fn len(&self) -> (r: usize)
        ensures
            r == self@.len(),
    {
        self.services.len()
    }

    /// The service at a position.
    pub fn get(&self, i: usize) -> (r: &Service)
        requires
            i < self@.len(),
        ensures
            r@ == self@[i as int],
            self@.len() <= usize::MAX,
    {
        assert(self.services.len() == self.services@.len());
        &self.services[i]
    }

    /// Puts a service into the set, in the place of one with the same full name.
    pub fn insert(&mut self, service: Service)
        requires
            old(self).wf(),
        ensures
            final(self).wf(),
            final(self)@ == with_service(old(self)@, service@),
    {
        let ghost all = self@;
        let ghost name = service.fullname@;
        proof {
            lemma_position(all, name);
            law_insert_keeps_distinct(all, service@);
        }
        let mut i: usize = 0;
        while i < self.services.len()
            invariant
                i <= self.services@.len(),
                all == self@,
                all == old(self)@,
                name == service.fullname@,
                are_distinct(with_service(all, service@)),
                forall|j: int| 0 <= j < i ==> (#[trigger] all[j]).fullname != name,
            decreases self.services@.len() - i,
        {
            assert(all[i as int] == self.services@[i as int]@);
            if self.services[i].fullname == service.fullname {
                proof {
                    lemma_position(all, name);
                }
                self.services.set(i, service);
                assert(self@ =~= all.update(i as int, service@));
                return ;
            }
            i += 1;
        }
        proof {
            lemma_position(all, name);
        }
        self.services.push(service);
        assert(self@ =~= all.push(service@));
    }

    /// Takes the service with a full name out of the set, if it is there.
    pub fn remove(&mut self, fullname: &String)
        requires
            old(self).wf(),
        ensures
            final(self).wf(),
            final(self)@ == without_service(old(self)@, fullname@),
    {
        let ghost all = self@;
        let ghost name = fullname@;
        proof {
            lemma_position(all, name);
            law_remove_keeps_distinct(all, name);
        }
        let mut i: usize = 0;
        while i < self.services.len()
            invariant
                i <= self.services@.len(),
                all == self@,
                all == old(self)@,
                name == fullname@,
                are_distinct(all),
                are_distinct(without_service(all, name)),
                forall|j: int| 0 <= j < i ==> (#[trigger] all[j]).fullname != name,
            decreases self.services@.len() - i,
        {
            assert(all[i as int] == self.services@[i as int]@);
            if self.services[i].fullname == *fullname {
                let _ = self.services.remove(i);
                assert(self@ =~= all.remove(i as int));
                proof {
                    lemma_remove_one(all, name, i as int);
                }
                return ;
            }
            i += 1;
        }
        proof {
            lemma_remove_none(all, name);
        }
    }
}

proof fn lemma_remove_none(services: Seq<ServiceModel>, name: Seq<char>)
    requires
        forall|j: int| 0 <= j < services.len() ==> (#[trigger] services[j]).fullname != name,
    ensures
        without_service(services, name) == services,
    decreases services.len(),
{
    reveal(Seq::filter);
    if services.len() > 0 {
        let front = services.drop_last();
        assert forall|j: int| 0 <= j < front.len() implies (#[trigger] front[j]).fullname != name by {
            assert(front[j] == services[j]);
        }
        lemma_remove_none(front, name);
        assert(front.push(services.last()) =~= services);
    }
}

proof fn lemma_remove_one(services: Seq<ServiceModel>, name: Seq<char>, i: int)
    requires
        are_distinct(services),
        0 <= i < services.len(),
        services[i].fullname == name,
    ensures
        without_service(services, name) == services.remove(i),
    decreases services.len(),
{
    reveal(Seq::filter);
    let front = services.drop_last();
    if i == front.len() {
        assert forall|j: int| 0 <= j < front.len() implies (#[trigger] front[j]).fullname != name by {
            assert(front[j] == services[j]);
        }
        lemma_remove_none(front, name);
        assert(services.remove(i) =~= front);
    } else {
        assert(are_distinct(front)) by {
            assert forall|a: int, b: int| 0 <= a < b < front.len() implies (
            #[trigger] front[a]).fullname != (#[trigger] front[b]).fullname by {
                assert(front[a] == services[a] && front[b] == services[b]);
            }
        }
        assert(front[i] == services[i]);
        lemma_remove_one(front, name, i);
        assert(services.last().fullname != name);
        assert(services.remove(i) =~= front.remove(i).push(services.last()));
    }
}

/// Putting a service into a set keeps the full names distinct.
pub proof fn law_insert_keeps_distinct(services: Seq<ServiceModel>, service: ServiceModel)
    requires
        are_distinct(services),
    ensures
        are_distinct(with_service(services, service)),
{
    lemma_position(services, service.fullname);
    let new = with_service(services, service);
    assert forall|i: int, j: int| 0 <= i < j < new.len() implies (#[trigger] new[i]).fullname != (
    #[trigger] new[j]).fullname by {
        if i < services.len() && j < services.len() {
            assert(services[i].fullname != services[j].fullname);
        }
    }
}

/// Taking a service out of a set keeps the full names distinct.
pub proof fn law_remove_keeps_distinct(services: Seq<ServiceModel>, name: Seq<char>)
    requires
        are_distinct(services),
    ensures
        are_distinct(without_service(services, name)),
{
    lemma_position(services, name);
    match position(services, name) {
        Some(i) => {
            lemma_remove_one(services, name, i);
            let new = services.remove(i);
            assert forall|a: int, b: int| 0 <= a < b < new.len() implies (
            #[trigger] new[a]).fullname != (#[trigger] new[b]).fullname by {
                let x = if a < i {
                    a
                } else {
                    a + 1
                };
                let y = if b < i {
                    b
                } else {
                    b + 1
                };
                assert(new[a] == services[x] && new[b] == services[y]);
            }
        },
        None => {
            lemma_remove_none(services, name);
        },
    }
}

/// The service with a full name, if it is there.
pub open spec fn lookup(services: Seq<ServiceModel>, name: Seq<char>) -> Option<ServiceModel> {
    match position(services, name) {
        Some(i) => Some(services[i]),
        None => None,
    }
}

/// A set of services is a map from full names: after a service was put in, it is found under its
/// full name, and every other name is as before.
pub proof fn law_insert_is_found(
    services: Seq<ServiceModel>,
    service: ServiceModel,
    name: Seq<char>,
)
    requires
        are_distinct(services),
    ensures
        lookup(with_service(services, service), name) == if name == service.fullname {
            Some(service)
        } else {
            lookup(services, name)
        },
{
    let new = with_service(services, service);
    lemma_position(services, service.fullname);
    lemma_position(services, name);
    lemma_position(new, name);
    law_insert_keeps_distinct(services, service);
    if name == service.fullname {
        let at = match position(services, name) {
            Some(i) => i,
            None => services.len() as int,
        };
        assert(new[at] == service);
    } else if let Some(i) = position(services, name) {
        assert(new[i] == services[i]);
    } else if let Some(i) = position(new, name) {
        assert(i < services.len() ==> new[i] == services[i] || new[i] == service);
    }
}

/// A set of services is a map from full names: after a name was taken out, nothing is found under
/// it, and every other name is as before.
pub proof fn law_remove_is_not_found(
    services: Seq<ServiceModel>,
    gone: Seq<char>,
    name: Seq<char>,
)
    requires
        are_distinct(services),
    ensures
        lookup(without_service(services, gone), name) == if name == gone {
            None
        } else {
            lookup(services, name)
        },
{
    let new = without_service(services, gone);
    lemma_position(services, gone);
    lemma_position(services, name);
    lemma_position(new, name);
    law_remove_keeps_distinct(services, gone);
    match position(services, gone) {
        Some(g) => {
            lemma_remove_one(services, gone, g);
            if let Some(i) = position(services, name) {
                if i < g {
                    assert(new[i] == services[i]);
                } else if i > g {
                    assert(new[i - 1] == services[i]);
                }
            }
            if let Some(i) = position(new, name) {
                let back = if i < g {
                    i
                } else {
                    i + 1
                };
                assert(new[i] == services[back]);
            }
        },
        None => {
            lemma_remove_none(services, gone);
        },
    }
}

/// Putting a service into a set, seen from its members: the new one is among them, and of the others
/// just those with other full names. It takes the place of the one with its full name, or else comes
/// last.
pub proof fn law_insert_replaces_or_appends(
    services: Seq<ServiceModel>,
    service: ServiceModel,
    i: int,
    other: ServiceModel,
)
    requires
        are_distinct(services),
    ensures
        0 <= i < services.len() && services[i].fullname == service.fullname ==> with_service(
            services,
            service,
        ) == services.update(i, service),
        (forall|j: int|
            0 <= j < services.len() ==> (#[trigger] services[j]).fullname != service.fullname)
            ==> with_service(services, service) == services.push(service),
        with_service(services, service).contains(other) <==> other == service || services.contains(other)
            && other.fullname != service.fullname,
{
    lemma_position(services, service.fullname);
    let new = with_service(services, service);
    match position(services, service.fullname) {
        Some(at) => {
            if 0 <= i < services.len() && services[i].fullname == service.fullname {
                assert(i == at);
            }
            assert(new[at] == service);
            if services.contains(other) && other.fullname != service.fullname {
                let j = choose|j: int| 0 <= j < services.len() && services[j] == other;
                assert(new[j] == other);
            }
            if new.contains(other) && other != service {
                let j = choose|j: int| 0 <= j < new.len() && new[j] == other;
                assert(services[j] == other);
                assert(services[j].fullname != services[at].fullname);
            }
        },
        None => {
            assert(new[services.len() as int] == service);
            if services.contains(other) {
                let j = choose|j: int| 0 <= j < services.len() && services[j] == other;
                assert(new[j] == other);
            }
            if new.contains(other) && other != service {
                let j = choose|j: int| 0 <= j < new.len() && new[j] == other;
                assert(services[j] == other);
            }
        },
    }
}

/// Taking a name out of a set, seen from its members: just those with other full names are left, and
/// in their order.
pub proof fn law_remove_leaves_the_others(
    services: Seq<ServiceModel>,
    name: Seq<char>,
    i: int,
    other: ServiceModel,
)
    requires
        are_distinct(services),
    ensures
        0 <= i < services.len() && services[i].fullname == name ==> without_service(services, name)
            == services.remove(i),
        (forall|j: int| 0 <= j < services.len() ==> (#[trigger] services[j]).fullname != name)
            ==> without_service(services, name) == services,
        without_service(services, name).contains(other) <==> services.contains(other) && other.fullname
            != name,
{
    lemma_position(services, name);
    let new = without_service(services, name);
    match position(services, name) {
        Some(at) => {
            lemma_remove_one(services, name, at);
            if 0 <= i < services.len() && services[i].fullname == name {
                assert(i == at);
            }
            if services.contains(other) && other.fullname != name {
                let j = choose|j: int| 0 <= j < services.len() && services[j] == other;
                if j < at {
                    assert(new[j] == other);
                } else {
                    assert(new[j - 1] == other);
                }
            }
            if new.contains(other) {
                let j = choose|j: int| 0 <= j < new.len() && new[j] == other;
                let back = if j < at {
                    j
                } else {
                    j + 1
                };
                assert(services[back] == other);
                assert(services[back].fullname != services[at].fullname);
            }
        },
        None => {
            lemma_remove_none(services, name);
            if services.contains(other) {
                let j = choose|j: int| 0 <= j < services.len() && services[j] == other;
                assert(services[j].fullname != name);
            }
        },
    }
}

/// Looking a name up gives the member with that full name, if there is one.
pub proof fn law_lookup_finds_the_member(
    services: Seq<ServiceModel>,
    name: Seq<char>,
    service: ServiceModel,
)
    requires
        are_distinct(services),
    ensures
        lookup(services, name) == Some(service) <==> services.contains(service) && service.fullname
            == name,
        lookup(services, name) is None <==> forall|j: int|
            0 <= j < services.len() ==> (#[trigger] services[j]).fullname != name,
{
    lemma_position(services, name);
    if services.contains(service) && service.fullname == name {
        let j = choose|j: int| 0 <= j < services.len() && services[j] == service;
        let at = position(services, name)->0;
        if j != at {
            assert(services[j].fullname != services[at].fullname);
        }
    }
}

/// The models of a list of services are those of all its members, in their order.
pub proof fn law_models_are_those_of_the_services(services: Seq<Service>, i: int)
    ensures
        service_models(services).len() == services.len(),
        0 <= i < services.len() ==> service_models(services)[i] == services[i]@,
{
}

} // verus!
