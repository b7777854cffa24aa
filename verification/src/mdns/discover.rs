//! Keeping track of the services on the network, and announcing them again and again.
use crate::mdns::announce::{
    announce, law_announce_ends, law_only_a_lost_manager_is_an_error,
    law_service_type_is_spelled_out, service_name, service_name_text, Announce, Answer, Request,
    RequestModel,
};
use crate::mdns::resolved::{Service, ServiceModel};
use crate::mdns::retry::{
    are_distinct, law_insert_is_found, law_insert_keeps_distinct, law_remove_is_not_found,
    law_remove_keeps_distinct, lookup, with_service, without_service, RetrySet,
};
use vstd::prelude::*;

verus! {

/// How often known services are announced again, in seconds.
///
/// That a service is resolved has nothing to do with whether the last time could be used: a
/// pairing record that is written afterwards, or a device that was asleep, brings no new event.
/// So services are kept and announced again; the manager drops those that it has.
pub const RETRY_INTERVAL_SECS: u64 = 30;

/// Something that happens while services are discovered.
#[derive(Debug)]
pub enum Event {
    /// A service was resolved.
    Resolved(Service),
    /// The service with a full name has left the network.
    Removed(String),
    /// Browsing has brought something else.
    Other,
    /// Browsing has ended.
    Closed,
    /// It is time to announce the known services again.
    Tick,
    /// A request was answered.
    Answered(Answer<String>),
}

/// The model of an [`Event`].
pub enum EventModel {
    Resolved(ServiceModel),
    Removed(Seq<char>),
    Other,
    Closed,
    Tick,
    Answered(Answer<Seq<char>>),
}

impl View for Event {
    type V = EventModel;

    open spec fn view(&self) -> EventModel {
        match *self {
            Event::Resolved(service) => EventModel::Resolved(service@),
            Event::Removed(fullname) => EventModel::Removed(fullname@),
            Event::Other => EventModel::Other,
            Event::Closed => EventModel::Closed,
            Event::Tick => EventModel::Tick,
            Event::Answered(answer) => EventModel::Answered(answer@),
        }
    }
}

/// What discovery is at.
#[derive(Debug)]
pub enum Phase {
    /// Waiting for something to happen.
    Waiting,
    /// Announcing a service that was resolved just now.
    Fresh { service: Service, at: Announce<String> },
    /// Announcing the known services again, and among them the one at a position.
    Retry { index: usize, at: Announce<String> },
    /// Nothing more.
    Stopped,
}

/// The model of a [`Phase`].
pub enum PhaseModel {
    Waiting,
    Fresh { service: ServiceModel, at: Announce<Seq<char>> },
    Retry { index: int, at: Announce<Seq<char>> },
    Stopped,
}

impl View for Phase {
    type V = PhaseModel;

    open spec fn view(&self) -> PhaseModel {
        match *self {
            Phase::Waiting => PhaseModel::Waiting,
            Phase::Fresh { service, at } => PhaseModel::Fresh { service: service@, at: at@ },
            Phase::Retry { index, at } => PhaseModel::Retry { index: index as int, at: at@ },
            Phase::Stopped => PhaseModel::Stopped,
        }
    }
}

/// What is to be done next.
#[derive(Debug, PartialEq, Eq)]
pub enum Action {
    /// Wait until something happens.
    Wait,
    /// Make a request and say what came of it.
    Ask(Request),
    /// Stop discovering.
    Stop,
}

/// The model of an [`Action`].
pub enum ActionModel {
    Wait,
    Ask(RequestModel),
    Stop,
}

impl View for Action {
    type V = ActionModel;

    open spec fn view(&self) -> ActionModel {
        match *self {
            Action::Wait => ActionModel::Wait,
            Action::Ask(request) => ActionModel::Ask(request@),
            Action::Stop => ActionModel::Stop,
        }
    }
}

/// The state of discovery: the services on the network, and what is being done about them.
#[derive(Debug)]
pub struct Discovery {
    services: RetrySet,
    phase: Phase,
}

/// The model of a [`Discovery`].
pub struct DiscoveryModel {
    pub services: Seq<ServiceModel>,
    pub phase: PhaseModel,
}

impl View for Discovery {
    type V = DiscoveryModel;

    closed spec fn view(&self) -> DiscoveryModel {
        DiscoveryModel { services: self.services@, phase: self.phase@ }
    }
}

/// What follows in a round of announcing services again, from position `from` on: the first
/// service there that there is something to be done for, or the end of the round.
pub open spec fn resumed(services: Seq<ServiceModel>, from: int) -> PhaseModel
    decreases services.len() - from,
{
    if from >= services.len() {
        PhaseModel::Waiting
    } else if Announce::start(services[from]) is Finished {
        resumed(services, from + 1)
    } else {
        PhaseModel::Retry { index: from, at: Announce::start(services[from]) }
    }
}

impl DiscoveryModel {
    /// The start of discovery: no services are known.
    pub open spec fn start() -> DiscoveryModel {
        DiscoveryModel { services: Seq::empty(), phase: PhaseModel::Waiting }
    }

    /// No two services have the same full name, and what is being done is about a service that
    /// has what it takes.
    pub open spec fn wf(self) -> bool {
        &&& are_distinct(self.services)
        &&& match self.phase {
            PhaseModel::Fresh { service, at } => !(at is Finished) && at.fits(service),
            PhaseModel::Retry { index, at } => {
                &&& 0 <= index < self.services.len()
                &&& !(at is Finished)
                &&& at.fits(self.services[index])
            },
            _ => true,
        }
    }

    /// What is to be done next.
    pub open spec fn due(self) -> ActionModel {
        match self.phase {
            PhaseModel::Waiting => ActionModel::Wait,
            PhaseModel::Fresh { service, at } => ActionModel::Ask(
                at.due(service, service_name_text())->0,
            ),
            PhaseModel::Retry { index, at } => ActionModel::Ask(
                at.due(self.services[index], service_name_text())->0,
            ),
            PhaseModel::Stopped => ActionModel::Stop,
        }
    }

    /// What follows when announcing a fresh service has got to `at`: it becomes a known one when
    /// that is done, unless the manager is gone.
    pub open spec fn with_fresh(self, service: ServiceModel, at: Announce<Seq<char>>) -> DiscoveryModel {
        match at {
            Announce::Finished(Ok(())) => DiscoveryModel {
                services: with_service(self.services, service),
                phase: PhaseModel::Waiting,
            },
            Announce::Finished(Err(())) => DiscoveryModel { phase: PhaseModel::Stopped, ..self },
            _ => DiscoveryModel { phase: PhaseModel::Fresh { service, at }, ..self },
        }
    }

    /// What follows when announcing the known service at `index` again has got to `at`: the next
    /// one when that is done, unless the manager is gone.
    pub open spec fn with_retry(self, index: int, at: Announce<Seq<char>>) -> DiscoveryModel {
        match at {
            Announce::Finished(Ok(())) => DiscoveryModel {
                phase: resumed(self.services, index + 1),
                ..self
            },
            Announce::Finished(Err(())) => DiscoveryModel { phase: PhaseModel::Stopped, ..self },
            _ => DiscoveryModel { phase: PhaseModel::Retry { index, at }, ..self },
        }
    }

    /// The state that an event leads to. While a request is out, only its answer counts; otherwise
    /// an answer does not.
    pub open spec fn next(self, event: EventModel) -> DiscoveryModel {
        match self.phase {
            PhaseModel::Waiting => match event {
                EventModel::Resolved(service) => self.with_fresh(service, Announce::start(service)),
                EventModel::Removed(fullname) => DiscoveryModel {
                    services: without_service(self.services, fullname),
                    ..self
                },
                EventModel::Tick => DiscoveryModel { phase: resumed(self.services, 0), ..self },
                EventModel::Closed => DiscoveryModel { phase: PhaseModel::Stopped, ..self },
                EventModel::Other => self,
                EventModel::Answered(_) => self,
            },
            PhaseModel::Fresh { service, at } => match event {
                EventModel::Answered(answer) => self.with_fresh(service, at.next(service, answer)),
                _ => self,
            },
            PhaseModel::Retry { index, at } => match event {
                EventModel::Answered(answer) => self.with_retry(
                    index,
                    at.next(self.services[index], answer),
                ),
                _ => self,
            },
            PhaseModel::Stopped => self,
        }
    }
}

pub(crate) proof fn lemma_resumed(services: Seq<ServiceModel>, from: int)
    requires
        0 <= from,
    ensures
        match resumed(services, from) {
            PhaseModel::Waiting => forall|k: int|
                from <= k < services.len() ==> Announce::start(#[trigger] services[k]) is Finished,
            PhaseModel::Retry { index, at } => {
                &&& from <= index < services.len()
                &&& at == Announce::start(services[index])
                &&& !(at is Finished)
                &&& at.fits(services[index])
                &&& forall|k: int|
                    from <= k < index ==> Announce::start(#[trigger] services[k]) is Finished
            },
            _ => false,
        },
    decreases services.len() - from,
{
    if from < services.len() {
        if Announce::start(services[from]) is Finished {
            lemma_resumed(services, from + 1);
        } else {
            law_announce_ends(
                Announce::Finished(Ok(())),
                services[from],
                service_name_text(),
                Answer::<Seq<char>>::Udid(None),
            );
        }
    }
}

/// Discovery stays well-formed, whatever happens.
pub proof fn law_discovery_stays_well_formed(state: DiscoveryModel, event: EventModel)
    requires
        state.wf(),
    ensures
        DiscoveryModel::start().wf(),
        state.next(event).wf(),
{
    match state.phase {
        PhaseModel::Waiting => match event {
            EventModel::Resolved(service) => {
                law_announce_ends(
                    Announce::Finished(Ok(())),
                    service,
                    service_name_text(),
                    Answer::<Seq<char>>::Udid(None),
                );
                law_insert_keeps_distinct(state.services, service);
            },
            EventModel::Removed(fullname) => {
                law_remove_keeps_distinct(state.services, fullname);
            },
            EventModel::Tick => {
                lemma_resumed(state.services, 0);
            },
            _ => {},
        },
        PhaseModel::Fresh { service, at } => {
            if let EventModel::Answered(answer) = event {
                law_announce_ends(at, service, service_name_text(), answer);
                law_insert_keeps_distinct(state.services, service);
            }
        },
        PhaseModel::Retry { index, at } => {
            if let EventModel::Answered(answer) = event {
                law_announce_ends(at, state.services[index], service_name_text(), answer);
                lemma_resumed(state.services, index + 1);
            }
        },
        PhaseModel::Stopped => {},
    }
}

impl Discovery {
    /// Whether the state is one that discovery can be in.
    pub open spec fn wf(self) -> bool {
        self@.wf()
    }

    /// The start of discovery.
    pub fn begin() -> (r: Discovery)
        ensures
            r.wf(),
            r@ == DiscoveryModel::start(),
            r@.services.len() == 0,
            r@.phase is Waiting,
    {
        Discovery { services: RetrySet::new(), phase: Phase::Waiting }
    }

    /// What is to be done next.
    pub fn action(&self) -> (r: Action)
        requires
            self.wf(),
        ensures
            r@ == self@.due(),
    {
        match &self.phase {
            Phase::Waiting => Action::Wait,
            Phase::Fresh { service, at } => {
                proof {
                    law_announce_ends(at@, service@, service_name_text(), Answer::<Seq<char>>::Udid(None));
                }
                match at.request(service, service_name().as_str()) {
                    Some(request) => Action::Ask(request),
                    None => Action::Wait,
                }
            },
            Phase::Retry { index, at } => {
                let service = self.services.get(*index);
                proof {
                    law_announce_ends(at@, service@, service_name_text(), Answer::<Seq<char>>::Udid(None));
                }
                match at.request(service, service_name().as_str()) {
                    Some(request) => Action::Ask(request),
                    None => Action::Wait,
                }
            },
            Phase::Stopped => Action::Stop,
        }
    }
}

/// What follows in a round of announcing services again, from position `from` on.
fn resume(services: &RetrySet, from: usize) -> (r: Phase)
    ensures
        r@ == resumed(services@, from as int),
{
    let mut i: usize = from;
    while i < services.len()
        invariant
            resumed(services@, from as int) == resumed(services@, i as int),
        decreases services@.len() - i,
    {
        let at = Announce::begin(services.get(i));
        match at {
            Announce::Finished(_) => {},
            _ => {
                return Phase::Retry { index: i, at };
            },
        }
        i += 1;
    }
    Phase::Waiting
}

/// Takes discovery on with something that has happened.
///
/// A service that has left the network is only no longer announced again: whether its device is
/// gone is for others to decide, since a goodbye can come while the connection is fine.
pub fn discover(state: Discovery, event: Event) -> (r: Discovery)
    requires
        state.wf(),
    ensures
        r.wf(),
        r@ == state@.next(event@),
{
    proof {
        law_discovery_stays_well_formed(state@, event@);
    }
    let mut services = state.services;
    match state.phase {
        Phase::Waiting => match event {
            Event::Resolved(service) => {
                let at = Announce::begin(&service);
                proof {
                    law_announce_ends(at@, service@, service_name_text(), Answer::<Seq<char>>::Udid(None));
                }
                settle_fresh(services, service, at)
            },
            Event::Removed(fullname) => {
                services.remove(&fullname);
                Discovery { services, phase: Phase::Waiting }
            },
            Event::Tick => {
                let phase = resume(&services, 0);
                Discovery { services, phase }
            },
            Event::Closed => Discovery { services, phase: Phase::Stopped },
            Event::Other => Discovery { services, phase: Phase::Waiting },
            Event::Answered(_) => Discovery { services, phase: Phase::Waiting },
        },
        Phase::Fresh { service, at } => match event {
            Event::Answered(answer) => {
                let next = announce(at, &service, answer);
                settle_fresh(services, service, next)
            },
            _ => Discovery { services, phase: Phase::Fresh { service, at } },
        },
        Phase::Retry { index, at } => match event {
            Event::Answered(answer) => {
                let next = announce(at, services.get(index), answer);
                let phase = match next {
                    Announce::Finished(Ok(())) => resume(&services, index + 1),
                    Announce::Finished(Err(())) => Phase::Stopped,
                    at => Phase::Retry { index, at },
                };
                Discovery { services, phase }
            },
            _ => Discovery { services, phase: Phase::Retry { index, at } },
        },
        Phase::Stopped => Discovery { services, phase: Phase::Stopped },
    }
}

/// What follows when announcing a fresh service has got to `at`.
fn settle_fresh(services: RetrySet, service: Service, at: Announce<String>) -> (r: Discovery)
    requires
        services.wf(),
    ensures
        r@ == (DiscoveryModel { services: services@, phase: PhaseModel::Waiting }).with_fresh(
            service@,
            at@,
        ),
{
    match at {
        Announce::Finished(Ok(())) => {
            let mut services = services;
            services.insert(service);
            Discovery { services, phase: Phase::Waiting }
        },
        Announce::Finished(Err(())) => Discovery { services, phase: Phase::Stopped },
        at => Discovery { services, phase: Phase::Fresh { service, at } },
    }
}

/// Discovery stops when browsing ends or the manager turns out to be gone, and for nothing else.
pub proof fn law_discovery_stops_for_two_reasons(state: DiscoveryModel, event: EventModel)
    requires
        state.wf(),
        !(state.phase is Stopped),
    ensures
        state.next(event).phase is Stopped <==> {
            ||| state.phase is Waiting && event is Closed
            ||| state.due() matches ActionModel::Ask(RequestModel::Send(_)) && event
                == EventModel::Answered(Answer::Sent(false))
        },
{
    lemma_resumed(state.services, 0);
    match state.phase {
        PhaseModel::Fresh { service, at } => {
            if let EventModel::Answered(answer) = event {
                law_only_a_lost_manager_is_an_error(at, service, answer);
            }
        },
        PhaseModel::Retry { index, at } => {
            lemma_resumed(state.services, index + 1);
            if let EventModel::Answered(answer) = event {
                law_only_a_lost_manager_is_an_error(at, state.services[index], answer);
            }
        },
        _ => {},
    }
}

/// A stopped discovery stays stopped.
pub proof fn law_stopped_is_final(state: DiscoveryModel, event: EventModel)
    requires
        state.phase is Stopped,
    ensures
        state.next(event) == state,
        state.due() is Stop,
{
}

/// Once a service that was resolved has been dealt with, it is known, whether it could be used or
/// not: without an address, without a pairing record that matches, or with the manager told of
/// its device. All other services are as they were.
pub proof fn law_resolved_service_is_kept(
    state: DiscoveryModel,
    event: EventModel,
    service: ServiceModel,
    name: Seq<char>,
)
    requires
        state.wf(),
        ({
            ||| state.phase is Waiting && event == EventModel::Resolved(service)
            ||| state.phase matches PhaseModel::Fresh { service: fresh, .. } && fresh == service
        }),
        state.next(event).phase is Waiting,
    ensures
        lookup(state.next(event).services, name) == if name == service.fullname {
            Some(service)
        } else {
            lookup(state.services, name)
        },
{
    law_insert_is_found(state.services, service, name);
}

/// That a service has left the network only makes it unknown: nothing is asked or sent, and all
/// other services are as they were.
pub proof fn law_removed_service_is_forgotten(
    state: DiscoveryModel,
    fullname: Seq<char>,
    name: Seq<char>,
)
    requires
        state.wf(),
        state.phase is Waiting,
    ensures
        state.next(EventModel::Removed(fullname)).due() is Wait,
        lookup(state.next(EventModel::Removed(fullname)).services, name) == if name == fullname {
            None
        } else {
            lookup(state.services, name)
        },
{
    law_remove_is_not_found(state.services, fullname, name);
}

/// A round of announcing services again begins with the first service that there is something to
/// be done for, and changes nothing about which services are known.
pub proof fn law_round_starts_at_the_first(state: DiscoveryModel, k: int)
    requires
        state.wf(),
        state.phase is Waiting,
        0 <= k < state.services.len(),
        !(Announce::start(state.services[k]) is Finished),
    ensures
        state.next(EventModel::Tick).services == state.services,
        state.next(EventModel::Tick).phase matches PhaseModel::Retry { index, at } && index <= k
            && at == Announce::start(state.services[index]),
{
    lemma_resumed(state.services, 0);
}

/// A round of announcing services again leaves none out: as long as a service that comes later
/// has something to be done for it, the round goes on, without going past that service, and the
/// services that are known stay. Only a manager that is gone ends it early.
pub proof fn law_round_leaves_none_out(state: DiscoveryModel, event: EventModel, k: int)
    requires
        state.wf(),
        state.phase matches PhaseModel::Retry { index, .. } && index < k < state.services.len(),
        !(Announce::start(state.services[k]) is Finished),
    ensures
        state.next(event).services == state.services,
        state.next(event).phase is Stopped || (state.next(event).phase matches PhaseModel::Retry {
            index,
            at,
        } && state.phase->index <= index <= k && (index > state.phase->index ==> at
            == Announce::start(state.services[index]))),
{
    lemma_resumed(state.services, state.phase->index + 1);
}

impl DiscoveryModel {
    /// The state after a number of events.
    pub open spec fn after(self, events: Seq<EventModel>) -> DiscoveryModel
        decreases events.len(),
    {
        if events.len() == 0 {
            self
        } else {
            self.after(events.drop_last()).next(events.last())
        }
    }

    /// Whether the known service at `k` is about to be announced again.
    pub open spec fn turns_to(self, k: int) -> bool {
        self.phase == PhaseModel::Retry { index: k, at: Announce::start(self.services[k]) }
    }
}

proof fn lemma_round(state: DiscoveryModel, events: Seq<EventModel>, n: int, k: int)
    requires
        state.wf(),
        state.phase is Waiting,
        1 <= n <= events.len(),
        events[0] == EventModel::Tick,
        forall|j: int| 1 <= j < n ==> (#[trigger] state.after(events.take(j))).phase is Retry,
        0 <= k < state.services.len(),
        !(Announce::start(state.services[k]) is Finished),
    ensures
        state.after(events.take(n)).wf(),
        state.after(events.take(n)).services == state.services,
        ({
            let phase = state.after(events.take(n)).phase;
            ||| phase is Stopped
            ||| phase is Retry && phase->index < k
            ||| exists|j: int| 1 <= j <= n && #[trigger] state.after(events.take(j)).turns_to(k)
        }),
    decreases n,
{
    let front = events.take(n).drop_last();
    assert(front =~= events.take(n - 1));
    if n == 1 {
        assert(state.after(front) == state);
        law_round_starts_at_the_first(state, k);
        law_discovery_stays_well_formed(state, EventModel::Tick);
        assert(state.after(events.take(n)).turns_to(k) || state.after(events.take(n)).phase->index < k);
    } else {
        lemma_round(state, events, n - 1, k);
        let before = state.after(events.take(n - 1));
        let event = events[n - 1];
        assert(events.take(n).last() == event);
        assert(before.phase is Retry);
        law_discovery_stays_well_formed(before, event);
        assert(before.next(event).services == before.services) by {
            lemma_resumed(before.services, before.phase->index + 1);
        }
        if before.phase->index < k {
            law_round_leaves_none_out(before, event, k);
            assert(state.after(events.take(n)) == before.next(event));
            assert(before.next(event).phase is Stopped || before.next(event).turns_to(k)
                || before.next(event).phase->index < k);
            assert(state.after(events.take(n)).turns_to(k) == before.next(event).turns_to(k));
        } else {
            let j = choose|j: int|
                1 <= j <= n - 1 && #[trigger] state.after(events.take(j)).turns_to(k);
            assert(state.after(events.take(j)).turns_to(k));
        }
    }
}

/// A round of announcing services again comes to each known service that there is something to be
/// done for, before it ends with waiting, and leaves the known services as they are.
pub proof fn law_round_comes_to_each(state: DiscoveryModel, events: Seq<EventModel>, k: int)
    requires
        state.wf(),
        state.phase is Waiting,
        events.len() > 0,
        events[0] == EventModel::Tick,
        forall|j: int|
            1 <= j < events.len() ==> (#[trigger] state.after(events.take(j))).phase is Retry,
        state.after(events).phase is Waiting,
        0 <= k < state.services.len(),
        !(Announce::start(state.services[k]) is Finished),
    ensures
        state.after(events).services == state.services,
        exists|j: int|
            1 <= j < events.len() && #[trigger] state.after(events.take(j)).turns_to(k),
{
    lemma_round(state, events, events.len() as int, k);
    assert(events.take(events.len() as int) =~= events);
    let j = choose|j: int|
        1 <= j <= events.len() && #[trigger] state.after(events.take(j)).turns_to(k);
    assert(state.after(events.take(j)).turns_to(k));
}

/// The views of events and actions are the same, with the same contents.
pub proof fn law_discovery_views(event: Event, action: Action)
    ensures
        event matches Event::Resolved(service) ==> event@ == EventModel::Resolved(service@),
        event matches Event::Removed(name) ==> event@ == EventModel::Removed(name@),
        event is Other <==> event@ is Other,
        event is Closed <==> event@ is Closed,
        event is Tick <==> event@ is Tick,
        event matches Event::Answered(answer) ==> event@ == EventModel::Answered(answer@),
        action is Wait <==> action@ is Wait,
        action matches Action::Ask(request) ==> action@ == ActionModel::Ask(request@),
        action is Stop <==> action@ is Stop,
{
}

/// Discovery waits when it has nothing to do, asks while it announces a service, and stops when it has
/// stopped.
pub proof fn law_action_goes_with_phase(state: DiscoveryModel)
    requires
        state.wf(),
    ensures
        state.due() is Wait <==> state.phase is Waiting,
        state.due() is Ask <==> state.phase is Fresh || state.phase is Retry,
        state.due() is Stop <==> state.phase is Stopped,
        state.phase matches PhaseModel::Fresh { service, at } ==> (state.due() matches ActionModel::Ask(
            request,
        ) && at.due(service, "_apple-mobdev2._tcp.local"@) == Some(request)),
        state.phase matches PhaseModel::Retry { index, at } ==> (state.due() matches ActionModel::Ask(
            request,
        ) && at.due(state.services[index], "_apple-mobdev2._tcp.local"@) == Some(request)),
{
    law_service_type_is_spelled_out();
    match state.phase {
        PhaseModel::Fresh { service, at } => {
            law_announce_ends(at, service, service_name_text(), Answer::<Seq<char>>::Udid(None));
        },
        PhaseModel::Retry { index, at } => {
            law_announce_ends(
                at,
                state.services[index],
                service_name_text(),
                Answer::<Seq<char>>::Udid(None),
            );
        },
        _ => {},
    }
}

/// The view of what discovery is at is the same, with the same service, position and state.
pub proof fn law_phase_view(phase: Phase)
    ensures
        phase is Waiting <==> phase@ is Waiting,
        phase matches Phase::Fresh { service, at } ==> phase@ == (PhaseModel::Fresh {
            service: service@,
            at: at@,
        }),
        phase matches Phase::Retry { index, at } ==> phase@ == (PhaseModel::Retry {
            index: index as int,
            at: at@,
        }),
        phase is Stopped <==> phase@ is Stopped,
{
}

} // verus!
