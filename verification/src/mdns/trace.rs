//! What holds of discovery over everything that happens, from some moment at which it waits.
use crate::mdns::announce::{
    answer_to, law_announce_as_a_whole, law_announce_ends, service_name_text, Announce, Answer,
    Records, RequestModel,
};
use crate::mdns::discover::{
    law_discovery_stays_well_formed, lemma_resumed, resumed, ActionModel, DiscoveryModel,
    EventModel, PhaseModel,
};
use crate::mdns::resolved::ServiceModel;
use crate::mdns::retry::{
    law_insert_is_found, law_lookup_finds_the_member, law_remove_is_not_found, lookup,
};
use vstd::prelude::*;

verus! {

/// The services of a list that there is something to be done for in order to announce them.
pub open spec fn announced(services: Seq<ServiceModel>) -> Seq<ServiceModel> {
    services.filter(|s: ServiceModel| !(Announce::start(s) is Finished))
}

/// The services that were resolved, in the order of the events.
pub open spec fn resolved_in(events: Seq<EventModel>) -> Seq<ServiceModel>
    decreases events.len(),
{
    if events.len() == 0 {
        Seq::empty()
    } else {
        let before = resolved_in(events.drop_last());
        match events.last() {
            EventModel::Resolved(service) => before.push(service),
            _ => before,
        }
    }
}

/// The latest record of the service with a full name, unless it has left the network since, where
/// `first` is what was known of it before the events.
pub open spec fn latest(
    first: Option<ServiceModel>,
    events: Seq<EventModel>,
    name: Seq<char>,
) -> Option<ServiceModel>
    decreases events.len(),
{
    if events.len() == 0 {
        first
    } else {
        let before = latest(first, events.drop_last(), name);
        match events.last() {
            EventModel::Resolved(service) => if service.fullname == name {
                Some(service)
            } else {
                before
            },
            EventModel::Removed(fullname) => if fullname == name {
                None
            } else {
                before
            },
            _ => before,
        }
    }
}

/// All that is asked for when services are announced one after the other, where the lookups go by
/// some pairing records and the manager is there.
pub open spec fn asked_in_turn(services: Seq<ServiceModel>, records: Records) -> Seq<RequestModel>
    decreases services.len(),
{
    if services.len() == 0 {
        Seq::empty()
    } else {
        Announce::start(services[0]).asked(services[0], service_name_text(), records)
            + asked_in_turn(services.skip(1), records)
    }
}

impl DiscoveryModel {
    /// Whether the events are handed in as they are asked for: while a request is out, nothing but
    /// answers.
    pub open spec fn is_driven_by(self, events: Seq<EventModel>) -> bool
        decreases events.len(),
    {
        events.len() > 0 ==> {
            let front = events.drop_last();
            &&& self.is_driven_by(front)
            &&& self.after(front).due() is Ask ==> events.last() is Answered
        }
    }

    /// Whether the events are handed in as they are asked for, and each request gets the answer that
    /// some pairing records and a manager that is there give to it.
    pub open spec fn is_served_by(self, events: Seq<EventModel>, records: Records) -> bool
        decreases events.len(),
    {
        events.len() > 0 ==> {
            let front = events.drop_last();
            &&& self.is_served_by(front, records)
            &&& self.after(front).due() matches ActionModel::Ask(request) ==> events.last()
                == EventModel::Answered(answer_to(request, records))
        }
    }

    /// The service that an event makes discovery announce as a fresh one, in a list.
    pub open spec fn fresh_turn(self, event: EventModel) -> Seq<ServiceModel> {
        match self.next(event).phase {
            PhaseModel::Fresh { service, .. } => if self.phase is Fresh {
                seq![]
            } else {
                seq![service]
            },
            _ => seq![],
        }
    }

    /// The service that an event makes discovery announce, freshly or again, in a list.
    pub open spec fn turn(self, event: EventModel) -> Seq<ServiceModel> {
        match self.next(event).phase {
            PhaseModel::Retry { index, .. } => if self.phase is Retry && self.phase->index == index {
                seq![]
            } else {
                seq![self.services[index]]
            },
            _ => self.fresh_turn(event),
        }
    }

    /// The services that discovery has begun to announce as fresh ones, in their order.
    pub open spec fn fresh_turns(self, events: Seq<EventModel>) -> Seq<ServiceModel>
        decreases events.len(),
    {
        if events.len() == 0 {
            Seq::empty()
        } else {
            let front = events.drop_last();
            self.fresh_turns(front) + self.after(front).fresh_turn(events.last())
        }
    }

    /// The services that discovery has begun to announce, freshly or again, in their order.
    pub open spec fn turns(self, events: Seq<EventModel>) -> Seq<ServiceModel>
        decreases events.len(),
    {
        if events.len() == 0 {
            Seq::empty()
        } else {
            let front = events.drop_last();
            self.turns(front) + self.after(front).turn(events.last())
        }
    }

    /// The services that events are to make discovery announce: one that was resolved, and at a tick
    /// all that are known.
    pub open spec fn owed(self, events: Seq<EventModel>) -> Seq<ServiceModel>
        decreases events.len(),
    {
        if events.len() == 0 {
            Seq::empty()
        } else {
            let front = events.drop_last();
            self.owed(front) + match events.last() {
                EventModel::Resolved(service) => announced(seq![service]),
                EventModel::Tick => announced(self.after(front).services),
                _ => seq![],
            }
        }
    }

    /// The services that a round of announcing services again has still to come to.
    pub open spec fn to_come(self) -> Seq<ServiceModel> {
        match self.phase {
            PhaseModel::Retry { index, .. } => announced(self.services.skip(index + 1)),
            _ => seq![],
        }
    }

    /// The requests that have been answered, in their order.
    pub open spec fn asked(self, events: Seq<EventModel>) -> Seq<RequestModel>
        decreases events.len(),
    {
        if events.len() == 0 {
            Seq::empty()
        } else {
            let front = events.drop_last();
            self.asked(front) + match self.after(front).due() {
                ActionModel::Ask(request) => seq![request],
                _ => seq![],
            }
        }
    }

    /// The requests that events are to make discovery ask: those for one service that was resolved,
    /// and at a tick those for all that are known, where the lookups go by some pairing records and
    /// the manager is there.
    pub open spec fn owed_requests(self, events: Seq<EventModel>, records: Records) -> Seq<
        RequestModel,
    >
        decreases events.len(),
    {
        if events.len() == 0 {
            Seq::empty()
        } else {
            let front = events.drop_last();
            self.owed_requests(front, records) + match events.last() {
                EventModel::Resolved(service) => Announce::start(service).asked(
                    service,
                    service_name_text(),
                    records,
                ),
                EventModel::Tick => asked_in_turn(self.after(front).services, records),
                _ => seq![],
            }
        }
    }

    /// The requests that are still to be asked, where the lookups go by some pairing records and the
    /// manager is there.
    pub open spec fn left_to_ask(self, records: Records) -> Seq<RequestModel> {
        match self.phase {
            PhaseModel::Fresh { service, at } => at.asked(service, service_name_text(), records),
            PhaseModel::Retry { index, at } => at.asked(
                self.services[index],
                service_name_text(),
                records,
            ) + asked_in_turn(self.services.skip(index + 1), records),
            _ => seq![],
        }
    }
}

proof fn lemma_well_formed(state: DiscoveryModel, events: Seq<EventModel>)
    requires
        state.wf(),
    ensures
        state.after(events).wf(),
    decreases events.len(),
{
    if events.len() > 0 {
        lemma_well_formed(state, events.drop_last());
        law_discovery_stays_well_formed(state.after(events.drop_last()), events.last());
    }
}

proof fn lemma_announced_skip(services: Seq<ServiceModel>, i: int)
    requires
        0 <= i < services.len(),
    ensures
        announced(services.skip(i)) == announced(seq![services[i]]) + announced(services.skip(i + 1)),
        announced(seq![services[i]]) == if Announce::start(services[i]) is Finished {
            Seq::<ServiceModel>::empty()
        } else {
            seq![services[i]]
        },
{
    let wanted = |s: ServiceModel| !(Announce::start(s) is Finished);
    let one = seq![services[i]];
    assert(services.skip(i) =~= one + services.skip(i + 1));
    Seq::filter_distributes_over_add(one, services.skip(i + 1), wanted);
    reveal(Seq::filter);
    assert(one.drop_last() =~= Seq::empty());
    assert(one.drop_last().filter(wanted) =~= Seq::empty());
    assert(one.filter(wanted) =~= if Announce::start(services[i]) is Finished {
        Seq::<ServiceModel>::empty()
    } else {
        one
    });
}

proof fn lemma_resumed_turns(services: Seq<ServiceModel>, from: int)
    requires
        0 <= from <= services.len(),
    ensures
        announced(services.skip(from)) == match resumed(services, from) {
            PhaseModel::Retry { index, .. } => seq![services[index]] + announced(
                services.skip(index + 1),
            ),
            _ => seq![],
        },
    decreases services.len() - from,
{
    lemma_resumed(services, from);
    if from < services.len() {
        lemma_announced_skip(services, from);
        if Announce::start(services[from]) is Finished {
            lemma_resumed_turns(services, from + 1);
            assert(Seq::<ServiceModel>::empty() + announced(services.skip(from + 1)) =~= announced(
                services.skip(from + 1),
            ));
        }
    } else {
        reveal(Seq::filter);
        assert(services.skip(from) =~= Seq::empty());
    }
}

proof fn lemma_turns(state: DiscoveryModel, events: Seq<EventModel>)
    requires
        state.wf(),
        state.phase is Waiting,
        state.is_driven_by(events),
        !(state.after(events).phase is Stopped),
    ensures
        state.turns(events) + state.after(events).to_come() == state.owed(events),
        state.fresh_turns(events) == announced(resolved_in(events)),
    decreases events.len(),
{
    if events.len() == 0 {
        reveal(Seq::filter);
        assert(announced(resolved_in(events)) =~= Seq::empty());
    } else {
        let front = events.drop_last();
        let before = state.after(front);
        let event = events.last();
        lemma_turns(state, front);
        lemma_well_formed(state, front);
        let turned = state.turns(front);
        match event {
            EventModel::Resolved(service) => {
                lemma_announced_skip(seq![service], 0);
                assert(announced(resolved_in(events)) == announced(resolved_in(front)) + announced(
                    seq![service],
                )) by {
                    let wanted = |s: ServiceModel| !(Announce::start(s) is Finished);
                    assert(resolved_in(events) =~= resolved_in(front) + seq![service]);
                    Seq::filter_distributes_over_add(resolved_in(front), seq![service], wanted);
                }
                assert(before.fresh_turn(event) =~= announced(seq![service]));
            },
            EventModel::Tick => {
                lemma_resumed(before.services, 0);
                lemma_resumed_turns(before.services, 0);
                assert(before.services.skip(0) =~= before.services);
                assert(state.fresh_turns(events) =~= state.fresh_turns(front));
                assert(before.turn(event) + before.next(event).to_come() =~= announced(
                    before.services,
                ));
            },
            EventModel::Answered(answer) => {
                if let PhaseModel::Retry { index, at } = before.phase {
                    lemma_resumed(before.services, index + 1);
                    lemma_resumed_turns(before.services, index + 1);
                    assert(before.turn(event) + before.next(event).to_come() =~= before.to_come());
                }
                assert(state.fresh_turns(events) =~= state.fresh_turns(front));
            },
            _ => {
                assert(state.fresh_turns(events) =~= state.fresh_turns(front));
            },
        }
        assert(turned + (before.turn(event) + before.next(event).to_come()) =~= state.turns(events)
            + state.after(events).to_come());
        assert(state.turns(events) + state.after(events).to_come() =~= state.owed(events));
    }
}

/// No event is lost or handled twice. If events are handed in as they are asked for, then discovery
/// announces, each once and in the order of the events, just the services that were resolved and, at
/// each tick, all that are known. What a round still has to come to is made up for by its end.
/// Services without anything to be done for them are passed over. The ticks may come anywhere
/// between the other events, and the answers may be any, as long as discovery has not stopped.
pub proof fn law_each_event_is_handled_once(state: DiscoveryModel, events: Seq<EventModel>)
    requires
        state.wf(),
        state.phase is Waiting,
        state.is_driven_by(events),
        !(state.after(events).phase is Stopped),
    ensures
        state.turns(events) + state.after(events).to_come() == state.owed(events),
        state.after(events).phase is Waiting ==> state.turns(events) == state.owed(events),
{
    lemma_turns(state, events);
    if state.after(events).phase is Waiting {
        assert(state.turns(events) + state.after(events).to_come() =~= state.turns(events));
    }
}

/// If events are handed in as they are asked for, then the services that discovery announces as
/// fresh ones are those that were resolved, each once and in the order of the events, however ticks
/// and other events come between. Services without anything to be done for them are passed over.
pub proof fn law_each_resolved_service_is_announced_once(
    state: DiscoveryModel,
    events: Seq<EventModel>,
)
    requires
        state.wf(),
        state.phase is Waiting,
        state.is_driven_by(events),
        !(state.after(events).phase is Stopped),
    ensures
        state.fresh_turns(events) == announced(resolved_in(events)),
{
    lemma_turns(state, events);
}

/// An event other than a service that was resolved or has left the network leaves the known services
/// as they are, while no fresh service is being announced, and one that is not a tick either makes
/// a waiting discovery announce nothing.
pub proof fn law_other_events_leave_services_alone(state: DiscoveryModel, event: EventModel)
    requires
        state.wf(),
        !(event is Resolved),
        !(event is Removed),
        !(state.phase is Fresh),
    ensures
        state.next(event).services == state.services,
        state.phase is Waiting && !(event is Tick) ==> state.turn(event).len() == 0
            && !(state.next(event).due() is Ask),
{
}

proof fn lemma_latest(state: DiscoveryModel, events: Seq<EventModel>, name: Seq<char>)
    requires
        state.wf(),
        state.phase is Waiting,
        state.is_driven_by(events),
        !(state.after(events).phase is Stopped),
    ensures
        ({
            let now = state.after(events);
            latest(lookup(state.services, name), events, name) == match now.phase {
                PhaseModel::Fresh { service, .. } => if service.fullname == name {
                    Some(service)
                } else {
                    lookup(now.services, name)
                },
                _ => lookup(now.services, name),
            }
        }),
    decreases events.len(),
{
    if events.len() > 0 {
        let front = events.drop_last();
        let before = state.after(front);
        lemma_latest(state, front, name);
        lemma_well_formed(state, front);
        match events.last() {
            EventModel::Resolved(service) => {
                law_insert_is_found(before.services, service, name);
            },
            EventModel::Removed(fullname) => {
                law_remove_is_not_found(before.services, fullname, name);
            },
            EventModel::Tick => {
                lemma_resumed(before.services, 0);
            },
            EventModel::Answered(_) => {
                if let PhaseModel::Fresh { service, .. } = before.phase {
                    law_insert_is_found(before.services, service, name);
                }
                if let PhaseModel::Retry { index, .. } = before.phase {
                    lemma_resumed(before.services, index + 1);
                }
            },
            _ => {},
        }
    }
}

/// If events are handed in as they are asked for, then the services that are known are just the
/// latest records of those that were resolved and have not left the network since. A service that is
/// being announced for the first time, or again since it was resolved again, is known as it was
/// resolved once that is done.
pub proof fn law_known_services_are_the_latest(
    state: DiscoveryModel,
    events: Seq<EventModel>,
    name: Seq<char>,
)
    requires
        state.wf(),
        state.phase is Waiting,
        state.is_driven_by(events),
        !(state.after(events).phase is Stopped),
        state.after(events).phase matches PhaseModel::Fresh { service, .. } ==> service.fullname
            != name,
    ensures
        lookup(state.after(events).services, name) == latest(
            lookup(state.services, name),
            events,
            name,
        ),
{
    lemma_latest(state, events, name);
}

/// If events are handed in as they are asked for, then the members of the set of known services are
/// just the services that are the latest records under their own full names.
pub proof fn law_known_services_by_membership(
    state: DiscoveryModel,
    events: Seq<EventModel>,
    service: ServiceModel,
)
    requires
        state.wf(),
        state.phase is Waiting,
        state.is_driven_by(events),
        !(state.after(events).phase is Stopped),
        !(state.after(events).phase is Fresh),
    ensures
        state.after(events).services.contains(service) <==> latest(
            lookup(state.services, service.fullname),
            events,
            service.fullname,
        ) == Some(service),
{
    law_known_services_are_the_latest(state, events, service.fullname);
    lemma_well_formed(state, events);
    law_lookup_finds_the_member(state.after(events).services, service.fullname, service);
}

proof fn lemma_answers_owe_nothing(state: DiscoveryModel, events: Seq<EventModel>, records: Records)
    requires
        events.len() > 0,
        events[0] == EventModel::Tick,
        forall|j: int| 1 <= j < events.len() ==> (#[trigger] events[j]) is Answered,
    ensures
        state.owed(events) == announced(state.services),
        state.owed_requests(events, records) == asked_in_turn(state.services, records),
    decreases events.len(),
{
    let front = events.drop_last();
    if events.len() == 1 {
        assert(state.after(front) == state);
        assert(state.owed(front) =~= Seq::empty());
        assert(state.owed_requests(front, records) =~= Seq::empty());
        assert(state.owed(events) =~= announced(state.services));
        assert(state.owed_requests(events, records) =~= asked_in_turn(state.services, records));
    } else {
        assert forall|j: int| 1 <= j < front.len() implies (#[trigger] front[j]) is Answered by {
            assert(front[j] == events[j]);
        }
        lemma_answers_owe_nothing(state, front, records);
        assert(events[events.len() - 1] is Answered);
        assert(state.owed(events) =~= state.owed(front));
        assert(state.owed_requests(events, records) =~= state.owed_requests(front, records));
    }
}

/// A round of announcing services again, from a tick to its end, turns to each known service that
/// there is something to be done for, exactly once and in their order.
pub proof fn law_round_turns_to_each_once(state: DiscoveryModel, events: Seq<EventModel>)
    requires
        state.wf(),
        state.phase is Waiting,
        events.len() > 0,
        events[0] == EventModel::Tick,
        forall|j: int| 1 <= j < events.len() ==> (#[trigger] events[j]) is Answered,
        state.after(events).phase is Waiting,
    ensures
        state.turns(events) == announced(state.services),
{
    lemma_answers_drive(state, events);
    law_each_event_is_handled_once(state, events);
    lemma_answers_owe_nothing(state, events, |r: RequestModel| None::<Seq<char>>);
}

proof fn lemma_answers_drive(state: DiscoveryModel, events: Seq<EventModel>)
    requires
        state.phase is Waiting,
        forall|j: int| 1 <= j < events.len() ==> (#[trigger] events[j]) is Answered,
    ensures
        state.is_driven_by(events),
    decreases events.len(),
{
    if events.len() > 0 {
        let front = events.drop_last();
        assert forall|j: int| 1 <= j < front.len() implies (#[trigger] front[j]) is Answered by {
            assert(front[j] == events[j]);
        }
        lemma_answers_drive(state, front);
        if events.len() == 1 {
            assert(state.after(front) == state);
        } else {
            assert(events[events.len() - 1] is Answered);
        }
    }
}

proof fn lemma_resumed_asks(services: Seq<ServiceModel>, from: int, records: Records)
    requires
        0 <= from <= services.len(),
    ensures
        asked_in_turn(services.skip(from), records) == (DiscoveryModel {
            services,
            phase: resumed(services, from),
        }).left_to_ask(records),
    decreases services.len() - from,
{
    lemma_resumed(services, from);
    if from < services.len() {
        let rest = services.skip(from);
        let first = Announce::start(services[from]);
        assert(rest[0] == services[from]);
        assert(rest.skip(1) =~= services.skip(from + 1));
        law_announce_ends(
            Announce::Finished(Ok(())),
            services[from],
            service_name_text(),
            Answer::<Seq<char>>::Udid(None),
        );
        if first is Finished {
            lemma_resumed_asks(services, from + 1, records);
            assert(first.asked(services[from], service_name_text(), records) =~= Seq::empty());
            assert(asked_in_turn(rest, records) =~= asked_in_turn(services.skip(from + 1), records));
        }
    } else {
        assert(services.skip(from) =~= Seq::empty());
    }
}

proof fn lemma_asks(state: DiscoveryModel, events: Seq<EventModel>, records: Records)
    requires
        state.wf(),
        state.phase is Waiting,
        state.is_served_by(events, records),
        !(state.after(events).phase is Stopped),
    ensures
        state.asked(events) + state.after(events).left_to_ask(records) == state.owed_requests(
            events,
            records,
        ),
    decreases events.len(),
{
    if events.len() > 0 {
        let front = events.drop_last();
        let before = state.after(front);
        let event = events.last();
        let now = before.next(event);
        lemma_asks(state, front, records);
        lemma_well_formed(state, front);
        let name = service_name_text();
        match before.phase {
            PhaseModel::Waiting => {
                match event {
                    EventModel::Resolved(service) => {
                        assert(now.left_to_ask(records) =~= Announce::start(service).asked(
                            service,
                            name,
                            records,
                        ));
                    },
                    EventModel::Tick => {
                        lemma_resumed(before.services, 0);
                        lemma_resumed_asks(before.services, 0, records);
                        assert(before.services.skip(0) =~= before.services);
                    },
                    _ => {},
                }
            },
            PhaseModel::Fresh { service, at } => {
                law_announce_ends(at, service, name, Answer::<Seq<char>>::Udid(None));
                let request = at.due(service, name)->0;
                let next = at.next(service, answer_to(request, records));
                assert(event == EventModel::Answered(answer_to(request, records)));
                assert(next is Finished ==> next.asked(service, name, records) =~= Seq::empty());
                assert(at.asked(service, name, records) =~= seq![request] + next.asked(
                    service,
                    name,
                    records,
                ));
                assert(seq![request] + now.left_to_ask(records) =~= before.left_to_ask(records));
            },
            PhaseModel::Retry { index, at } => {
                let service = before.services[index];
                law_announce_ends(at, service, name, Answer::<Seq<char>>::Udid(None));
                lemma_resumed(before.services, index + 1);
                lemma_resumed_asks(before.services, index + 1, records);
                let request = at.due(service, name)->0;
                let next = at.next(service, answer_to(request, records));
                assert(event == EventModel::Answered(answer_to(request, records)));
                assert(next is Finished ==> next.asked(service, name, records) =~= Seq::empty());
                assert(at.asked(service, name, records) =~= seq![request] + next.asked(
                    service,
                    name,
                    records,
                ));
                assert(seq![request] + now.left_to_ask(records) =~= before.left_to_ask(records));
            },
            PhaseModel::Stopped => {},
        }
        assert(state.asked(events) + now.left_to_ask(records) =~= state.owed_requests(
            events,
            records,
        ));
    }
}

/// If events are handed in as they are asked for, and the requests are answered by some pairing
/// records and a manager that is there, then discovery makes just the requests, in their order, that
/// announcing takes for each service that was resolved and, at each tick, for all that are known.
/// What is still to be asked for the last event is made up for before discovery waits again.
pub proof fn law_requests_are_those_of_announcing(
    state: DiscoveryModel,
    events: Seq<EventModel>,
    records: Records,
)
    requires
        state.wf(),
        state.phase is Waiting,
        state.is_served_by(events, records),
        !(state.after(events).phase is Stopped),
    ensures
        state.asked(events) + state.after(events).left_to_ask(records) == state.owed_requests(
            events,
            records,
        ),
        state.after(events).phase is Waiting ==> state.asked(events) == state.owed_requests(
            events,
            records,
        ),
{
    lemma_asks(state, events, records);
    if state.after(events).phase is Waiting {
        assert(state.asked(events) + state.after(events).left_to_ask(records) =~= state.asked(
            events,
        ));
    }
}

proof fn lemma_asked_in_turn_has(
    services: Seq<ServiceModel>,
    k: int,
    records: Records,
    request: RequestModel,
)
    requires
        0 <= k < services.len(),
        Announce::start(services[k]).asked(services[k], service_name_text(), records).contains(
            request,
        ),
    ensures
        asked_in_turn(services, records).contains(request),
    decreases services.len(),
{
    let head = Announce::start(services[0]).asked(services[0], service_name_text(), records);
    let tail = asked_in_turn(services.skip(1), records);
    if k == 0 {
        let i = choose|i: int| 0 <= i < head.len() && head[i] == request;
        assert((head + tail)[i] == request);
    } else {
        assert(services.skip(1)[k - 1] == services[k]);
        lemma_asked_in_turn_has(services.skip(1), k - 1, records, request);
        let i = choose|i: int| 0 <= i < tail.len() && tail[i] == request;
        assert((head + tail)[i + head.len()] == request);
    }
}

/// A pairing record that is there at a tick is used, whatever came of announcing its service before:
/// in the round that the tick begins, the manager is told of the device that the records have for
/// the service, under the address that the service has.
pub proof fn law_later_record_is_picked_up(
    state: DiscoveryModel,
    events: Seq<EventModel>,
    records: Records,
    k: int,
)
    requires
        state.wf(),
        state.phase is Waiting,
        events.len() > 0,
        events[0] == EventModel::Tick,
        forall|j: int| 1 <= j < events.len() ==> (#[trigger] events[j]) is Answered,
        state.is_served_by(events, records),
        state.after(events).phase is Waiting,
        0 <= k < state.services.len(),
        state.services[k].address is Some,
        state.services[k].udid(records) is Some,
    ensures
        state.asked(events).contains(
            RequestModel::Send(
                state.services[k].device(
                    state.services[k].udid(records)->0,
                    service_name_text(),
                ),
            ),
        ),
{
    let service = state.services[k];
    let name = service_name_text();
    let request = RequestModel::Send(service.device(service.udid(records)->0, name));
    law_requests_are_those_of_announcing(state, events, records);
    lemma_answers_owe_nothing(state, events, records);
    law_announce_as_a_whole(service, name, records);
    let all = Announce::start(service).asked(service, name, records);
    assert(all.last() == request);
    lemma_asked_in_turn_has(state.services, k, records, request);
}

} // verus!
