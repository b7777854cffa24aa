use mdns_sd::{ResolvedService, ServiceInfo, TxtProperties};
use netmuxd::mdns::announce::{
    announce, browse_type, service_name, Announce, Answer, Device, Request,
};
use netmuxd::mdns::discover::{discover, Action, Discovery, Event, RETRY_INTERVAL_SECS};
use netmuxd::mdns::resolved::{auth_tags, pick_address, prefer, read_service, Address, Property, Service};

fn resolved(fullname: &str, ips: &str, txt: &[&str]) -> ResolvedService {
    let info =
        ServiceInfo::new("_apple-mobdev2._tcp.local.", "x", "h.local.", ips, 1, None).unwrap();
    let mut resolved = info.as_resolved_service();
    resolved.fullname = fullname.to_string();
    let mut bytes: Vec<u8> = Vec::new();
    for entry in txt {
        bytes.push(entry.len() as u8);
        bytes.extend(entry.as_bytes());
    }
    resolved.txt_properties = TxtProperties::from(&bytes[..]);
    resolved
}

fn address(ipv4: bool, text: &str) -> Address {
    Address { ipv4, text: text.to_string() }
}

fn service(fullname: &str, tags: &[&str]) -> Service {
    Service {
        fullname: fullname.to_string(),
        address: Some(address(true, "10.0.0.1")),
        identifier: if tags.is_empty() { None } else { Some(vec![1, 2]) },
        auth_tags: tags.iter().map(|t| t.as_bytes().to_vec()).collect(),
    }
}

const NAME: &str = "_apple-mobdev2._tcp.local";

fn device(udid: &str) -> Request {
    Request::Send(Device {
        udid: udid.to_string(),
        address: address(true, "10.0.0.1"),
        service_name: "_apple-mobdev2._tcp.local".to_string(),
        connection_type: "Network".to_string(),
    })
}

fn udid(u: &str) -> Event {
    Event::Answered(Answer::Udid(Some(u.to_string())))
}

fn no_udid() -> Event {
    Event::Answered(Answer::Udid(None))
}

fn sent(ok: bool) -> Event {
    Event::Answered(Answer::Sent(ok))
}

fn by_mac(mac: &str) -> Action {
    Action::Ask(Request::FindByMac { mac: mac.to_string() })
}

#[test]
fn service_types_differ_by_a_dot() {
    assert_eq!(service_name(), "_apple-mobdev2._tcp.local");
    assert_eq!(browse_type(), "_apple-mobdev2._tcp.local.");
    assert_eq!(RETRY_INTERVAL_SECS, 30);
}

#[test]
fn ipv4_is_preferred() {
    let v6 = || address(false, "fe80::1");
    let v4 = |t| address(true, t);
    assert_eq!(prefer(&[]), None);
    assert_eq!(prefer(&[v6(), v4("10.0.0.2"), v4("10.0.0.3")]), Some(v4("10.0.0.2")));
    assert_eq!(prefer(&[v6(), address(false, "::1")]), Some(v6()));
}

#[test]
fn address_is_picked_from_the_resolved_service() {
    let both = resolved("a", "fe80::1,192.168.1.5", &[]);
    assert_eq!(pick_address(&both), Some(address(true, "192.168.1.5")));
    let v6 = resolved("a", "fe80::1", &[]);
    assert_eq!(pick_address(&v6), Some(address(false, "fe80::1")));
    let none = resolved("a", "", &[]);
    assert_eq!(pick_address(&none), None);
}

#[test]
fn txt_properties_are_read() {
    let r = resolved(
        "aa:bb@fe80._x",
        "192.168.1.5",
        &["Identifier=id", "authTag=t1", "authTag#2=t2", "authtag3=no", "authTag#4", "other=x"],
    );
    assert_eq!(
        read_service(&r),
        Service {
            fullname: "aa:bb@fe80._x".to_string(),
            address: Some(address(true, "192.168.1.5")),
            identifier: Some(b"id".to_vec()),
            auth_tags: vec![b"t1".to_vec(), b"t2".to_vec()],
        }
    );
    let bare = read_service(&resolved("b", "192.168.1.5", &["identifier"]));
    assert_eq!(bare.identifier, None);
    assert_eq!(read_service(&resolved("b", "192.168.1.5", &[])).identifier, None);
}

#[test]
fn auth_tag_keys_are_case_sensitive() {
    let p = |key: &str, value: Option<&str>| Property {
        key: key.to_string(),
        value: value.map(|v| v.as_bytes().to_vec()),
    };
    let tags = auth_tags(vec![
        p("authtag", Some("a")),
        p("authTag", Some("b")),
        p("authTagX", Some("c")),
        p("authTag#", Some("")),
        p("authTag#1", None),
    ]);
    assert_eq!(tags, vec![b"b".to_vec(), Vec::new()]);
}

#[test]
fn announce_tries_txt_then_mac() {
    let s = service("aa:bb@x", &["t"]);
    let at = Announce::begin(&s);
    assert_eq!(
        at.request(&s, NAME),
        Some(Request::FindByTxt { identifier: vec![1, 2], auth_tags: vec![b"t".to_vec()] })
    );
    let at = announce(at, &s, Answer::Udid(None));
    assert_eq!(at.request(&s, NAME), Some(Request::FindByMac { mac: "aa:bb".to_string() }));
    let at = announce(at, &s, Answer::Udid(Some("U".to_string())));
    assert_eq!(at.request(&s, NAME), Some(device("U")));
    let at = announce(at, &s, Answer::Sent(true));
    assert_eq!(at, Announce::Finished(Ok(())));
    assert_eq!(at.request(&s, NAME), None);
}

#[test]
fn announce_takes_the_service_name() {
    let r = resolved(
        "m@x",
        "10.0.0.5",
        &["identifier=id", "authTag=a", "authTag#2=b", "authTagX=c", "xauthTag=d", "authTag#3"],
    );
    let s = read_service(&r);
    let at = Announce::begin(&s);
    assert_eq!(
        at.request(&s, "s"),
        Some(Request::FindByTxt {
            identifier: b"id".to_vec(),
            auth_tags: vec![b"a".to_vec(), b"b".to_vec()],
        })
    );
    let at = announce(at, &s, Answer::Udid(Some("U2".to_string())));
    assert_eq!(
        at.request(&s, "s"),
        Some(Request::Send(Device {
            udid: "U2".to_string(),
            address: address(true, "10.0.0.5"),
            service_name: "s".to_string(),
            connection_type: "Network".to_string(),
        }))
    );
    assert_eq!(announce(at, &s, Answer::Sent(true)), Announce::Finished(Ok(())));
}

#[test]
fn announce_goes_straight_to_mac_without_txt() {
    let mut s = service("aa:bb@x", &["t"]);
    s.identifier = None;
    assert_eq!(Announce::begin(&s), Announce::ByMac);
    s.identifier = Some(vec![1]);
    s.auth_tags = Vec::new();
    assert_eq!(Announce::begin(&s), Announce::ByMac);
}

#[test]
fn announce_gives_up_quietly() {
    let mut s = service("no mac", &[]);
    assert_eq!(Announce::begin(&s), Announce::Finished(Ok(())));
    s.fullname = "aa@x".to_string();
    let at = announce(Announce::begin(&s), &s, Answer::Udid(None));
    assert_eq!(at, Announce::Finished(Ok(())));
    s.address = None;
    assert_eq!(Announce::begin(&s), Announce::Finished(Ok(())));
}

#[test]
fn announce_fails_with_the_manager() {
    let s = service("aa@x", &[]);
    let at = announce(Announce::begin(&s), &s, Answer::Udid(Some("U".to_string())));
    assert_eq!(announce(at, &s, Answer::Sent(false)), Announce::Finished(Err(())));
}

#[test]
fn announce_ignores_other_answers() {
    let s = service("aa@x", &["t"]);
    assert_eq!(announce(Announce::ByTxt, &s, Answer::Sent(false)), Announce::ByTxt);
    assert_eq!(announce(Announce::ByMac, &s, Answer::Sent(true)), Announce::ByMac);
}

#[test]
fn discovery_announces_and_keeps() {
    let mut d = Discovery::begin();
    assert_eq!(d.action(), Action::Wait);
    d = discover(d, Event::Resolved(service("aa@x", &[])));
    assert_eq!(d.action(), by_mac("aa"));
    d = discover(d, udid("U"));
    assert_eq!(d.action(), Action::Ask(device("U")));
    d = discover(d, sent(true));
    assert_eq!(d.action(), Action::Wait);
    d = discover(d, Event::Tick);
    assert_eq!(d.action(), by_mac("aa"));
}

#[test]
fn unmatched_service_is_tried_again() {
    let mut d = Discovery::begin();
    d = discover(d, Event::Resolved(service("aa@x", &[])));
    d = discover(d, no_udid());
    assert_eq!(d.action(), Action::Wait);
    d = discover(d, Event::Tick);
    assert_eq!(d.action(), by_mac("aa"));
    d = discover(d, udid("U"));
    assert_eq!(d.action(), Action::Ask(device("U")));
    d = discover(d, sent(true));
    assert_eq!(d.action(), Action::Wait);
}

#[test]
fn round_comes_to_each_service() {
    let mut d = Discovery::begin();
    for name in ["aa@x", "quiet", "bb@x", "cc@x"] {
        d = discover(d, Event::Resolved(service(name, &[])));
        if d.action() != Action::Wait {
            d = discover(d, no_udid());
        }
    }
    d = discover(d, Event::Tick);
    for mac in ["aa", "bb", "cc"] {
        assert_eq!(d.action(), by_mac(mac));
        d = discover(d, no_udid());
    }
    assert_eq!(d.action(), Action::Wait);
}

#[test]
fn removed_service_is_not_tried_again() {
    let mut d = Discovery::begin();
    for name in ["aa@x", "bb@x"] {
        d = discover(d, Event::Resolved(service(name, &[])));
        d = discover(d, no_udid());
    }
    d = discover(d, Event::Removed("aa@x".to_string()));
    assert_eq!(d.action(), Action::Wait);
    d = discover(d, Event::Removed("unknown".to_string()));
    d = discover(d, Event::Tick);
    assert_eq!(d.action(), by_mac("bb"));
    d = discover(d, no_udid());
    assert_eq!(d.action(), Action::Wait);
}

#[test]
fn resolved_again_takes_the_old_place() {
    let mut d = Discovery::begin();
    d = discover(d, Event::Resolved(service("aa@x", &[])));
    d = discover(d, no_udid());
    let mut moved = service("aa@x", &["t"]);
    moved.address = Some(address(true, "10.0.0.2"));
    d = discover(d, Event::Resolved(moved));
    d = discover(d, no_udid());
    d = discover(d, no_udid());
    d = discover(d, Event::Tick);
    assert!(matches!(d.action(), Action::Ask(Request::FindByTxt { .. })));
    d = discover(d, no_udid());
    assert_eq!(d.action(), by_mac("aa"));
    d = discover(d, no_udid());
    assert_eq!(d.action(), Action::Wait);
}

#[test]
fn discovery_stops_with_the_manager() {
    let mut d = Discovery::begin();
    d = discover(d, Event::Resolved(service("aa@x", &[])));
    d = discover(d, udid("U"));
    d = discover(d, sent(false));
    assert_eq!(d.action(), Action::Stop);
    d = discover(d, Event::Tick);
    assert_eq!(d.action(), Action::Stop);
}

#[test]
fn discovery_stops_in_a_round() {
    let mut d = Discovery::begin();
    for name in ["aa@x", "bb@x"] {
        d = discover(d, Event::Resolved(service(name, &[])));
        d = discover(d, no_udid());
    }
    d = discover(d, Event::Tick);
    d = discover(d, udid("U"));
    d = discover(d, sent(false));
    assert_eq!(d.action(), Action::Stop);
}

#[test]
fn discovery_stops_when_browsing_ends() {
    let mut d = Discovery::begin();
    d = discover(d, Event::Other);
    assert_eq!(d.action(), Action::Wait);
    d = discover(d, Event::Closed);
    assert_eq!(d.action(), Action::Stop);
}

#[test]
fn discovery_waits_for_its_answer() {
    let mut d = Discovery::begin();
    d = discover(d, udid("U"));
    assert_eq!(d.action(), Action::Wait);
    d = discover(d, Event::Resolved(service("aa@x", &[])));
    d = discover(d, Event::Closed);
    assert_eq!(d.action(), by_mac("aa"));
}

/// Hands an event in and answers what is asked for, until nothing more is; gives the requests.
fn run(mut d: Discovery, event: Event, known: &[(&str, &str)]) -> (Discovery, Vec<Request>) {
    let mut asked = Vec::new();
    d = discover(d, event);
    while let Action::Ask(request) = d.action() {
        let answer = match &request {
            Request::FindByTxt { .. } => no_udid(),
            Request::FindByMac { mac } => match known.iter().find(|(m, _)| m == mac) {
                Some((_, u)) => udid(u),
                None => no_udid(),
            },
            Request::Send(_) => sent(true),
        };
        asked.push(request);
        d = discover(d, answer);
    }
    (d, asked)
}

fn find(mac: &str) -> Request {
    Request::FindByMac { mac: mac.to_string() }
}

#[test]
fn each_event_is_handled_once() {
    let d = Discovery::begin();
    let (d, asked) = run(d, Event::Resolved(service("aa@x", &[])), &[]);
    assert_eq!(asked, vec![find("aa")]);
    let (d, asked) = run(d, Event::Tick, &[]);
    assert_eq!(asked, vec![find("aa")]);
    let (d, asked) = run(d, Event::Resolved(service("bb@x", &[])), &[("bb", "B")]);
    assert_eq!(asked, vec![find("bb"), device("B")]);
    let (d, asked) = run(d, Event::Other, &[]);
    assert_eq!(asked, vec![]);
    let (d, asked) = run(d, Event::Resolved(service("aa@x", &[])), &[]);
    assert_eq!(asked, vec![find("aa")]);
    let (d, asked) = run(d, Event::Tick, &[("bb", "B")]);
    assert_eq!(asked, vec![find("aa"), find("bb"), device("B")]);
    let (d, asked) = run(d, Event::Removed("aa@x".to_string()), &[]);
    assert_eq!(asked, vec![]);
    let (_, asked) = run(d, Event::Tick, &[]);
    assert_eq!(asked, vec![find("bb")]);
}

#[test]
fn later_record_is_picked_up() {
    let d = Discovery::begin();
    let (d, asked) = run(d, Event::Resolved(service("aa@x", &[])), &[]);
    assert_eq!(asked, vec![find("aa")]);
    let (d, asked) = run(d, Event::Tick, &[]);
    assert_eq!(asked, vec![find("aa")]);
    let (_, asked) = run(d, Event::Tick, &[("aa", "U")]);
    assert_eq!(asked, vec![find("aa"), device("U")]);
}
