//! Handing a resolved service to the manager.
use crate::mdns::resolved::{
    byte_lists, copy_address, Address, AddressModel, Service, ServiceModel,
};
use crate::text::{before_char, contains_char};
use vstd::prelude::*;

verus! {

/// The name of the service that devices offer.
pub const SERVICE_NAME: &'static str = "apple-mobdev2";

/// The protocol of the service that devices offer.
pub const SERVICE_PROTOCOL: &'static str = "tcp";

/// How a device that was discovered here is connected.
pub const CONNECTION_TYPE: &'static str = "Network";

/// The service type as the manager expects it.
pub open spec fn service_name_text() -> Seq<char> {
    "_"@ + SERVICE_NAME@ + "._"@ + SERVICE_PROTOCOL@ + ".local"@
}

/// The service type is spelled `_apple-mobdev2._tcp.local`, and with a dot at its end for browsing.
pub proof fn law_service_type_is_spelled_out()
    ensures
        service_name_text() == "_apple-mobdev2._tcp.local"@,
        service_name_text().push('.') == "_apple-mobdev2._tcp.local."@,
{
    reveal_strlit("_");
    reveal_strlit("apple-mobdev2");
    reveal_strlit("._");
    reveal_strlit("tcp");
    reveal_strlit(".local");
    reveal_strlit("_apple-mobdev2._tcp.local");
    reveal_strlit("_apple-mobdev2._tcp.local.");
    assert(service_name_text() =~= "_apple-mobdev2._tcp.local"@);
    assert(service_name_text().push('.') =~= "_apple-mobdev2._tcp.local."@);
}

/// The service type as the manager expects it.
pub fn service_name() -> (r: String)
    ensures
        r@ == service_name_text(),
        r@ == "_apple-mobdev2._tcp.local"@,
{
    proof {
        law_service_type_is_spelled_out();
    }
    let mut name = "_".to_owned();
    name.append(SERVICE_NAME);
    name.append("._");
    name.append(SERVICE_PROTOCOL);
    name.append(".local");
    name
}

/// The fully-qualified service type, as browsing expects it: that of the manager, and a dot.
pub fn browse_type() -> (r: String)
    ensures
        r@ == service_name_text().push('.'),
        r@ == "_apple-mobdev2._tcp.local."@,
{
    proof {
        law_service_type_is_spelled_out();
    }
    let mut name = service_name();
    name.push('.');
    name
}

/// A device that was discovered, as the manager is told of it.
#[derive(Debug, PartialEq, Eq)]
pub struct Device {
    pub udid: String,
    pub address: Address,
    pub service_name: String,
    pub connection_type: String,
}

/// The model of a [`Device`].
pub struct DeviceModel {
    pub udid: Seq<char>,
    pub address: AddressModel,
    pub service_name: Seq<char>,
    pub connection_type: Seq<char>,
}

impl View for Device {
    type V = DeviceModel;

    open spec fn view(&self) -> DeviceModel {
        DeviceModel {
            udid: self.udid@,
            address: self.address@,
            service_name: self.service_name@,
            connection_type: self.connection_type@,
        }
    }
}

/// Something to be done in order to announce a service.
#[derive(Debug, PartialEq, Eq)]
pub enum Request {
    /// Look for the device whose pairing record matches an identifier and one of some tags.
    FindByTxt { identifier: Vec<u8>, auth_tags: Vec<Vec<u8>> },
    /// Look for the device with a MAC address.
    FindByMac { mac: String },
    /// Tell the manager of a device.
    Send(Device),
}

/// The model of a [`Request`].
pub enum RequestModel {
    FindByTxt { identifier: Seq<u8>, auth_tags: Seq<Seq<u8>> },
    FindByMac { mac: Seq<char> },
    Send(DeviceModel),
}

impl View for Request {
    type V = RequestModel;

    open spec fn view(&self) -> RequestModel {
        match *self {
            Request::FindByTxt { identifier, auth_tags } => RequestModel::FindByTxt {
                identifier: identifier@,
                auth_tags: byte_lists(auth_tags@),
            },
            Request::FindByMac { mac } => RequestModel::FindByMac { mac: mac@ },
            Request::Send(device) => RequestModel::Send(device@),
        }
    }
}

/// What came of a request. `S` is a string, or in the model its text.
#[derive(Debug, PartialEq, Eq)]
pub enum Answer<S> {
    /// The UDID of the device that was looked for, if it was found.
    Udid(Option<S>),
    /// Whether the manager could be told.
    Sent(bool),
}

impl View for Answer<String> {
    type V = Answer<Seq<char>>;

    open spec fn view(&self) -> Answer<Seq<char>> {
        match *self {
            Answer::Udid(Some(udid)) => Answer::Udid(Some(udid@)),
            Answer::Udid(None) => Answer::Udid(None),
            Answer::Sent(ok) => Answer::Sent(ok),
        }
    }
}

/// Where announcing a service has got to. `S` is a string, or in the model its text.
#[derive(Debug, PartialEq, Eq)]
pub enum Announce<S> {
    /// Looking for a pairing record by the service's TXT properties.
    ByTxt,
    /// Looking for a pairing record by the MAC address in the service's name.
    ByMac,
    /// Telling the manager of the device with this UDID.
    Send { udid: S },
    /// Done: an error if the manager is gone.
    Finished(Result<(), ()>),
}

impl View for Announce<String> {
    type V = Announce<Seq<char>>;

    open spec fn view(&self) -> Announce<Seq<char>> {
        match *self {
            Announce::ByTxt => Announce::ByTxt,
            Announce::ByMac => Announce::ByMac,
            Announce::Send { udid } => Announce::Send { udid: udid@ },
            Announce::Finished(outcome) => Announce::Finished(outcome),
        }
    }
}

impl ServiceModel {
    /// Whether the service says enough in its TXT properties to be matched by them.
    pub open spec fn has_txt(self) -> bool {
        self.identifier is Some && self.auth_tags.len() > 0
    }

    /// The MAC address in the service's name: what stands before the first `@`.
    pub open spec fn mac(self) -> Option<Seq<char>> {
        if self.fullname.contains('@') {
            Some(self.fullname.take(self.fullname.index_of_first('@')->0))
        } else {
            None
        }
    }

    /// The device with a UDID, as the manager is told of it.
    pub open spec fn device(self, udid: Seq<char>, service_name: Seq<char>) -> DeviceModel {
        DeviceModel {
            udid,
            address: self.address->0,
            service_name,
            connection_type: CONNECTION_TYPE@,
        }
    }

    /// The UDID that pairing records have for the service's TXT properties.
    pub open spec fn udid_by_txt(self, records: Records) -> Option<Seq<char>> {
        match self.identifier {
            Some(identifier) => if self.auth_tags.len() > 0 {
                records(RequestModel::FindByTxt { identifier, auth_tags: self.auth_tags })
            } else {
                None
            },
            None => None,
        }
    }

    /// The UDID that pairing records have for the MAC address in the service's name.
    pub open spec fn udid_by_mac(self, records: Records) -> Option<Seq<char>> {
        match self.mac() {
            Some(mac) => records(RequestModel::FindByMac { mac }),
            None => None,
        }
    }

    /// The UDID that pairing records have for the service: by its TXT properties, or else by the MAC
    /// address in its name.
    pub open spec fn udid(self, records: Records) -> Option<Seq<char>> {
        if self.udid_by_txt(records) is Some {
            self.udid_by_txt(records)
        } else {
            self.udid_by_mac(records)
        }
    }
}

/// Pairing records: what comes of looking a device up in them.
pub type Records = spec_fn(RequestModel) -> Option<Seq<char>>;

/// The answer to a request, where the lookups go by some pairing records and the manager is there.
pub open spec fn answer_to(request: RequestModel, records: Records) -> Answer<Seq<char>> {
    match request {
        RequestModel::Send(_) => Answer::Sent(true),
        _ => Answer::Udid(records(request)),
    }
}

impl Announce<Seq<char>> {
    /// Where announcing a service goes on when its TXT properties have not matched.
    pub open spec fn without_txt(service: ServiceModel) -> Announce<Seq<char>> {
        if service.mac() is Some {
            Announce::ByMac
        } else {
            Announce::Finished(Ok(()))
        }
    }

    /// Where announcing a service starts: nowhere if it has no address.
    pub open spec fn start(service: ServiceModel) -> Announce<Seq<char>> {
        if service.address is None {
            Announce::Finished(Ok(()))
        } else if service.has_txt() {
            Announce::ByTxt
        } else {
            Announce::without_txt(service)
        }
    }

    /// What is to be done, where the manager is to be told `service_name` as the type of the
    /// service; nothing when all is done, or where the service has not got what this state needs
    /// of it.
    pub open spec fn due(self, service: ServiceModel, service_name: Seq<char>) -> Option<
        RequestModel,
    > {
        match self {
            Announce::ByTxt => match service.identifier {
                Some(identifier) => Some(
                    RequestModel::FindByTxt { identifier, auth_tags: service.auth_tags },
                ),
                None => None,
            },
            Announce::ByMac => match service.mac() {
                Some(mac) => Some(RequestModel::FindByMac { mac }),
                None => None,
            },
            Announce::Send { udid } => match service.address {
                Some(_) => Some(RequestModel::Send(service.device(udid, service_name))),
                None => None,
            },
            Announce::Finished(_) => None,
        }
    }

    /// The state that an answer leads to. One that is no answer to what was to be done changes
    /// nothing.
    pub open spec fn next(self, service: ServiceModel, answer: Answer<Seq<char>>) -> Announce<
        Seq<char>,
    > {
        match (self, answer) {
            (Announce::ByTxt, Answer::Udid(Some(udid))) => Announce::Send { udid },
            (Announce::ByTxt, Answer::Udid(None)) => Announce::without_txt(service),
            (Announce::ByMac, Answer::Udid(Some(udid))) => Announce::Send { udid },
            (Announce::ByMac, Answer::Udid(None)) => Announce::Finished(Ok(())),
            (Announce::Send { .. }, Answer::Sent(true)) => Announce::Finished(Ok(())),
            (Announce::Send { .. }, Answer::Sent(false)) => Announce::Finished(Err(())),
            _ => self,
        }
    }

    /// Whether the service has what this state needs of it.
    pub open spec fn fits(self, service: ServiceModel) -> bool {
        match self {
            Announce::ByTxt => service.address is Some && service.has_txt(),
            Announce::ByMac => service.address is Some && service.mac() is Some,
            Announce::Send { .. } => service.address is Some,
            Announce::Finished(_) => true,
        }
    }

    /// Whether an answer is one to what is to be done.
    pub open spec fn is_answered_by(self, answer: Answer<Seq<char>>) -> bool {
        match self {
            Announce::ByTxt => answer is Udid,
            Announce::ByMac => answer is Udid,
            Announce::Send { .. } => answer is Sent,
            Announce::Finished(_) => false,
        }
    }

    /// All that is still asked for, one after the other, where the lookups go by some pairing records
    /// and the manager is there.
    pub open spec fn asked(
        self,
        service: ServiceModel,
        service_name: Seq<char>,
        records: Records,
    ) -> Seq<RequestModel>
        decreases self.answers_left(),
    {
        match self.due(service, service_name) {
            Some(request) => seq![request] + self.next(service, answer_to(request, records)).asked(
                service,
                service_name,
                records,
            ),
            None => Seq::empty(),
        }
    }

    /// How many answers it takes at most until all is done.
    pub open spec fn answers_left(self) -> nat {
        match self {
            Announce::ByTxt => 3,
            Announce::ByMac => 2,
            Announce::Send { .. } => 1,
            Announce::Finished(_) => 0,
        }
    }
}

/// A copy of some bytes.
fn copy_bytes(bytes: &Vec<u8>) -> (r: Vec<u8>)
    ensures
        r@ == bytes@,
{
    bytes.clone()
}

/// A copy of some lists of bytes.
fn copy_byte_lists(lists: &Vec<Vec<u8>>) -> (r: Vec<Vec<u8>>)
    ensures
        byte_lists(r@) == byte_lists(lists@),
{
    let mut out: Vec<Vec<u8>> = Vec::new();
    let mut i: usize = 0;
    while i < lists.len()
        invariant
            i <= lists@.len(),
            byte_lists(out@) == byte_lists(lists@).take(i as int),
        decreases lists@.len() - i,
    {
        let ghost before = out@;
        out.push(copy_bytes(&lists[i]));
        assert(byte_lists(out@) =~= byte_lists(before).push(lists@[i as int]@));
        assert(byte_lists(lists@).take(i + 1) =~= byte_lists(lists@).take(i as int).push(
            lists@[i as int]@,
        ));
        i += 1;
    }
    assert(byte_lists(lists@).take(i as int) =~= byte_lists(lists@));
    out
}

impl Announce<String> {
    /// Where announcing a service goes on when its TXT properties have not matched.
    fn past_txt(service: &Service) -> (r: Self)
        ensures
            r@ == Announce::without_txt(service@),
    {
        if contains_char(service.fullname.as_str(), '@') {
            Announce::ByMac
        } else {
            Announce::Finished(Ok(()))
        }
    }

    /// Where announcing a service starts.
    pub fn begin(service: &Service) -> (r: Self)
        ensures
            r@ == Announce::start(service@),
            r is ByTxt <==> service.address is Some && service.identifier is Some
                && service.auth_tags@.len() > 0,
            r is ByMac <==> service.address is Some && !(service.identifier is Some
                && service.auth_tags@.len() > 0) && service.fullname@.contains('@'),
            !(r is ByTxt) && !(r is ByMac) ==> r == Announce::<String>::Finished(Ok(())),
    {
        if service.address.is_none() {
            return Announce::Finished(Ok(()));
        }
        if service.identifier.is_some() && service.auth_tags.len() > 0 {
            return Announce::ByTxt;
        }
        Self::past_txt(service)
    }

    /// What is to be done, where the manager is to be told `service_name` as the type of the
    /// service; nothing when all is done, or where the service has not got what this state needs
    /// of it.
    pub fn request(&self, service: &Service, service_name: &str) -> (r: Option<Request>)
        ensures
            r is Some <==> self@.due(service@, service_name@) is Some,
            r matches Some(request) ==> Some(request@) == self@.due(service@, service_name@),
            self is ByTxt && service.identifier is Some <==> r matches Some(Request::FindByTxt { .. }),
            r matches Some(Request::FindByTxt { identifier, auth_tags }) ==> {
                &&& identifier@ == service.identifier->0@
                &&& auth_tags@.len() == service.auth_tags@.len()
                &&& forall|i: int|
                    0 <= i < auth_tags@.len() ==> (#[trigger] auth_tags@[i])@ == service.auth_tags@[i]@
            },
            self is ByMac && service.fullname@.contains('@') <==> r matches Some(
                Request::FindByMac { .. },
            ),
            r matches Some(Request::FindByMac { mac }) ==> {
                &&& !mac@.contains('@')
                &&& mac@.push('@').is_prefix_of(service.fullname@)
            },
            self is Send && service.address is Some <==> r matches Some(Request::Send(_)),
            r matches Some(Request::Send(device)) ==> {
                &&& self matches Announce::Send { udid } && device.udid@ == udid@
                &&& device.address.ipv4 == service.address->0.ipv4
                &&& device.address.text@ == service.address->0.text@
                &&& device.service_name@ == service_name@
                &&& device.connection_type@ == "Network"@
            },
    {
        match self {
            Announce::ByTxt => match &service.identifier {
                Some(identifier) => {
                    let auth_tags = copy_byte_lists(&service.auth_tags);
                    assert(byte_lists(auth_tags@).len() == auth_tags@.len());
                    assert(byte_lists(service.auth_tags@).len() == service.auth_tags@.len());
                    assert forall|i: int| 0 <= i < auth_tags@.len() implies (
                    #[trigger] auth_tags@[i])@ == service.auth_tags@[i]@ by {
                        assert(byte_lists(auth_tags@)[i] == byte_lists(service.auth_tags@)[i]);
                    }
                    Some(Request::FindByTxt { identifier: copy_bytes(identifier), auth_tags })
                },
                None => None,
            },
            Announce::ByMac => match before_char(service.fullname.as_str(), '@') {
                Some(mac) => Some(Request::FindByMac { mac }),
                None => None,
            },
            Announce::Send { udid } => match &service.address {
                Some(address) => Some(
                    Request::Send(
                        Device {
                            udid: udid.clone(),
                            address: copy_address(address),
                            service_name: service_name.to_owned(),
                            connection_type: CONNECTION_TYPE.to_owned(),
                        },
                    ),
                ),
                None => None,
            },
            Announce::Finished(_) => None,
        }
    }
}

/// Takes the announcing of a service on from `at` with an answer.
///
/// That no pairing record matches is no error: the service stays among those that are tried
/// again, so that a record written later is still picked up.
pub fn announce(at: Announce<String>, service: &Service, answer: Answer<String>) -> (r: Announce<
    String,
>)
    ensures
        r@ == at@.next(service@, answer@),
        (at is ByTxt || at is ByMac) && (answer matches Answer::Udid(found) && found is Some)
            <==> !(at is Send) && r is Send,
        at is ByTxt && answer == Answer::<String>::Udid(None) && service.fullname@.contains('@')
            <==> !(at is ByMac) && r is ByMac,
        at is Send && answer == Answer::<String>::Sent(false) ==> r == Announce::<String>::Finished(
            Err(()),
        ),
{
    match at {
        Announce::ByTxt => match answer {
            Answer::Udid(Some(udid)) => Announce::Send { udid },
            Answer::Udid(None) => Announce::past_txt(service),
            Answer::Sent(_) => Announce::ByTxt,
        },
        Announce::ByMac => match answer {
            Answer::Udid(Some(udid)) => Announce::Send { udid },
            Answer::Udid(None) => Announce::Finished(Ok(())),
            Answer::Sent(_) => Announce::ByMac,
        },
        Announce::Send { udid } => match answer {
            Answer::Udid(_) => Announce::Send { udid },
            Answer::Sent(true) => Announce::Finished(Ok(())),
            Answer::Sent(false) => Announce::Finished(Err(())),
        },
        Announce::Finished(outcome) => Announce::Finished(outcome),
    }
}

/// Announcing gets somewhere: until it is done there is always something to be done, and each
/// answer to that leaves fewer to come, of at most three.
pub proof fn law_announce_ends(
    at: Announce<Seq<char>>,
    service: ServiceModel,
    service_name: Seq<char>,
    answer: Answer<Seq<char>>,
)
    requires
        at.fits(service),
    ensures
        Announce::start(service).fits(service),
        Announce::start(service).answers_left() <= 3,
        at is Finished <==> at.due(service, service_name) is None,
        at.next(service, answer).fits(service),
        at.is_answered_by(answer) ==> at.next(service, answer).answers_left() < at.answers_left(),
{
}

/// Announcing as a whole, where the lookups go by some pairing records and the manager is there. For
/// a service without an address nothing is asked. Otherwise its TXT properties are looked up if they
/// say enough, then the MAC address in its name if there is one and the properties have matched
/// nothing, and then the manager is told of the device that was found, if one was, once.
pub proof fn law_announce_as_a_whole(
    service: ServiceModel,
    service_name: Seq<char>,
    records: Records,
)
    ensures
        Announce::start(service).asked(service, service_name, records) == if service.address is None {
            Seq::<RequestModel>::empty()
        } else {
            let by_txt = if service.has_txt() {
                seq![
                    RequestModel::FindByTxt {
                        identifier: service.identifier->0,
                        auth_tags: service.auth_tags,
                    },
                ]
            } else {
                seq![]
            };
            let by_mac = if service.mac() is Some && service.udid_by_txt(records) is None {
                seq![RequestModel::FindByMac { mac: service.mac()->0 }]
            } else {
                seq![]
            };
            let told = match service.udid(records) {
                Some(udid) => seq![RequestModel::Send(service.device(udid, service_name))],
                None => seq![],
            };
            by_txt + by_mac + told
        },
{
    reveal_with_fuel(Announce::<_>::asked, 4);
}

/// Announcing fails only when the manager is gone: in particular, neither a service without an
/// address nor one that no pairing record matches is an error.
pub proof fn law_only_a_lost_manager_is_an_error(
    at: Announce<Seq<char>>,
    service: ServiceModel,
    answer: Answer<Seq<char>>,
)
    ensures
        Announce::start(service) != Announce::<Seq<char>>::Finished(Err(())),
        at.next(service, answer) == Announce::<Seq<char>>::Finished(Err(())) <==> {
            ||| at == Announce::<Seq<char>>::Finished(Err(()))
            ||| at is Send && answer == Answer::<Seq<char>>::Sent(false)
        },
{
}

/// The TXT properties are tried first, and the MAC address only if they say too little or match
/// nothing.
pub proof fn law_txt_comes_first(
    at: Announce<Seq<char>>,
    service: ServiceModel,
    answer: Answer<Seq<char>>,
)
    ensures
        service.address is Some && service.has_txt() ==> Announce::start(service) is ByTxt,
        Announce::start(service) is ByMac ==> !service.has_txt(),
        !(at is ByMac) && at.next(service, answer) is ByMac ==> at is ByTxt && answer
            == Answer::<Seq<char>>::Udid(None),
{
}

/// The manager is told of a device by the UDID that was found and the address that was picked.
pub proof fn law_device_is_what_was_found(
    at: Announce<Seq<char>>,
    service: ServiceModel,
    service_name: Seq<char>,
    udid: Seq<char>,
)
    requires
        at.fits(service),
        at is ByTxt || at is ByMac,
    ensures
        at.next(service, Answer::Udid(Some(udid))).due(service, service_name) matches Some(
            RequestModel::Send(device),
        ) && device.udid == udid && Some(device.address) == service.address && device.service_name
            == service_name && device.connection_type == CONNECTION_TYPE@,
{
}

/// The MAC address of a service is the whole of its full name before the first `@`.
pub proof fn law_mac_is_before_the_first_at(service: ServiceModel, mac: Seq<char>, rest: Seq<char>)
    requires
        !mac.contains('@'),
    ensures
        service.fullname == mac.push('@') + rest ==> service.mac() == Some(mac),
        service.fullname == mac ==> service.mac() is None,
{
    let name = mac.push('@') + rest;
    if service.fullname == name {
        let at = mac.len() as int;
        name.index_of_first_ensures('@');
        assert(name[at] == '@');
        assert(name.contains(name[at]));
        assert forall|k: int| 0 <= k < at implies name[k] != '@' by {
            assert(name[k] == mac[k]);
            assert(mac.contains(mac[k]));
        }
        assert(name.index_of_first('@') == Some(at));
        assert(name.take(at) =~= mac);
    }
}

/// Announcing a service with an address and a name of the form MAC address, `@`, something, where the
/// lookups go by some pairing records and the manager is there. The identifier and the tags are looked
/// up if there are both; then the MAC address, all of it, unless that has found something; and then the
/// manager is told, once, of what was found first, under the service's own address.
pub proof fn law_announce_in_full(
    service: ServiceModel,
    mac: Seq<char>,
    rest: Seq<char>,
    name: Seq<char>,
    records: Records,
)
    requires
        service.address is Some,
        !mac.contains('@'),
        service.fullname == mac.push('@') + rest,
    ensures
        ({
            let asked = Announce::start(service).asked(service, name, records);
            let by_mac = RequestModel::FindByMac { mac };
            let tell = |udid: Seq<char>|
                RequestModel::Send(
                    DeviceModel {
                        udid,
                        address: service.address->0,
                        service_name: name,
                        connection_type: "Network"@,
                    },
                );
            let after_mac = match records(by_mac) {
                Some(udid) => seq![by_mac, tell(udid)],
                None => seq![by_mac],
            };
            match service.identifier {
                Some(identifier) => {
                    let by_txt = RequestModel::FindByTxt { identifier, auth_tags: service.auth_tags };
                    if service.auth_tags.len() == 0 {
                        asked == after_mac
                    } else {
                        match records(by_txt) {
                            Some(udid) => asked == seq![by_txt, tell(udid)],
                            None => asked == seq![by_txt] + after_mac,
                        }
                    }
                },
                None => asked == after_mac,
            }
        }),
{
    law_mac_is_before_the_first_at(service, mac, rest);
    law_announce_as_a_whole(service, name, records);
    let asked = Announce::start(service).asked(service, name, records);
    let by_mac = RequestModel::FindByMac { mac };
    let tell = |udid: Seq<char>|
        RequestModel::Send(
            DeviceModel {
                udid,
                address: service.address->0,
                service_name: name,
                connection_type: "Network"@,
            },
        );
    let after_mac = match records(by_mac) {
        Some(udid) => seq![by_mac, tell(udid)],
        None => seq![by_mac],
    };
    match service.identifier {
        Some(identifier) => {
            let by_txt = RequestModel::FindByTxt { identifier, auth_tags: service.auth_tags };
            if service.auth_tags.len() == 0 {
                assert(asked =~= after_mac);
            } else {
                match records(by_txt) {
                    Some(udid) => {
                        assert(asked =~= seq![by_txt, tell(udid)]);
                    },
                    None => {
                        assert(asked =~= seq![by_txt] + after_mac);
                    },
                }
            }
        },
        None => {
            assert(asked =~= after_mac);
        },
    }
}

/// Announcing a service without an `@` in its name, or without an address: the MAC address is not looked
/// up, and without an address nothing is asked at all.
pub proof fn law_announce_without_mac(service: ServiceModel, name: Seq<char>, records: Records)
    ensures
        ({
            let asked = Announce::start(service).asked(service, name, records);
            &&& service.address is None ==> asked.len() == 0
            &&& service.address is Some && !service.fullname.contains('@') ==> match service.identifier {
                Some(identifier) => {
                    let by_txt = RequestModel::FindByTxt { identifier, auth_tags: service.auth_tags };
                    if service.auth_tags.len() == 0 {
                        asked.len() == 0
                    } else {
                        match records(by_txt) {
                            Some(udid) => asked == seq![
                                by_txt,
                                RequestModel::Send(
                                    DeviceModel {
                                        udid,
                                        address: service.address->0,
                                        service_name: name,
                                        connection_type: "Network"@,
                                    },
                                ),
                            ],
                            None => asked == seq![by_txt],
                        }
                    }
                },
                None => asked.len() == 0,
            }
        }),
{
    law_announce_as_a_whole(service, name, records);
    let asked = Announce::start(service).asked(service, name, records);
    if service.address is Some && !service.fullname.contains('@') {
        if let Some(identifier) = service.identifier {
            let by_txt = RequestModel::FindByTxt { identifier, auth_tags: service.auth_tags };
            if service.auth_tags.len() > 0 {
                match records(by_txt) {
                    Some(udid) => {
                        assert(asked =~= seq![
                            by_txt,
                            RequestModel::Send(service.device(udid, name)),
                        ]);
                    },
                    None => {
                        assert(asked =~= seq![by_txt]);
                    },
                }
            }
        }
    }
}

/// An answer to something else than what was asked changes nothing, and what is done stays done.
pub proof fn law_stray_answer_changes_nothing(
    at: Announce<Seq<char>>,
    service: ServiceModel,
    answer: Answer<Seq<char>>,
)
    ensures
        (at is ByTxt || at is ByMac) && answer is Sent ==> at.next(service, answer) == at,
        at is Send && answer is Udid ==> at.next(service, answer) == at,
        at is Finished ==> at.next(service, answer) == at,
{
}

/// The views of requests, answers and states of announcing are the same, with the same texts and bytes.
pub proof fn law_announce_views(
    request: Request,
    answer: Answer<String>,
    at: Announce<String>,
    i: int,
)
    ensures
        request matches Request::FindByTxt { identifier, auth_tags } ==> (
        request@ matches RequestModel::FindByTxt { identifier: id, auth_tags: tags } && id
            == identifier@ && tags.len() == auth_tags@.len() && (0 <= i < tags.len() ==> tags[i]
            == auth_tags@[i]@)),
        request matches Request::FindByMac { mac } ==> (request@ matches RequestModel::FindByMac {
            mac: m,
        } && m == mac@),
        request matches Request::Send(device) ==> (request@ matches RequestModel::Send(m) && m.udid
            == device.udid@ && m.address.ipv4 == device.address.ipv4 && m.address.text
            == device.address.text@ && m.service_name == device.service_name@ && m.connection_type
            == device.connection_type@),
        answer matches Answer::Udid(Some(udid)) ==> answer@ == Answer::Udid(Some(udid@)),
        answer matches Answer::Udid(None) ==> answer@ == Answer::<Seq<char>>::Udid(None),
        answer matches Answer::Sent(ok) ==> answer@ == Answer::<Seq<char>>::Sent(ok),
        at is ByTxt <==> at@ is ByTxt,
        at is ByMac <==> at@ is ByMac,
        at matches Announce::Send { udid } ==> at@ == (Announce::Send { udid: udid@ }),
        at matches Announce::Finished(outcome) ==> at@ == Announce::<Seq<char>>::Finished(outcome),
{
}

} // verus!
