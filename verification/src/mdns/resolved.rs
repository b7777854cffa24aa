//! What the daemon reads out of a service that mdns-sd has resolved.
use crate::text::{lowercase, same_text, starts_with};
use vstd::prelude::*;

verus! {

/// The TXT key of the identifier that a device matches its pairing record by.
pub const IDENTIFIER_KEY: &'static str = "identifier";

/// The TXT key of an authentication tag.
pub const AUTH_TAG_KEY: &'static str = "authTag";

/// How the TXT keys of further authentication tags begin.
pub const AUTH_TAG_PREFIX: &'static str = "authTag#";

/// A service instance with the addresses and TXT properties that mdns-sd found for it.
#[verifier::external_type_specification]
#[verifier::external_body]
pub struct ExResolvedService(mdns_sd::ResolvedService);

/// An address of a service: the text of its IP address, and whether that is of version 4.
#[derive(Debug, PartialEq, Eq)]
pub struct Address {
    pub ipv4: bool,
    pub text: String,
}

/// The model of an [`Address`].
pub struct AddressModel {
    pub ipv4: bool,
    pub text: Seq<char>,
}

impl View for Address {
    type V = AddressModel;

    open spec fn view(&self) -> AddressModel {
        AddressModel { ipv4: self.ipv4, text: self.text@ }
    }
}

/// One TXT property: a key, and a value where the key has one.
#[derive(Debug, PartialEq, Eq)]
pub struct Property {
    pub key: String,
    pub value: Option<Vec<u8>>,
}

/// The model of a [`Property`].
pub struct PropertyModel {
    pub key: Seq<char>,
    pub value: Option<Seq<u8>>,
}

/// The bytes behind an optional vector.
pub open spec fn bytes_of(v: Option<Vec<u8>>) -> Option<Seq<u8>> {
    match v {
        Some(b) => Some(b@),
        None => None,
    }
}

impl View for Property {
    type V = PropertyModel;

    open spec fn view(&self) -> PropertyModel {
        PropertyModel { key: self.key@, value: bytes_of(self.value) }
    }
}

/// The full name of a resolved service.
pub uninterp spec fn fullname_of(resolved: mdns_sd::ResolvedService) -> Seq<char>;

/// The TXT properties of a resolved service, in the order in which it holds them.
pub uninterp spec fn properties_of(resolved: mdns_sd::ResolvedService) -> Seq<PropertyModel>;

/// The addresses of a resolved service.
pub uninterp spec fn addresses_of(resolved: mdns_sd::ResolvedService) -> Set<AddressModel>;

/// The models of a list of addresses.
pub open spec fn address_models(addresses: Seq<Address>) -> Seq<AddressModel> {
    addresses.map_values(|a: Address| a@)
}

/// The models of a list of properties.
pub open spec fn property_models(properties: Seq<Property>) -> Seq<PropertyModel> {
    properties.map_values(|p: Property| p@)
}

/// The value of the first property whose key is `key` but for case.
pub open spec fn property_value(props: Seq<PropertyModel>, key: Seq<char>) -> Option<Option<Seq<u8>>>
    decreases props.len(),
{
    if props.len() == 0 {
        None
    } else if lowercase(props[0].key) == lowercase(key) {
        Some(props[0].value)
    } else {
        property_value(props.skip(1), key)
    }
}

/// Whether a property is an authentication tag: its key says so, case included, and it has a
/// value.
pub open spec fn is_auth_tag(p: PropertyModel) -> bool {
    (p.key == AUTH_TAG_KEY@ || AUTH_TAG_PREFIX@.is_prefix_of(p.key)) && p.value is Some
}

/// The authentication tags among properties, in their order.
pub open spec fn auth_tags_in(props: Seq<PropertyModel>) -> Seq<Seq<u8>> {
    props.filter(|p: PropertyModel| is_auth_tag(p)).map_values(|p: PropertyModel| p.value->0)
}

/// The first address of version 4.
pub open spec fn first_ipv4(addresses: Seq<AddressModel>) -> Option<AddressModel>
    decreases addresses.len(),
{
    if addresses.len() == 0 {
        None
    } else if addresses[0].ipv4 {
        Some(addresses[0])
    } else {
        first_ipv4(addresses.skip(1))
    }
}

/// The address to use out of a list: the first of version 4, or else the first.
pub open spec fn preferred(addresses: Seq<AddressModel>) -> Option<AddressModel> {
    if first_ipv4(addresses) is Some {
        first_ipv4(addresses)
    } else if addresses.len() > 0 {
        Some(addresses[0])
    } else {
        None
    }
}

/// Whether an address may be picked out of a set: one of the set, and of version 4 if there is
/// one of version 4; none only if there is none.
pub open spec fn may_pick(addresses: Set<AddressModel>, pick: Option<AddressModel>) -> bool {
    match pick {
        Some(a) => {
            &&& addresses.contains(a)
            &&& (exists|b: AddressModel| #[trigger] addresses.contains(b) && b.ipv4) ==> a.ipv4
        },
        None => addresses == Set::<AddressModel>::empty(),
    }
}

/// The field `fullname` of `mdns_sd::ResolvedService`.
#[verifier::external_body]
fn fullname(resolved: &mdns_sd::ResolvedService) -> (r: String)
    ensures
        r@ == fullname_of(*resolved),
{
    resolved.fullname.clone()
}

/// `mdns_sd::ResolvedService::get_properties`: the TXT properties, walked with
/// `mdns_sd::TxtProperties::iter` in the order in which they are held, each with its
/// `mdns_sd::TxtProperty::key` and `val`.
#[verifier::external_body]
fn properties(resolved: &mdns_sd::ResolvedService) -> (r: Vec<Property>)
    ensures
        property_models(r@) == properties_of(*resolved),
{
    resolved
        .get_properties()
        .iter()
        .map(|p| Property { key: p.key().to_string(), value: p.val().map(|v| v.to_vec()) })
        .collect()
}

/// `mdns_sd::ResolvedService::get_property_val`: the value of the first TXT property with a key
/// that is the same as the given one once both are lowercase, which may be that it has no value.
#[verifier::external_body]
fn get_property_val(resolved: &mdns_sd::ResolvedService, key: &str) -> (r: Option<Option<Vec<u8>>>)
    ensures
        property_value(properties_of(*resolved), key@) == (match r {
            Some(value) => Some(bytes_of(value)),
            None => None,
        }),
{
    resolved.get_property_val(key).map(|v| v.map(|b| b.to_vec()))
}

/// The field `addresses` of `mdns_sd::ResolvedService`, a hash set: its addresses, each with what
/// `mdns_sd::ScopedIp::is_ipv4` says of it and with the text of its `to_ip_addr`. The order in
/// which they come is left open.
#[verifier::external_body]
fn addresses(resolved: &mdns_sd::ResolvedService) -> (r: Vec<Address>)
    ensures
        address_models(r@).to_set() == addresses_of(*resolved),
{
    resolved
        .addresses
        .iter()
        .map(|a| Address { ipv4: a.is_ipv4(), text: a.to_ip_addr().to_string() })
        .collect()
}

/// A copy of an address.
pub fn copy_address(a: &Address) -> (r: Address)
    ensures
        r@ == a@,
{
    Address { ipv4: a.ipv4, text: a.text.clone() }
}

/// The address to use out of a list: the first of version 4, or else the first.
pub fn prefer(addresses: &[Address]) -> (r: Option<Address>)
    ensures
        r is Some <==> preferred(address_models(addresses@)) is Some,
        r matches Some(a) ==> Some(a@) == preferred(address_models(addresses@)),
{
    let ghost all = address_models(addresses@);
    let mut i: usize = 0;
    assert(all.skip(0) =~= all);
    while i < addresses.len()
        invariant
            i <= addresses@.len(),
            all == address_models(addresses@),
            first_ipv4(all) == first_ipv4(all.skip(i as int)),
        decreases addresses@.len() - i,
    {
        assert(all.skip(i as int)[0] == addresses@[i as int]@);
        if addresses[i].ipv4 {
            return Some(copy_address(&addresses[i]));
        }
        assert(all.skip(i as int).skip(1) =~= all.skip(i + 1));
        i += 1;
    }
    if addresses.len() > 0 {
        Some(copy_address(&addresses[0]))
    } else {
        None
    }
}

proof fn lemma_first_ipv4(addresses: Seq<AddressModel>)
    ensures
        match first_ipv4(addresses) {
            Some(a) => a.ipv4 && addresses.contains(a),
            None => forall|i: int| 0 <= i < addresses.len() ==> !(#[trigger] addresses[i]).ipv4,
        },
    decreases addresses.len(),
{
    if addresses.len() > 0 && !addresses[0].ipv4 {
        let rest = addresses.skip(1);
        lemma_first_ipv4(rest);
        if let Some(a) = first_ipv4(rest) {
            let i = choose|i: int| 0 <= i < rest.len() && rest[i] == a;
            assert(addresses[i + 1] == a);
        } else {
            assert forall|i: int| 0 <= i < addresses.len() implies !(#[trigger] addresses[i]).ipv4 by {
                if i > 0 {
                    assert(rest[i - 1] == addresses[i]);
                }
            }
        }
    }
}

/// The address that is preferred out of a list is one that may be picked out of its members, in
/// whatever order they are listed.
pub proof fn law_preferred_may_be_picked(addresses: Seq<AddressModel>)
    ensures
        may_pick(addresses.to_set(), preferred(addresses)),
{
    lemma_first_ipv4(addresses);
    if addresses.len() > 0 {
        assert(addresses.contains(addresses[0]));
        if first_ipv4(addresses) is None {
            assert forall|b: AddressModel| addresses.to_set().contains(b) implies !b.ipv4 by {
                let i = choose|i: int| 0 <= i < addresses.len() && addresses[i] == b;
            }
        }
    } else {
        assert(addresses.to_set() =~= Set::empty());
    }
}

/// The address to use of a resolved service: one of version 4 if it has any, or else any.
pub fn pick_address(resolved: &mdns_sd::ResolvedService) -> (r: Option<Address>)
    ensures
        may_pick(addresses_of(*resolved), address_model(r)),
        r is None ==> addresses_of(*resolved) == Set::<AddressModel>::empty(),
        r matches Some(a) ==> {
            &&& addresses_of(*resolved).contains(a@)
            &&& a.ipv4 || forall|b: AddressModel| #[trigger]
                addresses_of(*resolved).contains(b) ==> !b.ipv4
        },
{
    let all = addresses(resolved);
    proof {
        law_preferred_may_be_picked(address_models(all@));
    }
    prefer(all.as_slice())
}

/// The bytes behind a list of vectors.
pub open spec fn byte_lists(v: Seq<Vec<u8>>) -> Seq<Seq<u8>> {
    v.map_values(|b: Vec<u8>| b@)
}

/// The authentication tags among properties, in their order.
pub fn auth_tags(properties: Vec<Property>) -> (r: Vec<Vec<u8>>)
    ensures
        byte_lists(r@) == auth_tags_in(property_models(properties@)),
{
    let mut tags: Vec<Vec<u8>> = Vec::new();
    let ghost all = property_models(properties@);
    let ghost wanted = |p: PropertyModel| is_auth_tag(p);
    assert(all.take(0).filter(wanted) =~= Seq::empty()) by {
        reveal(Seq::filter);
    }
    assert(byte_lists(tags@) =~= auth_tags_in(all.take(0)));
    let mut i: usize = 0;
    while i < properties.len()
        invariant
            i <= properties@.len(),
            all == property_models(properties@),
            wanted == (|p: PropertyModel| is_auth_tag(p)),
            byte_lists(tags@) == auth_tags_in(all.take(i as int)),
        decreases properties@.len() - i,
    {
        let p: &Property = &properties[i];
        let ghost before = all.take(i as int);
        let ghost upto = all.take(i + 1);
        proof {
            reveal(Seq::filter);
            assert(upto.drop_last() =~= before);
            assert(upto.last() == p@);
        }
        let named = same_text(p.key.as_str(), AUTH_TAG_KEY) || starts_with(
            p.key.as_str(),
            AUTH_TAG_PREFIX,
        );
        let ghost old_tags = tags@;
        if named {
            if let Some(value) = &p.value {
                tags.push(value.clone());
                assert(byte_lists(tags@) =~= byte_lists(old_tags).push(value@));
                assert(auth_tags_in(upto) =~= auth_tags_in(before).push(value@));
            }
        }
        i += 1;
    }
    assert(all.take(i as int) =~= all);
    tags
}

/// What there is to know of a service in order to announce it.
#[derive(Debug, PartialEq, Eq)]
pub struct Service {
    pub fullname: String,
    pub address: Option<Address>,
    pub identifier: Option<Vec<u8>>,
    pub auth_tags: Vec<Vec<u8>>,
}

/// The model of a [`Service`].
pub struct ServiceModel {
    pub fullname: Seq<char>,
    pub address: Option<AddressModel>,
    pub identifier: Option<Seq<u8>>,
    pub auth_tags: Seq<Seq<u8>>,
}

/// The model of an optional address.
pub open spec fn address_model(a: Option<Address>) -> Option<AddressModel> {
    match a {
        Some(a) => Some(a@),
        None => None,
    }
}

impl View for Service {
    type V = ServiceModel;

    open spec fn view(&self) -> ServiceModel {
        ServiceModel {
            fullname: self.fullname@,
            address: address_model(self.address),
            identifier: bytes_of(self.identifier),
            auth_tags: byte_lists(self.auth_tags@),
        }
    }
}

/// The value of the identifier property; none where there is no such property or it has no
/// value.
pub open spec fn identifier_in(props: Seq<PropertyModel>) -> Option<Seq<u8>> {
    match property_value(props, IDENTIFIER_KEY@) {
        Some(value) => value,
        None => None,
    }
}

/// Reads out of a resolved service what there is to know in order to announce it.
pub fn read_service(resolved: &mdns_sd::ResolvedService) -> (r: Service)
    ensures
        r@.fullname == fullname_of(*resolved),
        may_pick(addresses_of(*resolved), r@.address),
        r@.identifier == identifier_in(properties_of(*resolved)),
        r@.auth_tags == auth_tags_in(properties_of(*resolved)),
        r.fullname@ == fullname_of(*resolved),
        r.address is None ==> addresses_of(*resolved) == Set::<AddressModel>::empty(),
        r.address matches Some(a) ==> {
            &&& addresses_of(*resolved).contains(a@)
            &&& a.ipv4 || forall|b: AddressModel| #[trigger]
                addresses_of(*resolved).contains(b) ==> !b.ipv4
        },
        r.identifier is Some <==> (property_value(properties_of(*resolved), "identifier"@) matches Some(
            value,
        ) && value is Some),
        r.identifier matches Some(id) ==> property_value(properties_of(*resolved), "identifier"@)
            == Some(Some(id@)),
{
    let identifier = match get_property_val(resolved, IDENTIFIER_KEY) {
        Some(value) => value,
        None => None,
    };
    Service {
        fullname: fullname(resolved),
        address: pick_address(resolved),
        identifier,
        auth_tags: auth_tags(properties(resolved)),
    }
}

/// The address that is preferred out of a list is the first of version 4. If there is none of version
/// 4 it is the first of all, and only an empty list has none.
pub proof fn law_preferred_is_the_first_ipv4(addresses: Seq<AddressModel>, i: int)
    requires
        0 <= i < addresses.len(),
    ensures
        preferred(Seq::empty()) is None,
        addresses[i].ipv4 && (forall|j: int| 0 <= j < i ==> !(#[trigger] addresses[j]).ipv4)
            ==> preferred(addresses) == Some(addresses[i]),
        (forall|j: int| 0 <= j < addresses.len() ==> !(#[trigger] addresses[j]).ipv4) ==> preferred(
            addresses,
        ) == Some(addresses[0]),
    decreases i,
{
    lemma_first_ipv4(addresses);
    if i > 0 && addresses[i].ipv4 && (forall|j: int|
        0 <= j < i ==> !(#[trigger] addresses[j]).ipv4) {
        let rest = addresses.skip(1);
        assert(rest[i - 1] == addresses[i]);
        assert forall|j: int| 0 <= j < i - 1 implies !(#[trigger] rest[j]).ipv4 by {
            assert(rest[j] == addresses[j + 1]);
        }
        assert(!addresses[0].ipv4);
        law_preferred_is_the_first_ipv4(rest, i - 1);
        lemma_first_ipv4(rest);
        assert(rest.contains(rest[i - 1]));
    }
    if forall|j: int| 0 <= j < addresses.len() ==> !(#[trigger] addresses[j]).ipv4 {
        if let Some(a) = first_ipv4(addresses) {
            let j = choose|j: int| 0 <= j < addresses.len() && addresses[j] == a;
            assert(!addresses[j].ipv4);
        }
    }
}

/// Properties are searched from the first on, and their keys compared in lowercase.
pub proof fn law_property_value_is_the_first(props: Seq<PropertyModel>, key: Seq<char>, i: int)
    requires
        0 <= i < props.len(),
        lowercase(props[i].key) == lowercase(key),
        forall|j: int| 0 <= j < i ==> lowercase((#[trigger] props[j]).key) != lowercase(key),
    ensures
        property_value(props, key) == Some(props[i].value),
    decreases i,
{
    if i > 0 {
        let rest = props.skip(1);
        assert(rest[i - 1] == props[i]);
        assert(lowercase(props[0].key) != lowercase(key));
        assert forall|j: int| 0 <= j < i - 1 implies lowercase((#[trigger] rest[j]).key) != lowercase(
            key,
        ) by {
            assert(rest[j] == props[j + 1]);
        }
        law_property_value_is_the_first(rest, key, i - 1);
    }
}

/// A key that no property has is not found.
pub proof fn law_absent_property_has_no_value(props: Seq<PropertyModel>, key: Seq<char>)
    requires
        forall|j: int| 0 <= j < props.len() ==> lowercase((#[trigger] props[j]).key) != lowercase(key),
    ensures
        property_value(props, key) is None,
    decreases props.len(),
{
    if props.len() > 0 {
        let rest = props.skip(1);
        assert(lowercase(props[0].key) != lowercase(key));
        assert forall|j: int| 0 <= j < rest.len() implies lowercase((#[trigger] rest[j]).key)
            != lowercase(key) by {
            assert(rest[j] == props[j + 1]);
        }
        law_absent_property_has_no_value(rest, key);
    }
}

/// The authentication tags are gathered in the order of the properties: one more property adds its
/// value if it has one and its key is `authTag`, or `authTag#` and anything after, and nothing
/// otherwise.
pub proof fn law_auth_tags_grow_by_properties(props: Seq<PropertyModel>, p: PropertyModel)
    ensures
        auth_tags_in(Seq::empty()) == Seq::<Seq<u8>>::empty(),
        auth_tags_in(props.push(p)) == match p.value {
            Some(value) => if p.key == "authTag"@ || (p.key.len() >= 8 && p.key.take(8)
                == "authTag#"@) {
                auth_tags_in(props).push(value)
            } else {
                auth_tags_in(props)
            },
            None => auth_tags_in(props),
        },
{
    reveal(Seq::filter);
    reveal_strlit("authTag#");
    assert(auth_tags_in(Seq::empty()) =~= Seq::empty());
    let longer = props.push(p);
    assert(longer.drop_last() =~= props);
    let prefix = "authTag#"@;
    if p.key.len() >= 8 {
        assert(p.key.take(8) =~= p.key.subrange(0, 8));
        if prefix.is_prefix_of(p.key) {
            assert(prefix =~= p.key.subrange(0, 8));
        }
    }
    assert(prefix.is_prefix_of(p.key) <==> p.key.len() >= 8 && p.key.take(8) == prefix);
    if is_auth_tag(p) {
        assert(auth_tags_in(longer) =~= auth_tags_in(props).push(p.value->0));
    }
}

/// The view of a service has the same name, address, identifier and tags.
pub proof fn law_service_view(service: Service, i: int)
    ensures
        service@.fullname == service.fullname@,
        service.address matches Some(a) ==> (service@.address matches Some(m) && m.ipv4 == a.ipv4
            && m.text == a.text@),
        service.address is None <==> service@.address is None,
        service.identifier matches Some(id) ==> service@.identifier == Some(id@),
        service.identifier is None <==> service@.identifier is None,
        service@.auth_tags.len() == service.auth_tags@.len(),
        0 <= i < service.auth_tags@.len() ==> service@.auth_tags[i] == service.auth_tags@[i]@,
{
}

/// The models of lists of addresses, properties and bytes are those of all their members, in their
/// order, with the same contents.
pub proof fn law_models_are_those_of_the_lists(
    addresses: Seq<Address>,
    properties: Seq<Property>,
    lists: Seq<Vec<u8>>,
    i: int,
)
    ensures
        address_models(addresses).len() == addresses.len(),
        0 <= i < addresses.len() ==> address_models(addresses)[i].ipv4 == addresses[i].ipv4
            && address_models(addresses)[i].text == addresses[i].text@,
        property_models(properties).len() == properties.len(),
        0 <= i < properties.len() ==> {
            let p = properties[i];
            let m = property_models(properties)[i];
            &&& m.key == p.key@
            &&& m.value is Some <==> p.value is Some
            &&& p.value matches Some(value) ==> m.value == Some(value@)
        },
        byte_lists(lists).len() == lists.len(),
        0 <= i < lists.len() ==> byte_lists(lists)[i] == lists[i]@,
{
}

} // verus!
