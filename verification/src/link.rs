//! From the texts and options of a caller to a link.

use crate::address::{address_of_text, lemma_address_text_ascii, AddressView, NetworkAddress};
use crate::error::{LinkError, TextField};
use crate::net_id::{lemma_net_id_text_ascii, net_id_of_text, DeviceIdentifier};
use crate::option::{LinkOptions, LinkOptionsView, RemoteTwinCATOption};
use crate::source::{LinkSource, LinkSourceView};
use crate::timeouts::Duration;
use crate::text::lemma_ascii_is_utf8;
use crate::utf8::{bytes_of, text_of, validate_text};
use autd3_link_twincat::remote::{
    AmsAddr, RemoteTwinCAT, RemoteTwinCATOption as RemoteOption, Source as RemoteSource,
    Timeouts as RemoteTimeouts,
};
use core::time::Duration as StdDuration;
use vstd::prelude::*;
use vstd::utf8::valid_utf8;

verus! {

/// `RemoteTwinCAT` of `autd3-link-twincat`: the link itself. Nothing of what
/// it holds can be read.
#[verifier::external_type_specification]
#[verifier::external_body]
pub struct ExRemoteTwinCAT(autd3_link_twincat::remote::RemoteTwinCAT);

/// All that a link is built from, checked and converted.
#[derive(Clone, Copy, Debug, PartialEq, Eq)]
pub struct LinkRequest {
    pub host: NetworkAddress,
    pub net_id: DeviceIdentifier,
    pub options: LinkOptions,
}

/// What a [`LinkRequest`] holds, by the views of its parts.
pub struct LinkRequestView {
    pub host: AddressView,
    pub net_id: Seq<u8>,
    pub options: LinkOptionsView,
}

impl View for LinkRequest {
    type V = LinkRequestView;

    open spec fn view(&self) -> LinkRequestView {
        LinkRequestView { host: self.host@, net_id: self.net_id@, options: self.options@ }
    }
}

/// The host address that a text stands for: the text must be given, be
/// valid UTF-8 and write an IP address.
pub open spec fn host_of(text: Option<Seq<u8>>) -> Result<AddressView, LinkError> {
    match text_of(text, TextField::HostAddress) {
        Err(e) => Err(e),
        Ok(bytes) => match address_of_text(bytes) {
            Some(address) => Ok(address),
            None => Err(LinkError::AddressParse),
        },
    }
}

/// The device identifier that a text stands for: the text must be given, be
/// valid UTF-8 and write an AMS network identifier.
pub open spec fn device_of(text: Option<Seq<u8>>) -> Result<Seq<u8>, LinkError> {
    match text_of(text, TextField::DeviceIdentifier) {
        Err(e) => Err(e),
        Ok(bytes) => match net_id_of_text(bytes) {
            Some(octets) => Ok(octets),
            None => Err(LinkError::IdentifierParse),
        },
    }
}

/// The request that the inputs of a caller stand for, or the error of the
/// first step that fails: the host address, then the device identifier, then
/// the options.
pub open spec fn link_request_of(
    addr: Option<Seq<u8>>,
    ams_net_id: Option<Seq<u8>>,
    option: RemoteTwinCATOption,
) -> Result<LinkRequestView, LinkError> {
    match host_of(addr) {
        Err(e) => Err(e),
        Ok(host) => match device_of(ams_net_id) {
            Err(e) => Err(e),
            Ok(net_id) => match option.resolved() {
                Err(e) => Err(e),
                Ok(options) => Ok(LinkRequestView { host, net_id, options }),
            },
        },
    }
}

/// A text that writes an address stands for that address as the host; a
/// text that is valid UTF-8 and writes none is refused as no address, and
/// then no request is made, whatever the other inputs are.
pub proof fn lemma_host_text(
    text: Seq<u8>,
    ams_net_id: Option<Seq<u8>>,
    option: RemoteTwinCATOption,
)
    ensures
        address_of_text(text) is Some ==> host_of(Some(text)) == Ok::<AddressView, LinkError>(
            address_of_text(text).unwrap(),
        ),
        address_of_text(text) is None && valid_utf8(text) ==> link_request_of(
            Some(text),
            ams_net_id,
            option,
        ) == Err::<LinkRequestView, LinkError>(LinkError::AddressParse),
{
    if address_of_text(text) is Some {
        lemma_address_text_ascii(text);
    }
}

/// Behind a host text that writes an address, a text that writes an
/// identifier stands for that identifier, and a text that is valid UTF-8 and
/// writes none is refused as no identifier, whatever the options are.
pub proof fn lemma_device_text(host: Seq<u8>, text: Seq<u8>, option: RemoteTwinCATOption)
    requires
        address_of_text(host) is Some,
    ensures
        net_id_of_text(text) is Some ==> device_of(Some(text)) == Ok::<Seq<u8>, LinkError>(
            net_id_of_text(text).unwrap(),
        ),
        net_id_of_text(text) is None && valid_utf8(text) ==> link_request_of(
            Some(host),
            Some(text),
            option,
        ) == Err::<LinkRequestView, LinkError>(LinkError::IdentifierParse),
{
    lemma_address_text_ascii(host);
    if net_id_of_text(text) is Some {
        lemma_net_id_text_ascii(text);
        lemma_ascii_is_utf8(text);
    }
}

/// Without the text of the host address or of the device identifier no
/// request is made: the missing host address is reported first, and the
/// missing identifier is reported unless the host address fails before it.
pub proof fn lemma_missing_text(
    addr: Option<Seq<u8>>,
    ams_net_id: Option<Seq<u8>>,
    option: RemoteTwinCATOption,
)
    requires
        addr is None || ams_net_id is None,
    ensures
        link_request_of(addr, ams_net_id, option) is Err,
        addr is None ==> link_request_of(addr, ams_net_id, option) == Err::<
            LinkRequestView,
            LinkError,
        >(LinkError::MissingText(TextField::HostAddress)),
        host_of(addr) is Ok ==> link_request_of(addr, ams_net_id, option) == Err::<
            LinkRequestView,
            LinkError,
        >(LinkError::MissingText(TextField::DeviceIdentifier)),
{
}

/// A request is made exactly where each of the three steps succeeds, and
/// then holds what each step gave.
pub proof fn lemma_request_steps(
    addr: Option<Seq<u8>>,
    ams_net_id: Option<Seq<u8>>,
    option: RemoteTwinCATOption,
)
    ensures
        link_request_of(addr, ams_net_id, option) is Ok <==> host_of(addr) is Ok && device_of(
            ams_net_id,
        ) is Ok && option.resolved() is Ok,
        link_request_of(addr, ams_net_id, option) matches Ok(r) ==> host_of(addr) == Ok::<
            AddressView,
            LinkError,
        >(r.host) && device_of(ams_net_id) == Ok::<Seq<u8>, LinkError>(r.net_id)
            && option.resolved() == Ok::<LinkOptionsView, LinkError>(r.options),
{
}

/// Checks and reads the text of the host address.
pub fn parse_host(text: Option<&[u8]>) -> (host: Result<NetworkAddress, LinkError>)
    ensures
        match host {
            Ok(a) => host_of(bytes_of(text)) == Ok::<AddressView, LinkError>(a@),
            Err(e) => host_of(bytes_of(text)) == Err::<AddressView, LinkError>(e),
        },
{
    match validate_text(text, TextField::HostAddress) {
        Err(e) => Err(e),
        Ok(s) => match NetworkAddress::parse(s) {
            Some(address) => Ok(address),
            None => Err(LinkError::AddressParse),
        },
    }
}

/// Checks and reads the text of the device identifier.
pub fn parse_device(text: Option<&[u8]>) -> (device: Result<DeviceIdentifier, LinkError>)
    ensures
        match device {
            Ok(d) => device_of(bytes_of(text)) == Ok::<Seq<u8>, LinkError>(d@),
            Err(e) => device_of(bytes_of(text)) == Err::<Seq<u8>, LinkError>(e),
        },
{
    match validate_text(text, TextField::DeviceIdentifier) {
        Err(e) => Err(e),
        Ok(s) => match DeviceIdentifier::parse(s) {
            Some(id) => Ok(id),
            None => Err(LinkError::IdentifierParse),
        },
    }
}

/// Checks and converts the inputs of a caller, step by step, and stops at
/// the first step that fails.
pub fn link_request(
    addr: Option<&[u8]>,
    ams_net_id: Option<&[u8]>,
    option: &RemoteTwinCATOption,
) -> (request: Result<LinkRequest, LinkError>)
    ensures
        match request {
            Ok(r) => link_request_of(bytes_of(addr), bytes_of(ams_net_id), *option) == Ok::<
                LinkRequestView,
                LinkError,
            >(r@),
            Err(e) => link_request_of(bytes_of(addr), bytes_of(ams_net_id), *option) == Err::<
                LinkRequestView,
                LinkError,
            >(e),
        },
{
    let host = match parse_host(addr) {
        Ok(host) => host,
        Err(e) => {
            return Err(e);
        },
    };
    let net_id = match parse_device(ams_net_id) {
        Ok(net_id) => net_id,
        Err(e) => {
            return Err(e);
        },
    };
    match option.resolve() {
        Ok(options) => Ok(LinkRequest { host, net_id, options }),
        Err(e) => Err(e),
    }
}

/// The link that `RemoteTwinCAT::new` of `autd3-link-twincat` builds for a host
/// address, a device identifier, three timeouts in nanoseconds and a source
/// selector. The call reads nothing but its arguments, so equal arguments
/// give equal links.
pub uninterp spec fn remote_link(
    host: AddressView,
    net_id: Seq<u8>,
    connect: Option<u64>,
    read: Option<u64>,
    write: Option<u64>,
    source: LinkSourceView,
) -> RemoteTwinCAT;

/// The nanoseconds of a timeout, if it is set.
pub open spec fn nanos_of(timeout: Option<Duration>) -> Option<u64> {
    match timeout {
        Some(d) => Some(d.nanos),
        None => None,
    }
}

/// The link that is built for a request: from its host address, its device
/// identifier, each of its timeouts and its source selector.
pub open spec fn link_of(request: LinkRequestView) -> RemoteTwinCAT {
    remote_link(
        request.host,
        request.net_id,
        nanos_of(request.options.timeouts.connect),
        nanos_of(request.options.timeouts.read),
        nanos_of(request.options.timeouts.write),
        request.options.source,
    )
}

/// Calls `RemoteTwinCAT::new` of `autd3-link-twincat` with the host address, the
/// device identifier, the timeouts and the source selector, each converted
/// to the type that the call takes: through `IpAddr::from`, `AmsNetId::from`,
/// `AmsAddr::new` and `Duration::from_nanos`. Trusted: the call has no side
/// effect and cannot fail, and its result is the link that [`remote_link`]
/// names for these arguments. Nothing else is claimed of the link, which
/// cannot be read here.
#[verifier::external_body]
fn new_link(
    host: NetworkAddress,
    net_id: DeviceIdentifier,
    connect: Option<u64>,
    read: Option<u64>,
    write: Option<u64>,
    source: LinkSource,
) -> (link: RemoteTwinCAT)
    ensures
        link == remote_link(host@, net_id@, connect, read, write, source@),
{
    let nanos = StdDuration::from_nanos;
    let timeouts =
        RemoteTimeouts { connect: connect.map(nanos), read: read.map(nanos), write: write.map(nanos) };
    let source = match source {
        LinkSource::Auto => RemoteSource::Auto,
        LinkSource::Addr(a) => RemoteSource::Addr(AmsAddr::new(a.net_id.octets.into(), a.port)),
        LinkSource::Request => RemoteSource::Request,
    };
    let addr = match host {
        NetworkAddress::V4(octets) => octets.into(),
        NetworkAddress::V6(groups) => groups.into(),
    };
    RemoteTwinCAT::new(addr, net_id.octets.into(), RemoteOption { timeouts, source })
}

/// The nanoseconds of a timeout, if it is set.
fn nanos(timeout: Option<Duration>) -> (n: Option<u64>)
    ensures
        n == nanos_of(timeout),
{
    match timeout {
        Some(d) => Some(d.nanos),
        None => None,
    }
}

/// Builds the link that a checked request asks for.
pub fn open_request(request: &LinkRequest) -> (link: RemoteTwinCAT)
    ensures
        link == link_of(request@),
{
    let timeouts = request.options.timeouts;
    new_link(
        request.host,
        request.net_id,
        nanos(timeouts.connect),
        nanos(timeouts.read),
        nanos(timeouts.write),
        request.options.source,
    )
}

/// Builds a link to the controller with the AMS network identifier
/// `ams_net_id` on the host `addr`.
///
/// The inputs are checked in order: the host address, the device
/// identifier, the options. The first one that fails gives the error, and
/// no link is built; where none fails, the link is built from exactly the
/// address, identifier and options that the inputs stand for.
#[allow(non_snake_case)]
pub fn AUTDLinkRemoteTwinCAT(
    addr: Option<&[u8]>,
    ams_net_id: Option<&[u8]>,
    option: RemoteTwinCATOption,
) -> (link: Result<RemoteTwinCAT, LinkError>)
    ensures
        match link_request_of(bytes_of(addr), bytes_of(ams_net_id), option) {
            Ok(r) => link == Ok::<RemoteTwinCAT, LinkError>(link_of(r)),
            Err(e) => link == Err::<RemoteTwinCAT, LinkError>(e),
        },
{
    match link_request(addr, ams_net_id, &option) {
        Ok(request) => Ok(open_request(&request)),
        Err(e) => Err(e),
    }
}

} // verus!
