use autd3_core::link::Link;
use twincat_link::address::NetworkAddress;
use twincat_link::error::{LinkError, TextField};
use twincat_link::link::{
    link_request, open_request, parse_device, parse_host, AUTDLinkRemoteTwinCAT, LinkRequest,
};
use twincat_link::net_id::{AmsAddress, DeviceIdentifier};
use twincat_link::option::{LinkOptions, RemoteTwinCATOption};
use twincat_link::source::{LinkSource, Source, SourceTag};
use twincat_link::timeouts::{Duration, LinkTimeouts, OptionDuration, Timeouts};
use twincat_link::utf8::validate_text;

fn text(s: &str) -> Option<&[u8]> {
    Some(s.as_bytes())
}

#[test]
fn validate_text_hands_back_valid_text() {
    assert_eq!(validate_text(text("127.0.0.1"), TextField::HostAddress), Ok("127.0.0.1"));
    assert_eq!(validate_text(text(""), TextField::HostAddress), Ok(""));
    assert_eq!(validate_text(text("héllo"), TextField::DeviceIdentifier), Ok("héllo"));
}

#[test]
fn validate_text_refuses_missing_text() {
    assert_eq!(
        validate_text(None, TextField::HostAddress),
        Err(LinkError::MissingText(TextField::HostAddress))
    );
    assert_eq!(
        validate_text(None, TextField::DeviceIdentifier),
        Err(LinkError::MissingText(TextField::DeviceIdentifier))
    );
}

#[test]
fn validate_text_refuses_bytes_that_are_not_utf8() {
    assert_eq!(
        validate_text(Some(&b"127.0.0.\xff"[..]), TextField::HostAddress),
        Err(LinkError::InvalidText(TextField::HostAddress))
    );
    assert_eq!(
        validate_text(Some(&b"\xc3"[..]), TextField::DeviceIdentifier),
        Err(LinkError::InvalidText(TextField::DeviceIdentifier))
    );
    assert_eq!(
        validate_text(Some(&b"\xed\xa0\x80"[..]), TextField::DeviceIdentifier),
        Err(LinkError::InvalidText(TextField::DeviceIdentifier))
    );
}

#[test]
fn parse_host_reports_each_failure() {
    assert_eq!(parse_host(text("127.0.0.1")), Ok(NetworkAddress::V4([127, 0, 0, 1])));
    assert_eq!(parse_host(None), Err(LinkError::MissingText(TextField::HostAddress)));
    assert_eq!(
        parse_host(Some(&b"\x80"[..])),
        Err(LinkError::InvalidText(TextField::HostAddress))
    );
    assert_eq!(parse_host(text("not-an-ip")), Err(LinkError::AddressParse));
}

#[test]
fn parse_device_reports_each_failure() {
    assert_eq!(
        parse_device(text("192.168.1.1.1.1")),
        Ok(DeviceIdentifier { octets: [192, 168, 1, 1, 1, 1] })
    );
    assert_eq!(parse_device(None), Err(LinkError::MissingText(TextField::DeviceIdentifier)));
    assert_eq!(
        parse_device(Some(&b"1.2.3.4.5.\xff"[..])),
        Err(LinkError::InvalidText(TextField::DeviceIdentifier))
    );
    assert_eq!(parse_device(text("bad-id")), Err(LinkError::IdentifierParse));
}

#[test]
fn request_holds_what_the_inputs_stand_for() {
    let option = RemoteTwinCATOption {
        timeouts: Timeouts {
            connect: OptionDuration::some(1_000_000),
            read: OptionDuration::none(),
            write: OptionDuration::some(0),
        },
        source: Source::new(SourceTag::Addr, Some(b"172.16.0.9.1.1:40000".to_vec())),
    };
    assert_eq!(
        link_request(text("fe80::1"), text("5.123.8.9"), &option),
        Ok(LinkRequest {
            host: NetworkAddress::V6([0xfe80, 0, 0, 0, 0, 0, 0, 1]),
            net_id: DeviceIdentifier { octets: [5, 123, 8, 9, 1, 1] },
            options: LinkOptions {
                timeouts: LinkTimeouts {
                    connect: Some(Duration { nanos: 1_000_000 }),
                    read: None,
                    write: Some(Duration { nanos: 0 }),
                },
                source: LinkSource::Addr(AmsAddress {
                    net_id: DeviceIdentifier { octets: [172, 16, 0, 9, 1, 1] },
                    port: 40000,
                }),
            },
        })
    );
}

#[test]
fn request_stops_at_the_first_failure() {
    let bad_source = RemoteTwinCATOption {
        timeouts: RemoteTwinCATOption::default().timeouts,
        source: Source::new(SourceTag::Addr, None),
    };
    assert_eq!(
        link_request(None, None, &bad_source),
        Err(LinkError::MissingText(TextField::HostAddress))
    );
    assert_eq!(
        link_request(text("x"), text("bad-id"), &bad_source),
        Err(LinkError::AddressParse)
    );
    assert_eq!(
        link_request(text("127.0.0.1"), None, &bad_source),
        Err(LinkError::MissingText(TextField::DeviceIdentifier))
    );
    assert_eq!(
        link_request(text("127.0.0.1"), text("bad-id"), &bad_source),
        Err(LinkError::IdentifierParse)
    );
    assert_eq!(
        link_request(text("127.0.0.1"), text("1.2.3.4.5.6"), &bad_source),
        Err(LinkError::MissingText(TextField::SourceAddress))
    );
    let unknown = RemoteTwinCATOption {
        timeouts: RemoteTwinCATOption::default().timeouts,
        source: Source { tag: 7, addr: None },
    };
    assert_eq!(
        link_request(text("127.0.0.1"), text("1.2.3.4.5.6"), &unknown),
        Err(LinkError::UnknownSource(7))
    );
    assert_eq!(link_request(text("127.0.0.1"), text("x"), &unknown), Err(LinkError::IdentifierParse));
}

#[test]
fn loopback_host_with_default_options_gives_a_link() {
    let link = AUTDLinkRemoteTwinCAT(
        text("127.0.0.1"),
        text("192.168.1.1.1.1"),
        RemoteTwinCATOption::default(),
    );
    assert!(link.is_ok());
}

#[test]
fn equal_inputs_give_a_link_each_time() {
    for _ in 0..3 {
        let link = AUTDLinkRemoteTwinCAT(
            text("::1"),
            text("192.168.1.1.1.1"),
            RemoteTwinCATOption::default(),
        );
        assert!(link.is_ok());
    }
}

#[test]
fn host_that_is_no_address_gives_no_link() {
    let link = AUTDLinkRemoteTwinCAT(
        text("not-an-ip"),
        text("192.168.1.1.1.1"),
        RemoteTwinCATOption::default(),
    );
    assert_eq!(link.err(), Some(LinkError::AddressParse));
}

#[test]
fn identifier_that_is_none_gives_no_link() {
    let link =
        AUTDLinkRemoteTwinCAT(text("127.0.0.1"), text("bad-id"), RemoteTwinCATOption::default());
    assert_eq!(link.err(), Some(LinkError::IdentifierParse));
}

#[test]
fn missing_texts_give_no_link() {
    let link = AUTDLinkRemoteTwinCAT(None, text("192.168.1.1.1.1"), RemoteTwinCATOption::default());
    assert_eq!(link.err(), Some(LinkError::MissingText(TextField::HostAddress)));
    let link = AUTDLinkRemoteTwinCAT(text("127.0.0.1"), None, RemoteTwinCATOption::default());
    assert_eq!(link.err(), Some(LinkError::MissingText(TextField::DeviceIdentifier)));
}

#[test]
fn source_text_that_is_no_address_still_gives_a_link() {
    let option = RemoteTwinCATOption {
        timeouts: RemoteTwinCATOption::default().timeouts,
        source: Source::new(SourceTag::Addr, Some(b"999.999.999.999".to_vec())),
    };
    assert_eq!(
        link_request(text("127.0.0.1"), text("192.168.1.1.1.1"), &option).map(|r| r.options.source),
        Ok(LinkSource::Addr(AmsAddress { net_id: DeviceIdentifier { octets: [0; 6] }, port: 0 }))
    );
    let link = AUTDLinkRemoteTwinCAT(text("127.0.0.1"), text("192.168.1.1.1.1"), option);
    assert!(link.is_ok());
}

#[test]
fn open_request_builds_a_closed_link() {
    let request = link_request(
        text("10.0.0.1"),
        text("10.0.0.1.1.1"),
        &RemoteTwinCATOption {
            timeouts: Timeouts {
                connect: OptionDuration::some(5),
                read: OptionDuration::some(6),
                write: OptionDuration::some(7),
            },
            source: Source::new(SourceTag::Request, None),
        },
    )
    .unwrap();
    let link = open_request(&request);
    assert!(!link.is_open());
}

#[test]
fn messages_name_the_cause() {
    assert_eq!(LinkError::MissingText(TextField::HostAddress).message(), "null pointer");
    assert_eq!(LinkError::InvalidText(TextField::SourceAddress).message(), "invalid UTF-8 text");
    assert_eq!(LinkError::AddressParse.message(), "invalid IP address syntax");
    assert_eq!(LinkError::IdentifierParse.message(), "invalid NetID string");
    assert_eq!(LinkError::UnknownSource(9).message(), "unknown source tag");
}
