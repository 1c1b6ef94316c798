use twincat_link::error::{LinkError, TextField};
use twincat_link::net_id::{AmsAddress, DeviceIdentifier};
use twincat_link::option::{LinkOptions, RemoteTwinCATOption};
use twincat_link::source::{source_address, LinkSource, Source, SourceTag};
use twincat_link::timeouts::{Duration, LinkTimeouts, OptionDuration, Timeouts};

fn unset() -> Timeouts {
    Timeouts {
        connect: OptionDuration::none(),
        read: OptionDuration::none(),
        write: OptionDuration::none(),
    }
}

fn zero_address() -> AmsAddress {
    AmsAddress { net_id: DeviceIdentifier { octets: [0; 6] }, port: 0 }
}

#[test]
fn tag_decodes_known_discriminants() {
    assert_eq!(SourceTag::from_raw(0), Some(SourceTag::Auto));
    assert_eq!(SourceTag::from_raw(1), Some(SourceTag::Addr));
    assert_eq!(SourceTag::from_raw(2), Some(SourceTag::Request));
}

#[test]
fn tag_refuses_unknown_discriminants() {
    assert_eq!(SourceTag::from_raw(3), None);
    assert_eq!(SourceTag::from_raw(255), None);
}

#[test]
fn tag_encodes_back() {
    for tag in [SourceTag::Auto, SourceTag::Addr, SourceTag::Request] {
        assert_eq!(SourceTag::from_raw(tag.to_raw()), Some(tag));
    }
}

#[test]
fn option_duration_keeps_unset_apart_from_zero() {
    assert_eq!(OptionDuration::none().to_option(), None);
    assert_eq!(OptionDuration::some(0).to_option(), Some(Duration { nanos: 0 }));
    assert_eq!(OptionDuration::some(1_500_000_000).to_option(), Some(Duration { nanos: 1_500_000_000 }));
    let stale = OptionDuration { has_value: false, value: Duration { nanos: 5 } };
    assert_eq!(stale.to_option(), None);
}

#[test]
fn all_unset_timeouts_stay_unset() {
    assert_eq!(
        LinkTimeouts::from(unset()),
        LinkTimeouts { connect: None, read: None, write: None }
    );
}

#[test]
fn only_connect_set_leaves_the_others_unset() {
    let given = Timeouts { connect: OptionDuration::some(250), ..unset() };
    assert_eq!(
        LinkTimeouts::from(given),
        LinkTimeouts { connect: Some(Duration { nanos: 250 }), read: None, write: None }
    );
}

#[test]
fn each_timeout_is_taken_over() {
    let given = Timeouts {
        connect: OptionDuration::some(1),
        read: OptionDuration::some(u64::MAX),
        write: OptionDuration::some(0),
    };
    assert_eq!(
        LinkTimeouts::from(given),
        LinkTimeouts {
            connect: Some(Duration { nanos: 1 }),
            read: Some(Duration { nanos: u64::MAX }),
            write: Some(Duration { nanos: 0 }),
        }
    );
}

#[test]
fn source_auto_and_request_ignore_the_text() {
    let auto = Source::new(SourceTag::Auto, None);
    assert_eq!(auto.resolve(), Ok(LinkSource::Auto));
    let auto = Source::new(SourceTag::Auto, Some(b"junk".to_vec()));
    assert_eq!(auto.resolve(), Ok(LinkSource::Auto));
    let request = Source::new(SourceTag::Request, None);
    assert_eq!(request.resolve(), Ok(LinkSource::Request));
}

#[test]
fn source_addr_takes_the_address_of_the_text() {
    let source = Source::new(SourceTag::Addr, Some(b"10.1.2.3.1.1:32768".to_vec()));
    assert_eq!(
        source.resolve(),
        Ok(LinkSource::Addr(AmsAddress {
            net_id: DeviceIdentifier { octets: [10, 1, 2, 3, 1, 1] },
            port: 32768,
        }))
    );
}

#[test]
fn source_addr_falls_back_on_text_that_is_no_address() {
    for text in [&b"999.999.999.999"[..], b"", b"1.2.3.4.5.6", b"nonsense", b"\xff\xfe"] {
        let source = Source::new(SourceTag::Addr, Some(text.to_vec()));
        assert_eq!(source.resolve(), Ok(LinkSource::Addr(zero_address())));
    }
}

#[test]
fn source_with_unknown_discriminant_is_refused() {
    let source = Source { tag: 3, addr: Some(b"1.2.3.4.5.6:7".to_vec()) };
    assert_eq!(source.resolve(), Err(LinkError::UnknownSource(3)));
    let source = Source { tag: 200, addr: None };
    assert_eq!(source.resolve(), Err(LinkError::UnknownSource(200)));
}

#[test]
fn source_new_holds_the_discriminant() {
    assert_eq!(Source::new(SourceTag::Auto, None), Source { tag: 0, addr: None });
    assert_eq!(
        Source::new(SourceTag::Addr, Some(b"x".to_vec())),
        Source { tag: 1, addr: Some(b"x".to_vec()) }
    );
    assert_eq!(Source::new(SourceTag::Request, None), Source { tag: 2, addr: None });
}

#[test]
fn source_addr_needs_a_text() {
    let source = Source::new(SourceTag::Addr, None);
    assert_eq!(source.resolve(), Err(LinkError::MissingText(TextField::SourceAddress)));
}

#[test]
fn source_address_reads_or_falls_back() {
    assert_eq!(
        source_address(b"1.2.3.4.5.6:7"),
        AmsAddress { net_id: DeviceIdentifier { octets: [1, 2, 3, 4, 5, 6] }, port: 7 }
    );
    assert_eq!(source_address(b"1.2.3.4.5.6:70000"), zero_address());
}

#[test]
fn default_option_has_no_timeouts_and_auto_source() {
    let option = RemoteTwinCATOption::default();
    assert_eq!(option.timeouts, unset());
    assert_eq!(option.source, Source::new(SourceTag::Auto, None));
    assert_eq!(
        option.resolve(),
        Ok(LinkOptions {
            timeouts: LinkTimeouts { connect: None, read: None, write: None },
            source: LinkSource::Auto,
        })
    );
}

#[test]
fn option_resolves_both_parts() {
    let option = RemoteTwinCATOption {
        timeouts: Timeouts { read: OptionDuration::some(9), ..unset() },
        source: Source::new(SourceTag::Addr, Some(b"bad".to_vec())),
    };
    assert_eq!(
        option.resolve(),
        Ok(LinkOptions {
            timeouts: LinkTimeouts { connect: None, read: Some(Duration { nanos: 9 }), write: None },
            source: LinkSource::Addr(zero_address()),
        })
    );
}

#[test]
fn option_hands_on_the_error_of_the_source() {
    let option = RemoteTwinCATOption {
        timeouts: unset(),
        source: Source::new(SourceTag::Addr, None),
    };
    assert_eq!(option.resolve(), Err(LinkError::MissingText(TextField::SourceAddress)));
}
