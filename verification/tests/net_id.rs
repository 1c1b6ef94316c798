use twincat_link::net_id::{AmsAddress, DeviceIdentifier};

fn id(octets: [u8; 6]) -> DeviceIdentifier {
    DeviceIdentifier { octets }
}

#[test]
fn parse_reads_six_octets() {
    assert_eq!(DeviceIdentifier::parse("192.168.1.1.1.1"), Some(id([192, 168, 1, 1, 1, 1])));
    assert_eq!(DeviceIdentifier::parse("5.123.8.9.1.1"), Some(id([5, 123, 8, 9, 1, 1])));
    assert_eq!(DeviceIdentifier::parse("0.0.0.0.0.0"), Some(id([0; 6])));
    assert_eq!(DeviceIdentifier::parse("255.255.255.255.255.255"), Some(id([255; 6])));
}

#[test]
fn parse_fills_missing_octets_with_one() {
    assert_eq!(DeviceIdentifier::parse("5.123.8.9"), Some(id([5, 123, 8, 9, 1, 1])));
    assert_eq!(DeviceIdentifier::parse("7"), Some(id([7, 1, 1, 1, 1, 1])));
    assert_eq!(DeviceIdentifier::parse("0.0.0.0.0"), Some(id([0, 0, 0, 0, 0, 1])));
}

#[test]
fn parse_takes_signs_and_leading_zeros() {
    assert_eq!(DeviceIdentifier::parse("+5.007.8.9.1.1"), Some(id([5, 7, 8, 9, 1, 1])));
    assert_eq!(DeviceIdentifier::parse("0000000001.2.3.4.5.6"), Some(id([1, 2, 3, 4, 5, 6])));
}

#[test]
fn parse_refuses_what_is_no_identifier() {
    assert_eq!(DeviceIdentifier::parse("bad-id"), None);
    assert_eq!(DeviceIdentifier::parse("blah"), None);
    assert_eq!(DeviceIdentifier::parse(""), None);
    assert_eq!(DeviceIdentifier::parse("256.123.8.9.1.1"), None);
    assert_eq!(DeviceIdentifier::parse("1.2.3.4.5.6.7"), None);
    assert_eq!(DeviceIdentifier::parse("1.2.3.4.5."), None);
    assert_eq!(DeviceIdentifier::parse("1..3.4.5.6"), None);
    assert_eq!(DeviceIdentifier::parse("-1.2.3.4.5.6"), None);
    assert_eq!(DeviceIdentifier::parse("+.2.3.4.5.6"), None);
    assert_eq!(DeviceIdentifier::parse("1.2.3.4.5.6 "), None);
    assert_eq!(DeviceIdentifier::parse("１.2.3.4.5.6"), None);
}

#[test]
fn to_text_writes_dotted_decimals() {
    assert_eq!(id([192, 168, 1, 1, 1, 1]).to_text(), b"192.168.1.1.1.1".to_vec());
    assert_eq!(id([0; 6]).to_text(), b"0.0.0.0.0.0".to_vec());
    assert_eq!(id([255, 100, 99, 10, 9, 0]).to_text(), b"255.100.99.10.9.0".to_vec());
}

#[test]
fn plain_text_round_trips() {
    for text in ["192.168.1.1.1.1", "0.0.0.0.0.0", "255.255.255.255.255.255", "5.123.8.9.1.1"] {
        let parsed = DeviceIdentifier::parse(text).unwrap();
        assert_eq!(parsed.to_text(), text.as_bytes().to_vec());
    }
}

#[test]
fn every_identifier_reads_back_from_its_text() {
    for octets in [[0u8; 6], [255; 6], [1, 20, 255, 0, 100, 9], [127, 0, 0, 1, 1, 1]] {
        let text = String::from_utf8(id(octets).to_text()).unwrap();
        assert_eq!(DeviceIdentifier::parse(&text), Some(id(octets)));
    }
}

#[test]
fn short_text_does_not_round_trip() {
    let parsed = DeviceIdentifier::parse("5.123.8.9").unwrap();
    assert_eq!(parsed.to_text(), b"5.123.8.9.1.1".to_vec());
}

#[test]
fn ams_address_reads_identifier_and_port() {
    assert_eq!(
        AmsAddress::parse("1.2.3.4.5.6:851"),
        Some(AmsAddress { net_id: id([1, 2, 3, 4, 5, 6]), port: 851 })
    );
    assert_eq!(
        AmsAddress::parse("1.2.3.4:65535"),
        Some(AmsAddress { net_id: id([1, 2, 3, 4, 1, 1]), port: 65535 })
    );
    assert_eq!(
        AmsAddress::parse("0.0.0.0.0.0:+0"),
        Some(AmsAddress { net_id: id([0; 6]), port: 0 })
    );
}

#[test]
fn ams_address_refuses_what_is_no_address() {
    assert_eq!(AmsAddress::parse("1.2.3.4.5.6"), None);
    assert_eq!(AmsAddress::parse("1.2.3.4.5.6:"), None);
    assert_eq!(AmsAddress::parse(":851"), None);
    assert_eq!(AmsAddress::parse("1.2.3.4.5.6:65536"), None);
    assert_eq!(AmsAddress::parse("1.2.3.4.5.6:1:2"), None);
    assert_eq!(AmsAddress::parse("999.999.999.999"), None);
    assert_eq!(AmsAddress::parse("256.2.3.4.5.6:1"), None);
    assert_eq!(AmsAddress::parse(""), None);
}

#[test]
fn unspecified_address_is_all_zero() {
    assert_eq!(AmsAddress::unspecified(), AmsAddress { net_id: id([0; 6]), port: 0 });
}
