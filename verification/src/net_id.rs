//! AMS network identifiers and AMS addresses, and their textual forms.

use crate::numeral::{
    decimal_text, is_digit, lemma_decimal_text, lemma_plain_decimal_text, lemma_unsigned_text_ascii,
    octet_of_text, push_decimal, unsigned_of_text,
};
use crate::text::{
    free_of, is_ascii_text, join, lemma_ascii_is_utf8, lemma_join_ascii, lemma_join_split,
    lemma_split_join, split, COLON, DOT,
};
use vstd::prelude::*;
use vstd::string::StringSliceAdditionalSpecFns;
use vstd::utf8::valid_utf8;

verus! {

/// The six octets that `s` writes as an AMS network identifier: one to six
/// unsigned decimals of at most 255 with a `.` between neighbours. Octets
/// that the text leaves out at the end are 1.
pub open spec fn net_id_of_text(s: Seq<u8>) -> Option<Seq<u8>> {
    let parts = split(s, DOT);
    if parts.len() <= 6 && (forall|k: int|
        0 <= k < parts.len() ==> unsigned_of_text(#[trigger] parts[k], 255) is Some) {
        Some(
            Seq::new(
                6,
                |k: int|
                    if k < parts.len() {
                        unsigned_of_text(parts[k], 255).unwrap() as u8
                    } else {
                        1u8
                    },
            ),
        )
    } else {
        None
    }
}

/// The text of an identifier: the shortest decimal numerals of its octets
/// with a `.` between neighbours.
pub open spec fn net_id_text(octets: Seq<u8>) -> Seq<u8> {
    join(Seq::new(octets.len(), |k: int| decimal_text(octets[k] as nat)), DOT)
}

/// `s` is the text of some identifier: six octets in dotted-decimal notation.
pub open spec fn is_plain_net_id_text(s: Seq<u8>) -> bool {
    let parts = split(s, DOT);
    parts.len() == 6 && forall|k: int| 0 <= k < 6 ==> octet_of_text(#[trigger] parts[k]) is Some
}

/// The identifier and port that `s` writes as an AMS address: an AMS network
/// identifier, a `:`, and an unsigned decimal of at most 65535.
pub open spec fn ams_address_of_text(s: Seq<u8>) -> Option<(Seq<u8>, u16)> {
    let parts = split(s, COLON);
    if parts.len() == 2 && net_id_of_text(parts[0]) is Some && unsigned_of_text(
        parts[1],
        65535,
    ) is Some {
        Some((net_id_of_text(parts[0]).unwrap(), unsigned_of_text(parts[1], 65535).unwrap() as u16))
    } else {
        None
    }
}

/// The AMS network identifier of a controller: six octets.
#[derive(Clone, Copy, Debug, PartialEq, Eq)]
pub struct DeviceIdentifier {
    pub octets: [u8; 6],
}

impl View for DeviceIdentifier {
    type V = Seq<u8>;

    open spec fn view(&self) -> Seq<u8> {
        self.octets@
    }
}

/// An AMS address: a network identifier and a port.
#[derive(Clone, Copy, Debug, PartialEq, Eq)]
pub struct AmsAddress {
    pub net_id: DeviceIdentifier,
    pub port: u16,
}

impl View for AmsAddress {
    type V = (Seq<u8>, u16);

    open spec fn view(&self) -> (Seq<u8>, u16) {
        (self.net_id@, self.port)
    }
}

/// Calls `AmsNetId::from_str` of the `ads` crate, which `autd3-link-twincat`
/// hands on, and gives the six octets of what it returns. Trusted: the call
/// succeeds exactly on the texts that [`net_id_of_text`] accepts, when taken
/// as UTF-8 bytes, and then returns those octets. It splits the text at each
/// `.`, reads every piece with `u8::from_str` into the next of six places
/// that start out as 1, and fails on a seventh piece or a piece that is no
/// `u8`.
#[verifier::external_body]
fn net_id_from_str(text: &str) -> (octets: Option<[u8; 6]>)
    ensures
        match octets {
            Some(o) => net_id_of_text(text.spec_bytes()) == Some(o@),
            None => net_id_of_text(text.spec_bytes()) is None,
        },
{
    match text.parse::<autd3_link_twincat::remote::AmsNetId>() {
        Ok(id) => Some(id.0),
        Err(_) => None,
    }
}

/// Calls `AmsAddr::from_str` of the `ads` crate, which `autd3-link-twincat`
/// hands on, and gives the octets and the port of what it returns. Trusted: the
/// call succeeds exactly on the texts that [`ams_address_of_text`] accepts,
/// when taken as UTF-8 bytes, and then returns that identifier and port. It
/// splits the text at each `:`, wants exactly two pieces, reads the first as
/// `AmsNetId::from_str` does and the second with `u16::from_str`.
#[verifier::external_body]
fn ams_addr_from_str(text: &str) -> (address: Option<([u8; 6], u16)>)
    ensures
        match address {
            Some((o, port)) => ams_address_of_text(text.spec_bytes()) == Some((o@, port)),
            None => ams_address_of_text(text.spec_bytes()) is None,
        },
{
    match text.parse::<autd3_link_twincat::remote::AmsAddr>() {
        Ok(address) => Some((address.netid().0, address.port())),
        Err(_) => None,
    }
}

impl DeviceIdentifier {
    /// Reads `text` as an AMS network identifier; `None` where it writes none.
    pub fn parse(text: &str) -> (id: Option<DeviceIdentifier>)
        ensures
            match id {
                Some(d) => net_id_of_text(text.spec_bytes()) == Some(d@),
                None => net_id_of_text(text.spec_bytes()) is None,
            },
    {
        match net_id_from_str(text) {
            Some(octets) => Some(DeviceIdentifier { octets }),
            None => None,
        }
    }

    /// The text of the identifier, as ASCII bytes.
    pub fn to_text(&self) -> (text: Vec<u8>)
        ensures
            text@ == net_id_text(self@),
    {
        let ghost pieces = Seq::new(6, |k: int| decimal_text(self@[k] as nat));
        let mut text: Vec<u8> = Vec::new();
        push_decimal(&mut text, self.octets[0]);
        let mut k: usize = 1;
        proof {
            assert(pieces.take(1).len() == 1);
            assert(text@ =~= join(pieces.take(1), DOT));
        }
        while k < 6
            invariant
                1 <= k <= 6,
                pieces == Seq::new(6, |k: int| decimal_text(self@[k] as nat)),
                text@ == join(pieces.take(k as int), DOT),
            decreases 6 - k,
        {
            text.push(DOT);
            push_decimal(&mut text, self.octets[k]);
            proof {
                assert(pieces.take(k + 1).drop_last() =~= pieces.take(k as int));
                assert(pieces.take(k + 1).last() == decimal_text(self@[k as int] as nat));
            }
            k += 1;
        }
        proof {
            assert(pieces.take(6) =~= pieces);
            assert(self@.len() == 6);
        }
        text
    }
}

impl AmsAddress {
    /// The address that stands for none: six zero octets and port 0.
    pub open spec fn unspecified_view() -> (Seq<u8>, u16) {
        (Seq::new(6, |k: int| 0u8), 0u16)
    }

    /// The address that stands for none.
    pub fn unspecified() -> (address: AmsAddress)
        ensures
            address@ == AmsAddress::unspecified_view(),
    {
        let address = AmsAddress { net_id: DeviceIdentifier { octets: [0; 6] }, port: 0 };
        assert(address.net_id@ =~= Seq::new(6, |k: int| 0u8));
        address
    }

    /// Reads `text` as an AMS address; `None` where it writes none.
    pub fn parse(text: &str) -> (address: Option<AmsAddress>)
        ensures
            match address {
                Some(a) => ams_address_of_text(text.spec_bytes()) == Some(a@),
                None => ams_address_of_text(text.spec_bytes()) is None,
            },
    {
        match ams_addr_from_str(text) {
            Some((octets, port)) => Some(AmsAddress { net_id: DeviceIdentifier { octets }, port }),
            None => None,
        }
    }
}

/// A text that writes an AMS network identifier holds ASCII characters only.
pub proof fn lemma_net_id_text_ascii(s: Seq<u8>)
    requires
        net_id_of_text(s) is Some,
    ensures
        is_ascii_text(s),
{
    let parts = split(s, DOT);
    assert forall|k: int| 0 <= k < parts.len() implies is_ascii_text(#[trigger] parts[k]) by {
        lemma_unsigned_text_ascii(parts[k], 255);
    }
    lemma_join_ascii(parts, DOT);
    lemma_join_split(s, DOT);
}

/// A text that writes an AMS address holds ASCII characters only, and so is
/// valid UTF-8.
pub proof fn lemma_ams_address_text_ascii(s: Seq<u8>)
    requires
        ams_address_of_text(s) is Some,
    ensures
        is_ascii_text(s),
        valid_utf8(s),
{
    let parts = split(s, COLON);
    lemma_net_id_text_ascii(parts[0]);
    lemma_unsigned_text_ascii(parts[1], 65535);
    lemma_join_ascii(parts, COLON);
    lemma_join_split(s, COLON);
    lemma_ascii_is_utf8(s);
}

/// The shortest numeral of an octet is read back as that octet.
proof fn lemma_unsigned_of_decimal_text(n: u8)
    ensures
        unsigned_of_text(decimal_text(n as nat), 255) == Some(n as nat),
        octet_of_text(decimal_text(n as nat)) == Some(n),
        free_of(decimal_text(n as nat), DOT),
{
    lemma_decimal_text(n as nat);
    let t = decimal_text(n as nat);
    assert(is_digit(t[0]));
    assert forall|i: int| 0 <= i < t.len() implies t[i] != DOT by {
        assert(is_digit(t[i]));
    }
}

/// An octet in dotted-decimal notation is read as the same number when read
/// as an unsigned decimal, and is the shortest numeral of that number.
proof fn lemma_unsigned_of_octet_text(s: Seq<u8>)
    requires
        octet_of_text(s) is Some,
    ensures
        unsigned_of_text(s, 255) == Some(octet_of_text(s).unwrap() as nat),
        decimal_text(octet_of_text(s).unwrap() as nat) == s,
{
    assert(is_digit(s[0]));
    lemma_plain_decimal_text(s);
}

/// Every identifier is read back from its text: reading the text of an
/// identifier gives that identifier.
pub proof fn lemma_text_reads_back(octets: Seq<u8>)
    requires
        octets.len() == 6,
    ensures
        is_plain_net_id_text(net_id_text(octets)),
        net_id_of_text(net_id_text(octets)) == Some(octets),
{
    let pieces = Seq::new(6, |k: int| decimal_text(octets[k] as nat));
    assert forall|k: int| 0 <= k < 6 implies free_of(#[trigger] pieces[k], DOT) && unsigned_of_text(
        pieces[k],
        255,
    ) == Some(octets[k] as nat) && octet_of_text(pieces[k]) == Some(octets[k]) by {
        lemma_unsigned_of_decimal_text(octets[k]);
    }
    lemma_split_join(pieces, DOT);
    let parts = split(net_id_text(octets), DOT);
    assert(parts == pieces);
    assert(net_id_of_text(net_id_text(octets)).unwrap() =~= octets);
}

/// A text of six octets in dotted-decimal notation is read as an identifier
/// whose text is the same text again.
pub proof fn lemma_plain_text_round_trip(s: Seq<u8>)
    requires
        is_plain_net_id_text(s),
    ensures
        net_id_of_text(s) is Some,
        net_id_text(net_id_of_text(s).unwrap()) == s,
{
    let parts = split(s, DOT);
    assert forall|k: int| 0 <= k < 6 implies unsigned_of_text(#[trigger] parts[k], 255) == Some(
        octet_of_text(parts[k]).unwrap() as nat,
    ) && decimal_text(octet_of_text(parts[k]).unwrap() as nat) == parts[k] by {
        lemma_unsigned_of_octet_text(parts[k]);
    }
    let octets = net_id_of_text(s).unwrap();
    let pieces = Seq::new(6, |k: int| decimal_text(octets[k] as nat));
    assert(pieces =~= parts);
    lemma_join_split(s, DOT);
}

} // verus!
