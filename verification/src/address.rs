//! The network address of the host that runs the controller.

use crate::ipv4::{ipv4_of_text, lemma_ipv4_text_ascii, parse_ipv4};
use crate::ipv6::{groups_of_text, ipv6_of_text, is_gap, lemma_ipv6_text_ascii, parse_ipv6};
use crate::numeral::{group_of_text, is_digit, octet_of_text};
use crate::text::{
    free_of, is_ascii_text, join, lemma_ascii_is_utf8, lemma_join_free, lemma_join_split,
    lemma_split_free, split, Span, COLON, DOT,
};
use vstd::prelude::*;
use vstd::string::StringSliceAdditionalSpecFns;
use vstd::utf8::valid_utf8;

verus! {

/// An IP address, of either version.
#[derive(Clone, Copy, Debug, PartialEq, Eq)]
pub enum NetworkAddress {
    /// An IPv4 address, as its four octets.
    V4([u8; 4]),
    /// An IPv6 address, as its eight 16-bit groups.
    V6([u16; 8]),
}

/// What a [`NetworkAddress`] holds, as sequences.
pub enum AddressView {
    /// The four octets of an IPv4 address.
    V4(Seq<u8>),
    /// The eight groups of an IPv6 address.
    V6(Seq<u16>),
}

impl View for NetworkAddress {
    type V = AddressView;

    open spec fn view(&self) -> AddressView {
        match *self {
            NetworkAddress::V4(octets) => AddressView::V4(octets@),
            NetworkAddress::V6(groups) => AddressView::V6(groups@),
        }
    }
}

/// The address that `s` writes: an IPv4 address in dotted-decimal notation,
/// or else an IPv6 address in colon-hexadecimal notation.
pub open spec fn address_of_text(s: Seq<u8>) -> Option<AddressView> {
    match ipv4_of_text(s) {
        Some(octets) => Some(AddressView::V4(octets)),
        None => match ipv6_of_text(s) {
            Some(groups) => Some(AddressView::V6(groups)),
            None => None,
        },
    }
}

/// A text that writes an address holds ASCII characters only, and so is
/// valid UTF-8.
pub proof fn lemma_address_text_ascii(s: Seq<u8>)
    requires
        address_of_text(s) is Some,
    ensures
        is_ascii_text(s),
        valid_utf8(s),
{
    if ipv4_of_text(s) is Some {
        lemma_ipv4_text_ascii(s);
    } else {
        lemma_ipv6_text_ascii(s);
    }
    lemma_ascii_is_utf8(s);
}

/// No text writes both an IPv4 and an IPv6 address.
pub proof fn lemma_versions_apart(s: Seq<u8>)
    ensures
        !(ipv4_of_text(s) is Some && ipv6_of_text(s) is Some),
{
    if ipv4_of_text(s) is Some {
        let octets = split(s, DOT);
        lemma_join_split(s, DOT);
        assert forall|k: int| 0 <= k < octets.len() implies free_of(#[trigger] octets[k], COLON) by {
            assert(octet_of_text(octets[k]) is Some);
            assert forall|i: int| 0 <= i < octets[k].len() implies octets[k][i] != COLON by {
                assert(is_digit(octets[k][i]));
            }
        }
        lemma_join_free(octets, DOT, COLON);
        // Without a `:` the text is a single item, and nothing of it is a `::`.
        lemma_split_free(s, COLON);
        assert forall|i: int| !is_gap(s, i) by {
            if 0 <= i && i + 1 < s.len() {
                assert(s[i] != COLON);
            }
        }
        // The item is too long for a group, and as an IPv4 address it stands
        // for two groups, not eight.
        assert(s.len() > 4) by {
            reveal_with_fuel(join, 4);
            assert(octets[0].len() >= 1 && octets[1].len() >= 1 && octets[2].len() >= 1
                && octets[3].len() >= 1) by {
                assert(octet_of_text(octets[0]) is Some);
                assert(octet_of_text(octets[1]) is Some);
                assert(octet_of_text(octets[2]) is Some);
                assert(octet_of_text(octets[3]) is Some);
            }
            assert(octets.drop_last().len() == 3);
            assert(octets.drop_last().drop_last().len() == 2);
            assert(octets.drop_last().drop_last().drop_last().len() == 1);
        }
        let items = split(s, COLON);
        assert(items.drop_last() =~= Seq::<Seq<u8>>::empty());
        assert(items.last() == s);
        assert(group_of_text(s) is None);
        assert(groups_of_text(s, true).unwrap().len() == 2);
    }
}

impl NetworkAddress {
    /// Reads `text` as an IP address; `None` where it writes none.
    pub fn parse(text: &str) -> (address: Option<NetworkAddress>)
        ensures
            match address {
                Some(a) => address_of_text(text.spec_bytes()) == Some(a@),
                None => address_of_text(text.spec_bytes()) is None,
            },
    {
        let bytes = text.as_bytes();
        proof {
            assert(bytes@.subrange(0, bytes@.len() as int) =~= bytes@);
        }
        match parse_ipv4(bytes, Span { start: 0, end: bytes.len() }) {
            Some(octets) => Some(NetworkAddress::V4(octets)),
            None => match parse_ipv6(bytes) {
                Some(groups) => Some(NetworkAddress::V6(groups)),
                None => None,
            },
        }
    }
}

} // verus!
