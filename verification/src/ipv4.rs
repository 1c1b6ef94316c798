//! IPv4 addresses in dotted-decimal notation.

use crate::numeral::{lemma_octet_text_ascii, octet_of_text, parse_octet};
use crate::text::{
    is_ascii_text, lemma_join_ascii, lemma_join_split, pieces_of, split, split_spans, Span, DOT,
};
use vstd::prelude::*;
use vstd::slice::slice_subrange;

verus! {

/// The four octets that `s` writes in dotted-decimal notation: exactly four
/// octets with a `.` between neighbours, and nothing else.
pub open spec fn ipv4_of_text(s: Seq<u8>) -> Option<Seq<u8>> {
    let parts = split(s, DOT);
    if parts.len() == 4 && (forall|k: int| 0 <= k < 4 ==> octet_of_text(#[trigger] parts[k]) is Some) {
        Some(Seq::new(4, |k: int| octet_of_text(parts[k]).unwrap()))
    } else {
        None
    }
}

/// A text that writes an IPv4 address holds ASCII characters only.
pub proof fn lemma_ipv4_text_ascii(s: Seq<u8>)
    requires
        ipv4_of_text(s) is Some,
    ensures
        is_ascii_text(s),
{
    let parts = split(s, DOT);
    assert forall|k: int| 0 <= k < parts.len() implies is_ascii_text(#[trigger] parts[k]) by {
        lemma_octet_text_ascii(parts[k]);
    }
    lemma_join_ascii(parts, DOT);
    lemma_join_split(s, DOT);
}

/// Reads the stretch `span` of `s` as an IPv4 address.
pub fn parse_ipv4(s: &[u8], span: Span) -> (octets: Option<[u8; 4]>)
    requires
        span.within(s@.len()),
    ensures
        match octets {
            Some(o) => ipv4_of_text(span.of(s@)) == Some(o@),
            None => ipv4_of_text(span.of(s@)) is None,
        },
{
    let piece = slice_subrange(s, span.start, span.end);
    let spans = split_spans(piece, DOT);
    let ghost parts = split(piece@, DOT);
    if spans.len() != 4 {
        return None;
    }
    let mut octets: [u8; 4] = [0; 4];
    let mut k: usize = 0;
    while k < 4
        invariant
            k <= 4,
            spans@.len() == 4,
            piece@ == span.of(s@),
            parts == split(piece@, DOT),
            pieces_of(spans@, piece@) == parts,
            forall|j: int| 0 <= j < 4 ==> (#[trigger] spans@[j]).within(piece@.len()),
            forall|j: int| 0 <= j < k ==> octet_of_text(#[trigger] parts[j]) == Some(octets@[j]),
        decreases 4 - k,
    {
        assert(parts[k as int] == spans@[k as int].of(piece@));
        match parse_octet(piece, spans[k]) {
            Some(octet) => {
                octets[k] = octet;
            },
            None => {
                assert(octet_of_text(parts[k as int]) is None);
                return None;
            },
        }
        k += 1;
    }
    proof {
        assert(octets@ =~= Seq::new(4, |j: int| octet_of_text(parts[j]).unwrap()));
    }
    Some(octets)
}

} // verus!
