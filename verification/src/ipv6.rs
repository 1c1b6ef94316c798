//! IPv6 addresses in colon-hexadecimal notation.

use crate::ipv4::{ipv4_of_text, lemma_ipv4_text_ascii, parse_ipv4};
use crate::numeral::{group_of_text, lemma_group_text_ascii, parse_group};
use crate::text::{
    is_ascii_text, lemma_join_ascii, lemma_join_split, lemma_split_nonempty, pieces_of, split,
    split_spans, Span, COLON,
};
use vstd::prelude::*;
use vstd::slice::slice_subrange;

verus! {

/// The 16-bit group that two octets make, the first being the high one.
pub open spec fn group_of_octets(hi: u8, lo: u8) -> u16 {
    (hi * 256 + lo) as u16
}

/// The groups that `parts` write, if each is a group of hexadecimal digits.
pub open spec fn hex_groups_of_pieces(parts: Seq<Seq<u8>>) -> Option<Seq<u16>> {
    if forall|k: int| 0 <= k < parts.len() ==> group_of_text(#[trigger] parts[k]) is Some {
        Some(Seq::new(parts.len(), |k: int| group_of_text(parts[k]).unwrap()))
    } else {
        None
    }
}

/// The groups that `s` writes as a list of items with a `:` between
/// neighbours. Each item is a group of hexadecimal digits; where `with_v4`
/// holds, the last item may instead be an IPv4 address in dotted-decimal
/// notation, which stands for two groups.
pub open spec fn groups_of_text(s: Seq<u8>, with_v4: bool) -> Option<Seq<u16>> {
    let parts = split(s, COLON);
    match hex_groups_of_pieces(parts.drop_last()) {
        None => None,
        Some(init) => match group_of_text(parts.last()) {
            Some(group) => Some(init.push(group)),
            None => match ipv4_of_text(parts.last()) {
                Some(o) if with_v4 => Some(
                    init.push(group_of_octets(o[0], o[1])).push(group_of_octets(o[2], o[3])),
                ),
                _ => None,
            },
        },
    }
}

/// A `::` stands at index `i` of `s`.
pub open spec fn is_gap(s: Seq<u8>, i: int) -> bool {
    0 <= i && i + 1 < s.len() && s[i] == COLON && s[i + 1] == COLON
}

/// The first `::` of `s` stands at index `i`.
pub open spec fn is_first_gap(s: Seq<u8>, i: int) -> bool {
    is_gap(s, i) && forall|j: int| 0 <= j < i ==> !is_gap(s, j)
}

/// The groups in front of, or behind, a `::`: none for an empty text, else
/// what the list writes.
pub open spec fn side_groups(s: Seq<u8>, with_v4: bool) -> Option<Seq<u16>> {
    if s.len() == 0 {
        Some(Seq::<u16>::empty())
    } else {
        groups_of_text(s, with_v4)
    }
}

/// The eight groups that `s` writes as an IPv6 address.
///
/// Without a `::`, `s` is a list of eight groups, the last two of which may
/// be written as an IPv4 address. With one, the text in front of the first
/// `::` is empty or a list of hexadecimal groups, the text behind it is empty
/// or a list whose last item may be an IPv4 address, both together have at
/// most seven groups, and the `::` stands for the zero groups that fill the
/// address up to eight.
pub open spec fn ipv6_of_text(s: Seq<u8>) -> Option<Seq<u16>> {
    if exists|i: int| is_first_gap(s, i) {
        let i = choose|i: int| is_first_gap(s, i);
        match (side_groups(s.take(i), false), side_groups(s.skip(i + 2), true)) {
            (Some(front), Some(back)) if front.len() + back.len() <= 7 => Some(
                front + Seq::new((8 - front.len() - back.len()) as nat, |k: int| 0u16) + back,
            ),
            _ => None,
        }
    } else {
        match groups_of_text(s, true) {
            Some(groups) if groups.len() == 8 => Some(groups),
            _ => None,
        }
    }
}

/// A text that writes a list of groups holds ASCII characters only.
pub proof fn lemma_groups_text_ascii(s: Seq<u8>, with_v4: bool)
    requires
        groups_of_text(s, with_v4) is Some,
    ensures
        is_ascii_text(s),
{
    let parts = split(s, COLON);
    lemma_split_nonempty(s, COLON);
    assert forall|k: int| 0 <= k < parts.len() implies is_ascii_text(#[trigger] parts[k]) by {
        if k < parts.len() - 1 {
            assert(group_of_text(parts.drop_last()[k]) is Some);
            lemma_group_text_ascii(parts[k]);
        } else if group_of_text(parts.last()) is Some {
            lemma_group_text_ascii(parts[k]);
        } else {
            lemma_ipv4_text_ascii(parts[k]);
        }
    }
    lemma_join_ascii(parts, COLON);
    lemma_join_split(s, COLON);
}

/// A text that writes an IPv6 address holds ASCII characters only.
pub proof fn lemma_ipv6_text_ascii(s: Seq<u8>)
    requires
        ipv6_of_text(s) is Some,
    ensures
        is_ascii_text(s),
{
    if exists|i: int| is_first_gap(s, i) {
        let i = choose|i: int| is_first_gap(s, i);
        let head = s.take(i);
        let tail = s.skip(i + 2);
        if head.len() > 0 {
            lemma_groups_text_ascii(head, false);
        }
        if tail.len() > 0 {
            lemma_groups_text_ascii(tail, true);
        }
        assert forall|j: int| 0 <= j < s.len() implies #[trigger] s[j] < 0x80 by {
            if j < i {
                assert(s[j] == head[j]);
            } else if j >= i + 2 {
                assert(s[j] == tail[j - i - 2]);
            }
        }
    } else {
        lemma_groups_text_ascii(s, true);
    }
}

/// Reads the stretch `span` of `s` as a list of groups.
pub fn parse_groups(s: &[u8], span: Span, with_v4: bool) -> (groups: Option<Vec<u16>>)
    requires
        span.within(s@.len()),
    ensures
        match groups {
            Some(g) => groups_of_text(span.of(s@), with_v4) == Some(g@),
            None => groups_of_text(span.of(s@), with_v4) is None,
        },
{
    let piece = slice_subrange(s, span.start, span.end);
    let spans = split_spans(piece, COLON);
    let ghost parts = split(piece@, COLON);
    proof {
        lemma_split_nonempty(piece@, COLON);
    }
    let n: usize = spans.len();
    let mut groups: Vec<u16> = Vec::new();
    let mut k: usize = 0;
    while k < n - 1
        invariant
            n >= 1,
            k <= n - 1,
            n == spans@.len(),
            piece@ == span.of(s@),
            parts == split(piece@, COLON),
            pieces_of(spans@, piece@) == parts,
            forall|j: int| 0 <= j < n ==> (#[trigger] spans@[j]).within(piece@.len()),
            groups@.len() == k,
            forall|j: int| 0 <= j < k ==> group_of_text(#[trigger] parts[j]) == Some(groups@[j]),
        decreases n - k,
    {
        assert(parts[k as int] == spans@[k as int].of(piece@));
        match parse_group(piece, spans[k]) {
            Some(group) => {
                groups.push(group);
            },
            None => {
                assert(group_of_text(parts.drop_last()[k as int]) is None);
                return None;
            },
        }
        k += 1;
    }
    proof {
        assert forall|j: int| 0 <= j < parts.drop_last().len() implies group_of_text(
            #[trigger] parts.drop_last()[j],
        ) is Some by {
            assert(parts.drop_last()[j] == parts[j]);
        }
        assert(groups@ =~= Seq::new(
            parts.drop_last().len(),
            |j: int| group_of_text(parts.drop_last()[j]).unwrap(),
        ));
        assert(parts.last() == spans@[n - 1].of(piece@));
    }
    match parse_group(piece, spans[n - 1]) {
        Some(group) => {
            groups.push(group);
            Some(groups)
        },
        None => {
            if !with_v4 {
                return None;
            }
            match parse_ipv4(piece, spans[n - 1]) {
                Some(octets) => {
                    groups.push(pack(octets[0], octets[1]));
                    groups.push(pack(octets[2], octets[3]));
                    Some(groups)
                },
                None => None,
            }
        },
    }
}

/// Puts two octets together as one group.
fn pack(hi: u8, lo: u8) -> (group: u16)
    ensures
        group == group_of_octets(hi, lo),
{
    (hi as u16) * 256 + (lo as u16)
}

/// Finds the first `::` of `s`.
pub fn find_gap(s: &[u8]) -> (at: Option<usize>)
    ensures
        match at {
            Some(i) => is_first_gap(s@, i as int),
            None => forall|j: int| !is_gap(s@, j),
        },
{
    let n: usize = s.len();
    if n < 2 {
        return None;
    }
    let mut i: usize = 0;
    while i < n - 1
        invariant
            2 <= n == s@.len(),
            i <= n - 1,
            forall|j: int| 0 <= j < i ==> !is_gap(s@, j),
        decreases n - i,
    {
        if s[i] == COLON && s[i + 1] == COLON {
            return Some(i);
        }
        i += 1;
    }
    None
}

/// Reads the stretch `span` of `s` as the groups on one side of a `::`.
fn parse_side(s: &[u8], span: Span, with_v4: bool) -> (groups: Option<Vec<u16>>)
    requires
        span.within(s@.len()),
    ensures
        match groups {
            Some(g) => side_groups(span.of(s@), with_v4) == Some(g@),
            None => side_groups(span.of(s@), with_v4) is None,
        },
{
    if span.start == span.end {
        let groups: Vec<u16> = Vec::new();
        assert(groups@ =~= Seq::<u16>::empty());
        Some(groups)
    } else {
        parse_groups(s, span, with_v4)
    }
}

/// Reads `s` as an IPv6 address.
pub fn parse_ipv6(s: &[u8]) -> (groups: Option<[u16; 8]>)
    ensures
        match groups {
            Some(g) => ipv6_of_text(s@) == Some(g@),
            None => ipv6_of_text(s@) is None,
        },
{
    let n: usize = s.len();
    match find_gap(s) {
        None => {
            assert(!exists|i: int| is_first_gap(s@, i));
            proof {
                assert(s@.subrange(0, n as int) =~= s@);
            }
            match parse_groups(s, Span { start: 0, end: n }, true) {
                Some(list) => {
                    if list.len() != 8 {
                        return None;
                    }
                    let mut out: [u16; 8] = [0; 8];
                    let mut k: usize = 0;
                    while k < 8
                        invariant
                            k <= 8,
                            list@.len() == 8,
                            forall|j: int| 0 <= j < k ==> out@[j] == list@[j],
                        decreases 8 - k,
                    {
                        out[k] = list[k];
                        k += 1;
                    }
                    assert(out@ =~= list@);
                    Some(out)
                },
                None => None,
            }
        },
        Some(i) => {
            proof {
                let c = choose|c: int| is_first_gap(s@, c);
                assert(is_first_gap(s@, c));
                assert(c == i) by {
                    if c < i {
                        assert(is_gap(s@, c));
                    } else if c > i {
                        assert(is_gap(s@, i as int));
                    }
                }
                assert(s@.subrange(0, i as int) =~= s@.take(i as int));
                assert(s@.subrange(i + 2, n as int) =~= s@.skip(i + 2));
            }
            let front = match parse_side(s, Span { start: 0, end: i }, false) {
                Some(front) => front,
                None => {
                    return None;
                },
            };
            let back = match parse_side(s, Span { start: i + 2, end: n }, true) {
                Some(back) => back,
                None => {
                    return None;
                },
            };
            if front.len() > 7 || back.len() > 7 - front.len() {
                return None;
            }
            let mut out: [u16; 8] = [0; 8];
            let mut k: usize = 0;
            while k < front.len()
                invariant
                    k <= front@.len() <= 7,
                    forall|j: int| 0 <= j < k ==> out@[j] == front@[j],
                    forall|j: int| k <= j < 8 ==> out@[j] == 0,
                decreases front@.len() - k,
            {
                out[k] = front[k];
                k += 1;
            }
            let skip: usize = 8 - back.len();
            let mut k: usize = 0;
            while k < back.len()
                invariant
                    k <= back@.len(),
                    front@.len() + back@.len() <= 7,
                    skip == 8 - back@.len(),
                    forall|j: int| 0 <= j < front@.len() ==> out@[j] == front@[j],
                    forall|j: int| front@.len() <= j < skip ==> out@[j] == 0,
                    forall|j: int| 0 <= j < k ==> out@[skip + j] == back@[j],
                decreases back@.len() - k,
            {
                out[skip + k] = back[k];
                k += 1;
            }
            assert(out@ =~= front@ + Seq::new(
                (8 - front@.len() - back@.len()) as nat,
                |k: int| 0u16,
            ) + back@);
            Some(out)
        },
    }
}

} // verus!
