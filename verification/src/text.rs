//! Byte texts: splitting at a separator, and decimal and hexadecimal numerals.

use vstd::prelude::*;

verus! {

/// The byte `.`.
pub const DOT: u8 = 0x2e;

/// The byte `:`.
pub const COLON: u8 = 0x3a;

/// The pieces of `s` between the occurrences of `sep`, in order. A text
/// without `sep` is one piece; an empty text is one empty piece.
pub open spec fn split(s: Seq<u8>, sep: u8) -> Seq<Seq<u8>>
    decreases s.len(),
{
    if s.len() == 0 {
        seq![Seq::<u8>::empty()]
    } else {
        let init = split(s.drop_last(), sep);
        if s.last() == sep {
            init.push(Seq::<u8>::empty())
        } else {
            init.update(init.len() - 1, init.last().push(s.last()))
        }
    }
}

/// `pieces` put together with `sep` between neighbours.
pub open spec fn join(pieces: Seq<Seq<u8>>, sep: u8) -> Seq<u8>
    decreases pieces.len(),
{
    if pieces.len() == 0 {
        Seq::<u8>::empty()
    } else if pieces.len() == 1 {
        pieces[0]
    } else {
        join(pieces.drop_last(), sep).push(sep) + pieces.last()
    }
}

/// `sep` does not occur in `s`.
pub open spec fn free_of(s: Seq<u8>, sep: u8) -> bool {
    forall|i: int| 0 <= i < s.len() ==> s[i] != sep
}

/// A text always splits into at least one piece.
pub proof fn lemma_split_nonempty(s: Seq<u8>, sep: u8)
    ensures
        split(s, sep).len() >= 1,
    decreases s.len(),
{
    if s.len() > 0 {
        lemma_split_nonempty(s.drop_last(), sep);
    }
}

/// Joining the pieces of a split gives the text back.
pub proof fn lemma_join_split(s: Seq<u8>, sep: u8)
    ensures
        join(split(s, sep), sep) == s,
    decreases s.len(),
{
    if s.len() > 0 {
        let init = split(s.drop_last(), sep);
        lemma_split_nonempty(s.drop_last(), sep);
        lemma_join_split(s.drop_last(), sep);
        if s.last() == sep {
            let all = init.push(Seq::<u8>::empty());
            assert(all.drop_last() =~= init);
            assert(join(all, sep) =~= s);
        } else {
            let all = init.update(init.len() - 1, init.last().push(s.last()));
            if init.len() == 1 {
                assert(join(all, sep) =~= s);
            } else {
                assert(all.drop_last() =~= init.drop_last());
                assert(join(all, sep) =~= join(init, sep).push(s.last()));
                assert(join(all, sep) =~= s);
            }
        }
    }
}

/// A text without the separator is its own single piece.
pub proof fn lemma_split_free(s: Seq<u8>, sep: u8)
    requires
        free_of(s, sep),
    ensures
        split(s, sep) == seq![s],
    decreases s.len(),
{
    if s.len() > 0 {
        lemma_split_free(s.drop_last(), sep);
        assert(s.drop_last().push(s.last()) =~= s);
        assert(seq![s.drop_last()].update(0, s.drop_last().push(s.last())) =~= seq![s]);
    } else {
        assert(Seq::<u8>::empty() =~= s);
        assert(seq![Seq::<u8>::empty()] =~= seq![s]);
    }
}

/// Appending a separator and a text without one appends that text as a piece.
pub proof fn lemma_split_append(s: Seq<u8>, last: Seq<u8>, sep: u8)
    requires
        free_of(last, sep),
    ensures
        split(s.push(sep) + last, sep) == split(s, sep).push(last),
    decreases last.len(),
{
    let whole = s.push(sep) + last;
    if last.len() == 0 {
        assert(whole =~= s.push(sep));
        assert(whole.drop_last() =~= s);
        assert(last =~= Seq::<u8>::empty());
    } else {
        lemma_split_append(s, last.drop_last(), sep);
        assert(whole.drop_last() =~= s.push(sep) + last.drop_last());
        let init = split(s, sep).push(last.drop_last());
        assert(init.update(init.len() - 1, init.last().push(whole.last())) =~= split(s, sep).push(
            last,
        )) by {
            assert(last.drop_last().push(last.last()) =~= last);
        }
    }
}

/// Splitting a join of pieces without the separator gives the pieces back.
pub proof fn lemma_split_join(pieces: Seq<Seq<u8>>, sep: u8)
    requires
        pieces.len() >= 1,
        forall|k: int| 0 <= k < pieces.len() ==> free_of(#[trigger] pieces[k], sep),
    ensures
        split(join(pieces, sep), sep) == pieces,
    decreases pieces.len(),
{
    if pieces.len() == 1 {
        lemma_split_free(pieces[0], sep);
        assert(seq![pieces[0]] =~= pieces);
    } else {
        lemma_split_join(pieces.drop_last(), sep);
        lemma_split_append(join(pieces.drop_last(), sep), pieces.last(), sep);
        assert(pieces.drop_last().push(pieces.last()) =~= pieces);
    }
}

/// Pieces without the byte `b`, joined with another separator, make a text
/// without `b`.
pub proof fn lemma_join_free(pieces: Seq<Seq<u8>>, sep: u8, b: u8)
    requires
        sep != b,
        forall|k: int| 0 <= k < pieces.len() ==> free_of(#[trigger] pieces[k], b),
    ensures
        free_of(join(pieces, sep), b),
    decreases pieces.len(),
{
    if pieces.len() >= 2 {
        let init = join(pieces.drop_last(), sep);
        assert forall|k: int| 0 <= k < pieces.drop_last().len() implies free_of(
            #[trigger] pieces.drop_last()[k],
            b,
        ) by {
            assert(pieces.drop_last()[k] == pieces[k]);
        }
        lemma_join_free(pieces.drop_last(), sep, b);
        let whole = join(pieces, sep);
        assert forall|i: int| 0 <= i < whole.len() implies whole[i] != b by {
            if i < init.len() {
                assert(whole[i] == init[i]);
            } else if i > init.len() {
                assert(whole[i] == pieces.last()[i - init.len() - 1]);
            }
        }
    } else if pieces.len() == 1 {
        assert(free_of(pieces[0], b));
    }
}

/// Every byte of `s` is an ASCII character.
pub open spec fn is_ascii_text(s: Seq<u8>) -> bool {
    forall|i: int| 0 <= i < s.len() ==> #[trigger] s[i] < 0x80
}

/// Pieces of ASCII characters, joined with an ASCII separator, make a text of
/// ASCII characters.
pub proof fn lemma_join_ascii(pieces: Seq<Seq<u8>>, sep: u8)
    requires
        sep < 0x80,
        forall|k: int| 0 <= k < pieces.len() ==> is_ascii_text(#[trigger] pieces[k]),
    ensures
        is_ascii_text(join(pieces, sep)),
    decreases pieces.len(),
{
    if pieces.len() >= 2 {
        let init = join(pieces.drop_last(), sep);
        assert forall|k: int| 0 <= k < pieces.drop_last().len() implies is_ascii_text(
            #[trigger] pieces.drop_last()[k],
        ) by {
            assert(pieces.drop_last()[k] == pieces[k]);
        }
        lemma_join_ascii(pieces.drop_last(), sep);
        let whole = join(pieces, sep);
        assert forall|i: int| 0 <= i < whole.len() implies #[trigger] whole[i] < 0x80 by {
            if i < init.len() {
                assert(whole[i] == init[i]);
            } else if i > init.len() {
                assert(whole[i] == pieces.last()[i - init.len() - 1]);
            }
        }
    } else if pieces.len() == 1 {
        assert(is_ascii_text(pieces[0]));
    }
}

/// A text of ASCII characters is valid UTF-8.
pub proof fn lemma_ascii_is_utf8(s: Seq<u8>)
    requires
        is_ascii_text(s),
    ensures
        vstd::utf8::valid_utf8(s),
{
    assert(s.subrange(0, 0) =~= Seq::<u8>::empty());
    assert(vstd::utf8::partial_valid_utf8(s, 0));
    assert forall|i: int| 0 <= i < s.len() implies #[trigger] vstd::utf8::is_leading_byte_width_1(
        s[i],
    ) by {
        assert(s[i] < 0x80);
    }
    vstd::utf8::partial_valid_utf8_extend_ascii_block(s, 0, s.len() as int);
    assert(s.subrange(0, s.len() as int) =~= s);
}

/// A stretch of a text: the bytes from `start` up to, not including, `end`.
#[derive(Clone, Copy, Debug)]
pub struct Span {
    pub start: usize,
    pub end: usize,
}

impl Span {
    /// The bytes of `s` that the span covers.
    pub open spec fn of(self, s: Seq<u8>) -> Seq<u8> {
        s.subrange(self.start as int, self.end as int)
    }

    /// The span lies within a text of `len` bytes.
    pub open spec fn within(self, len: nat) -> bool {
        self.start <= self.end <= len
    }
}

/// The pieces that a list of spans covers in `s`.
pub open spec fn pieces_of(spans: Seq<Span>, s: Seq<u8>) -> Seq<Seq<u8>> {
    Seq::new(spans.len(), |k: int| spans[k].of(s))
}

/// Splits `s` at each `sep` and returns where the pieces lie.
pub fn split_spans(s: &[u8], sep: u8) -> (spans: Vec<Span>)
    ensures
        pieces_of(spans@, s@) == split(s@, sep),
        forall|k: int| 0 <= k < spans@.len() ==> (#[trigger] spans@[k]).within(s@.len()),
{
    let mut spans: Vec<Span> = Vec::new();
    let mut start: usize = 0;
    let mut i: usize = 0;
    proof {
        assert(s@.subrange(0, 0) =~= Seq::<u8>::empty());
        assert(pieces_of(spans@, s@).push(s@.subrange(0, 0)) =~= seq![Seq::<u8>::empty()]);
    }
    while i < s.len()
        invariant
            start <= i <= s@.len(),
            pieces_of(spans@, s@).push(s@.subrange(start as int, i as int)) == split(
                s@.take(i as int),
                sep,
            ),
            forall|k: int| 0 <= k < spans@.len() ==> (#[trigger] spans@[k]).within(s@.len()),
        decreases s@.len() - i,
    {
        let ghost before = pieces_of(spans@, s@);
        let ghost current = s@.subrange(start as int, i as int);
        proof {
            assert(s@.take(i + 1).drop_last() =~= s@.take(i as int));
            assert(s@.take(i + 1).last() == s@[i as int]);
        }
        if s[i] == sep {
            spans.push(Span { start, end: i });
            start = i + 1;
            proof {
                assert(pieces_of(spans@, s@) =~= before.push(current));
                assert(s@.subrange(start as int, i + 1) =~= Seq::<u8>::empty());
            }
        } else {
            proof {
                let init = before.push(current);
                assert(current.push(s@[i as int]) =~= s@.subrange(start as int, i + 1));
                assert(init.update(init.len() - 1, init.last().push(s@[i as int])) =~= before.push(
                    s@.subrange(start as int, i + 1),
                ));
            }
        }
        i += 1;
    }
    proof {
        assert(s@.take(i as int) =~= s@);
    }
    let ghost before = pieces_of(spans@, s@);
    spans.push(Span { start, end: i });
    proof {
        assert(pieces_of(spans@, s@) =~= before.push(s@.subrange(start as int, i as int)));
    }
    spans
}

} // verus!
