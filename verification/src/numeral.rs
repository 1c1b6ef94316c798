//! Decimal and hexadecimal numerals in byte texts.

use crate::text::Span;
use vstd::prelude::*;

verus! {

/// The byte `+`.
pub const PLUS: u8 = 0x2b;

/// The byte `0`.
pub const ZERO: u8 = 0x30;

/// The byte `9`.
pub const NINE: u8 = 0x39;

/// The byte `A`.
pub const UPPER_A: u8 = 0x41;

/// The byte `F`.
pub const UPPER_F: u8 = 0x46;

/// The byte `a`.
pub const LOWER_A: u8 = 0x61;

/// The byte `f`.
pub const LOWER_F: u8 = 0x66;

/// The byte is one of `0` to `9`.
pub open spec fn is_digit(b: u8) -> bool {
    ZERO <= b <= NINE
}

/// Every byte of `s` is a decimal digit.
pub open spec fn all_digits(s: Seq<u8>) -> bool {
    forall|i: int| 0 <= i < s.len() ==> is_digit(#[trigger] s[i])
}

/// The number that a run of decimal digits writes, most significant first.
pub open spec fn decimal_value(s: Seq<u8>) -> nat
    decreases s.len(),
{
    if s.len() == 0 {
        0
    } else {
        decimal_value(s.drop_last()) * 10 + (s.last() - ZERO) as nat
    }
}

/// The shortest decimal numeral of `n`.
pub open spec fn decimal_text(n: nat) -> Seq<u8>
    decreases n,
{
    if n < 10 {
        seq![(ZERO + n) as u8]
    } else {
        decimal_text(n / 10).push((ZERO + n % 10) as u8)
    }
}

/// `s` is the shortest decimal numeral of some number: digits only, at least
/// one, and no zero in front of another digit.
pub open spec fn is_plain_decimal(s: Seq<u8>) -> bool {
    &&& s.len() >= 1
    &&& all_digits(s)
    &&& (s.len() == 1 || s[0] != ZERO)
}

/// The number that `s` writes as an unsigned decimal of at most `max`: an
/// optional `+`, then one or more digits; zeros in front are allowed.
pub open spec fn unsigned_of_text(s: Seq<u8>, max: nat) -> Option<nat> {
    let digits = if s.len() > 0 && s[0] == PLUS {
        s.drop_first()
    } else {
        s
    };
    if digits.len() > 0 && all_digits(digits) && decimal_value(digits) <= max {
        Some(decimal_value(digits))
    } else {
        None
    }
}

/// The octet that `s` writes in dotted-decimal notation: one to three digits,
/// no zero in front of another digit, at most 255.
pub open spec fn octet_of_text(s: Seq<u8>) -> Option<u8> {
    if is_plain_decimal(s) && s.len() <= 3 && decimal_value(s) <= 255 {
        Some(decimal_value(s) as u8)
    } else {
        None
    }
}

/// The value of a hexadecimal digit, of either case.
pub open spec fn hex_digit_value(b: u8) -> Option<nat> {
    if ZERO <= b <= NINE {
        Some((b - ZERO) as nat)
    } else if LOWER_A <= b <= LOWER_F {
        Some((b - LOWER_A + 10) as nat)
    } else if UPPER_A <= b <= UPPER_F {
        Some((b - UPPER_A + 10) as nat)
    } else {
        None
    }
}

/// Every byte of `s` is a hexadecimal digit.
pub open spec fn all_hex_digits(s: Seq<u8>) -> bool {
    forall|i: int| 0 <= i < s.len() ==> hex_digit_value(#[trigger] s[i]) is Some
}

/// The number that a run of hexadecimal digits writes, most significant first.
pub open spec fn hex_value(s: Seq<u8>) -> nat
    decreases s.len(),
{
    if s.len() == 0 {
        0
    } else {
        hex_value(s.drop_last()) * 16 + hex_digit_value(s.last()).unwrap()
    }
}

/// The 16-bit group that `s` writes: one to four hexadecimal digits.
pub open spec fn group_of_text(s: Seq<u8>) -> Option<u16> {
    if 1 <= s.len() <= 4 && all_hex_digits(s) {
        Some(hex_value(s) as u16)
    } else {
        None
    }
}

/// A run of `k` decimal digits writes a number below the `k`-th power of ten.
pub proof fn lemma_decimal_value_bound(s: Seq<u8>)
    requires
        all_digits(s),
        s.len() <= 3,
    ensures
        s.len() == 0 ==> decimal_value(s) == 0,
        s.len() == 1 ==> decimal_value(s) <= 9,
        s.len() == 2 ==> decimal_value(s) <= 99,
        s.len() == 3 ==> decimal_value(s) <= 999,
    decreases s.len(),
{
    if s.len() > 0 {
        assert(is_digit(s.last()));
        lemma_decimal_value_bound(s.drop_last());
    }
}

/// A run of `k` hexadecimal digits writes a number below the `k`-th power of
/// sixteen.
pub proof fn lemma_hex_value_bound(s: Seq<u8>)
    requires
        all_hex_digits(s),
        s.len() <= 4,
    ensures
        s.len() == 0 ==> hex_value(s) == 0,
        s.len() == 1 ==> hex_value(s) <= 0xf,
        s.len() == 2 ==> hex_value(s) <= 0xff,
        s.len() == 3 ==> hex_value(s) <= 0xfff,
        s.len() == 4 ==> hex_value(s) <= 0xffff,
    decreases s.len(),
{
    if s.len() > 0 {
        assert(hex_digit_value(s.last()) is Some);
        lemma_hex_value_bound(s.drop_last());
    }
}

/// A text that writes an unsigned decimal holds ASCII characters only.
pub proof fn lemma_unsigned_text_ascii(s: Seq<u8>, max: nat)
    requires
        unsigned_of_text(s, max) is Some,
    ensures
        crate::text::is_ascii_text(s),
{
    assert forall|i: int| 0 <= i < s.len() implies #[trigger] s[i] < 0x80 by {
        if s[0] == PLUS {
            if i > 0 {
                assert(is_digit(s.drop_first()[i - 1]));
            }
        } else {
            assert(is_digit(s[i]));
        }
    }
}

/// A text that writes an octet holds ASCII characters only.
pub proof fn lemma_octet_text_ascii(s: Seq<u8>)
    requires
        octet_of_text(s) is Some,
    ensures
        crate::text::is_ascii_text(s),
{
    assert forall|i: int| 0 <= i < s.len() implies #[trigger] s[i] < 0x80 by {
        assert(is_digit(s[i]));
    }
}

/// A text that writes a group holds ASCII characters only.
pub proof fn lemma_group_text_ascii(s: Seq<u8>)
    requires
        group_of_text(s) is Some,
    ensures
        crate::text::is_ascii_text(s),
{
    assert forall|i: int| 0 <= i < s.len() implies #[trigger] s[i] < 0x80 by {
        assert(hex_digit_value(s[i]) is Some);
    }
}

/// The shortest numeral of a number is a plain decimal that writes it.
pub proof fn lemma_decimal_text(n: nat)
    ensures
        is_plain_decimal(decimal_text(n)),
        decimal_value(decimal_text(n)) == n,
        n >= 1 ==> decimal_text(n)[0] != ZERO,
        n < 10 ==> decimal_text(n).len() == 1,
        10 <= n < 100 ==> decimal_text(n).len() == 2,
        100 <= n < 1000 ==> decimal_text(n).len() == 3,
    decreases n,
{
    let t = decimal_text(n);
    if n < 10 {
        assert(t.drop_last() =~= Seq::<u8>::empty());
        assert(decimal_value(Seq::<u8>::empty()) == 0);
        assert(t.last() == ZERO + n);
    } else {
        let init = decimal_text(n / 10);
        lemma_decimal_text(n / 10);
        assert(t.drop_last() =~= init);
        assert(t.last() == ZERO + n % 10);
        assert(t[0] == init[0]);
        assert forall|i: int| 0 <= i < t.len() implies is_digit(#[trigger] t[i]) by {
            if i < init.len() {
                assert(t[i] == init[i]);
            }
        }
    }
}

/// A plain decimal whose first digit is not zero writes a positive number.
pub proof fn lemma_decimal_value_positive(s: Seq<u8>)
    requires
        s.len() >= 1,
        all_digits(s),
        s[0] != ZERO,
    ensures
        decimal_value(s) >= 1,
    decreases s.len(),
{
    if s.len() > 1 {
        assert(s.drop_last()[0] == s[0]);
        lemma_decimal_value_positive(s.drop_last());
    } else {
        assert(is_digit(s[0]));
        assert(s.last() == s[0]);
    }
}

/// A plain decimal is the shortest numeral of the number it writes.
pub proof fn lemma_plain_decimal_text(s: Seq<u8>)
    requires
        is_plain_decimal(s),
    ensures
        decimal_text(decimal_value(s)) == s,
    decreases s.len(),
{
    assert(is_digit(s.last()));
    let init = s.drop_last();
    if s.len() == 1 {
        assert(init =~= Seq::<u8>::empty());
        assert(decimal_text(decimal_value(s)) =~= s);
    } else {
        assert(init[0] == s[0]);
        lemma_decimal_value_positive(init);
        lemma_plain_decimal_text(init);
        let v = decimal_value(s);
        assert(v / 10 == decimal_value(init));
        assert(v % 10 == s.last() - ZERO);
        assert(decimal_text(v) =~= s);
    }
}

/// Appends the shortest decimal numeral of `n` to `out`.
pub fn push_decimal(out: &mut Vec<u8>, n: u8)
    ensures
        final(out)@ == old(out)@ + decimal_text(n as nat),
{
    proof {
        reveal_with_fuel(decimal_text, 3);
    }
    if n >= 100 {
        out.push(ZERO + n / 100);
    }
    if n >= 10 {
        out.push(ZERO + (n / 10) % 10);
    }
    out.push(ZERO + n % 10);
    proof {
        assert(final(out)@ =~= old(out)@ + decimal_text(n as nat));
    }
}

/// Reads the stretch `span` of `s` as an octet in dotted-decimal notation.
pub fn parse_octet(s: &[u8], span: Span) -> (octet: Option<u8>)
    requires
        span.within(s@.len()),
    ensures
        octet == octet_of_text(span.of(s@)),
{
    let ghost piece = span.of(s@);
    let len: usize = span.end - span.start;
    if len == 0 || len > 3 {
        return None;
    }
    let mut value: u16 = 0;
    let mut i: usize = span.start;
    while i < span.end
        invariant
            span.within(s@.len()),
            span.end - span.start <= 3,
            span.start <= i <= span.end,
            piece == span.of(s@),
            all_digits(piece.take(i - span.start)),
            value == decimal_value(piece.take(i - span.start)),
        decreases span.end - i,
    {
        let b: u8 = s[i];
        proof {
            let k = i - span.start;
            assert(piece[k] == b);
            assert(piece.take(k + 1).drop_last() =~= piece.take(k));
            assert(piece.take(k + 1).last() == b);
            lemma_decimal_value_bound(piece.take(k));
        }
        if b < ZERO || b > NINE {
            assert(!is_digit(piece[i - span.start]));
            return None;
        }
        value = value * 10 + (b - ZERO) as u16;
        i += 1;
        proof {
            let k = i - span.start;
            assert forall|j: int| 0 <= j < k implies is_digit(#[trigger] piece.take(k)[j]) by {
                if j < k - 1 {
                    assert(piece.take(k)[j] == piece.take(k - 1)[j]);
                }
            }
        }
    }
    proof {
        assert(piece.take(i - span.start) =~= piece);
    }
    if len > 1 && s[span.start] == ZERO {
        assert(piece[0] == ZERO);
        return None;
    }
    assert(piece[0] == s@[span.start as int]);
    if value > 255 {
        return None;
    }
    Some(value as u8)
}

/// Reads the stretch `span` of `s` as a group of hexadecimal digits.
pub fn parse_group(s: &[u8], span: Span) -> (group: Option<u16>)
    requires
        span.within(s@.len()),
    ensures
        group == group_of_text(span.of(s@)),
{
    let ghost piece = span.of(s@);
    let len: usize = span.end - span.start;
    if len == 0 || len > 4 {
        return None;
    }
    let mut value: u32 = 0;
    let mut i: usize = span.start;
    while i < span.end
        invariant
            span.within(s@.len()),
            span.end - span.start <= 4,
            span.start <= i <= span.end,
            piece == span.of(s@),
            all_hex_digits(piece.take(i - span.start)),
            value == hex_value(piece.take(i - span.start)),
        decreases span.end - i,
    {
        let b: u8 = s[i];
        proof {
            let k = i - span.start;
            assert(piece[k] == b);
            assert(piece.take(k + 1).drop_last() =~= piece.take(k));
            assert(piece.take(k + 1).last() == b);
            lemma_hex_value_bound(piece.take(k));
        }
        let digit: u32 = if ZERO <= b && b <= NINE {
            (b - ZERO) as u32
        } else if LOWER_A <= b && b <= LOWER_F {
            (b - LOWER_A) as u32 + 10
        } else if UPPER_A <= b && b <= UPPER_F {
            (b - UPPER_A) as u32 + 10
        } else {
            assert(hex_digit_value(piece[i - span.start]) is None);
            return None;
        };
        value = value * 16 + digit;
        i += 1;
        proof {
            let k = i - span.start;
            assert forall|j: int| 0 <= j < k implies hex_digit_value(
                #[trigger] piece.take(k)[j],
            ) is Some by {
                if j < k - 1 {
                    assert(piece.take(k)[j] == piece.take(k - 1)[j]);
                }
            }
        }
    }
    proof {
        assert(piece.take(i - span.start) =~= piece);
        lemma_hex_value_bound(piece);
    }
    Some(value as u16)
}

} // verus!
