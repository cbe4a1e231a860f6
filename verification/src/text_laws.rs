//! What written text says when it is read again.
use vstd::prelude::*;
use vstd::utf8::encode_utf8;

use crate::text::{
    decimal, decimal_nat, encoded, encoded_byte, encoded_bytes, has_prefix, hex_digit, joined,
    last_digits, split_on,
};

verus! {

// ---- numbers --------------------------------------------------------------------------------
/// Whether a character is a decimal digit.
pub open spec fn is_digit(c: char) -> bool {
    '0' <= c <= '9'
}

/// Whether a text holds decimal digits alone.
pub open spec fn all_digits(s: Seq<char>) -> bool {
    forall|i: int| 0 <= i < s.len() ==> is_digit(#[trigger] s[i])
}

/// The number that decimal digits say.
pub open spec fn number_read(s: Seq<char>) -> int
    decreases s.len(),
{
    if s.len() == 0 {
        0
    } else {
        10 * number_read(s.drop_last()) + (s.last() as int - '0' as int)
    }
}

/// Ten to the power of `n`.
pub open spec fn ten_to(n: nat) -> int
    decreases n,
{
    if n == 0 {
        1
    } else {
        10 * ten_to((n - 1) as nat)
    }
}

/// A number in decimal reads back as itself. It holds digits alone, and begins with a zero only
/// where it is zero.
pub proof fn law_decimal_reads_back(n: nat)
    ensures
        number_read(decimal_nat(n)) == n,
        all_digits(decimal_nat(n)),
        decimal_nat(n).len() >= 1,
        decimal_nat(n)[0] == '0' ==> n == 0 && decimal_nat(n).len() == 1,
    decreases n,
{
    reveal_with_fuel(number_read, 2);
    if n >= 10 {
        law_decimal_reads_back(n / 10);
        let text = decimal_nat(n);
        assert(text.drop_last() =~= decimal_nat(n / 10));
        assert(text[0] == decimal_nat(n / 10)[0]);
    } else {
        assert(decimal_nat(n).drop_last() =~= Seq::empty());
    }
}

/// A negative number is a minus sign and its magnitude, any other its magnitude alone.
pub proof fn law_minus_sign_stands_before_the_magnitude(i: int)
    ensures
        i >= 0 ==> number_read(decimal(i)) == i && all_digits(decimal(i)),
        i < 0 ==> decimal(i).len() >= 2 && decimal(i)[0] == '-' && all_digits(decimal(i).skip(1))
            && number_read(decimal(i).skip(1)) == -i,
{
    if i >= 0 {
        law_decimal_reads_back(i as nat);
    } else {
        law_decimal_reads_back((-i) as nat);
        assert(decimal(i).skip(1) =~= decimal_nat((-i) as nat));
    }
}

/// Fixed digits are as many as were asked for, and read back as the number that they can hold.
pub proof fn law_fixed_digits_read_back(n: nat, width: nat)
    requires
        n < ten_to(width),
    ensures
        last_digits(n, width).len() == width,
        all_digits(last_digits(n, width)),
        number_read(last_digits(n, width)) == n,
    decreases width,
{
    if width > 0 {
        law_fixed_digits_read_back(n / 10, (width - 1) as nat);
        assert(last_digits(n, width).drop_last() =~= last_digits(n / 10, (width - 1) as nat));
    }
}

// ---- prefixes and lists ---------------------------------------------------------------------
/// A text begins with a prefix exactly where something follows the prefix to make it up.
pub proof fn law_prefix_is_what_comes_first(s: Seq<char>, prefix: Seq<char>, rest: Seq<char>)
    ensures
        has_prefix(prefix + rest, prefix),
        has_prefix(s, prefix) ==> s == prefix + s.skip(prefix.len() as int),
        has_prefix(s, prefix) ==> s.len() >= prefix.len() && (forall|i: int|
            0 <= i < prefix.len() ==> s[i] == #[trigger] prefix[i]),
        s.len() < prefix.len() ==> !has_prefix(s, prefix),
        (exists|i: int| 0 <= i < prefix.len() && i < s.len() && s[i] != #[trigger] prefix[i])
            ==> !has_prefix(s, prefix),
{
    assert((prefix + rest).take(prefix.len() as int) =~= prefix);
    if has_prefix(s, prefix) {
        let cut = s.take(prefix.len() as int);
        assert(forall|i: int| 0 <= i < prefix.len() ==> cut[i] == s[i]);
        assert(s =~= prefix + s.skip(prefix.len() as int));
    }
}

/// One part more stands behind one separator more.
pub proof fn law_joining_adds_one_separator(
    parts: Seq<Seq<char>>,
    more: Seq<char>,
    sep: char,
)
    ensures
        parts.len() > 0 ==> joined(parts.push(more), sep) == joined(parts, sep).push(sep) + more,
        parts.len() == 0 ==> joined(parts.push(more), sep) == more,
{
    assert(parts.push(more).drop_last() =~= parts);
}

proof fn lemma_split_has_parts(s: Seq<char>, sep: char)
    ensures
        split_on(s, sep).len() >= 1,
    decreases s.len(),
{
    if s.len() > 0 {
        lemma_split_has_parts(s.drop_last(), sep);
    }
}

/// Joining what was split gives the text back, whatever it holds.
pub proof fn law_join_undoes_split(s: Seq<char>, sep: char)
    ensures
        joined(split_on(s, sep), sep) == s,
    decreases s.len(),
{
    if s.len() == 0 {
        assert(joined(split_on(s, sep), sep) =~= s);
    } else {
        let before = split_on(s.drop_last(), sep);
        let early = before.drop_last();
        law_join_undoes_split(s.drop_last(), sep);
        lemma_split_has_parts(s.drop_last(), sep);
        assert(before =~= early.push(before.last()));
        law_joining_adds_one_separator(early, before.last(), sep);
        assert(s =~= s.drop_last().push(s.last()));
        if s.last() == sep {
            law_joining_adds_one_separator(before, Seq::empty(), sep);
            assert(joined(before.push(Seq::empty()), sep) =~= s);
        } else {
            let grown = before.last().push(s.last());
            law_joining_adds_one_separator(early, grown, sep);
            assert(split_on(s, sep) == early.push(grown));
            if early.len() == 0 {
                assert(before.last() == s.drop_last());
            } else {
                assert(joined(early.push(grown), sep) =~= (joined(early, sep).push(sep)
                    + before.last()).push(s.last()));
            }
        }
    }
}

// ---- percent-encoding -----------------------------------------------------------------------
/// The value of a hexadecimal digit in capitals.
pub open spec fn hex_read(c: char) -> int {
    if '0' <= c <= '9' {
        c as int - '0' as int
    } else {
        c as int - 'A' as int + 10
    }
}

/// The bytes that encoded text says: `%` and two hexadecimal digits are one byte, and any other
/// character is its own.
pub open spec fn bytes_read(s: Seq<char>) -> Seq<u8>
    decreases s.len(),
{
    if s.len() == 0 {
        Seq::empty()
    } else if s[0] == '%' && s.len() >= 3 {
        seq![(16 * hex_read(s[1]) + hex_read(s[2])) as u8] + bytes_read(s.skip(3))
    } else {
        seq![s[0] as u8] + bytes_read(s.skip(1))
    }
}

/// A byte stands for itself exactly where it is a letter, a digit or one of `-._~`. Any other is
/// three characters long.
pub proof fn law_only_plain_characters_stand_for_themselves(b: u8)
    ensures
        ({
            let c = b as char;
            let plain = 'A' <= c <= 'Z' || 'a' <= c <= 'z' || '0' <= c <= '9' || c == '-' || c
                == '.' || c == '_' || c == '~';
            &&& plain ==> encoded_byte(b) == seq![c]
            &&& !plain ==> encoded_byte(b).len() == 3 && encoded_byte(b)[0] == '%'
        }),
{
}

proof fn lemma_byte_reads_back(b: u8, rest: Seq<char>)
    ensures
        bytes_read(encoded_byte(b) + rest) == seq![b] + bytes_read(rest),
{
    let text = encoded_byte(b) + rest;
    if encoded_byte(b).len() == 1 {
        assert(text[0] == b as char);
        assert(text.skip(1) =~= rest);
    } else {
        let high = b as int / 16;
        let low = b as int % 16;
        assert(text[0] == '%' && text[1] == hex_digit(high) && text[2] == hex_digit(low));
        assert(hex_read(hex_digit(high)) == high);
        assert(hex_read(hex_digit(low)) == low);
        assert(text.skip(3) =~= rest);
    }
}

proof fn lemma_encoded_from_the_front(bytes: Seq<u8>)
    requires
        bytes.len() > 0,
    ensures
        encoded_bytes(bytes) == encoded_byte(bytes[0]) + encoded_bytes(bytes.skip(1)),
    decreases bytes.len(),
{
    let rest = bytes.skip(1);
    if bytes.len() == 1 {
        assert(bytes.drop_last() =~= Seq::empty());
        assert(rest =~= Seq::empty());
        assert(encoded_bytes(bytes) =~= encoded_byte(bytes[0]) + encoded_bytes(rest));
    } else {
        lemma_encoded_from_the_front(bytes.drop_last());
        assert(bytes.drop_last().skip(1) =~= rest.drop_last());
        assert(encoded_bytes(bytes) =~= encoded_byte(bytes[0]) + encoded_bytes(rest));
    }
}

proof fn lemma_bytes_read_back(bytes: Seq<u8>)
    ensures
        bytes_read(encoded_bytes(bytes)) == bytes,
    decreases bytes.len(),
{
    if bytes.len() > 0 {
        lemma_encoded_from_the_front(bytes);
        lemma_byte_reads_back(bytes[0], encoded_bytes(bytes.skip(1)));
        lemma_bytes_read_back(bytes.skip(1));
        assert(bytes =~= seq![bytes[0]] + bytes.skip(1));
    }
}

/// Encoded text reads back as the very bytes of the text: no two texts are encoded alike.
pub proof fn law_encoded_text_reads_back(s: Seq<char>)
    ensures
        bytes_read(encoded(s)) == encode_utf8(s),
{
    lemma_bytes_read_back(encode_utf8(s));
}

} // verus!
