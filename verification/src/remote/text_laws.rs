//! What holds of texts, of numbers written in decimal and of percent-encoding.

use crate::remote::text::{
    decimal, integer_text, optional_str, optional_text, percent_encoded, percent_encoded_byte,
    text_before, text_list,
};
use vstd::prelude::*;

verus! {

/// An optional text has characters just when there is a text, and then those of the text.
pub proof fn law_optional_text_has_the_characters(text: String, borrowed: &str)
    ensures
        optional_text(Some(text)) == Some(text@),
        optional_text(None) == None::<Seq<char>>,
        optional_str(Some(borrowed)) == Some(borrowed@),
        optional_str(None) == None::<Seq<char>>,
{
}

/// A list of texts has the characters of each, in their order.
pub proof fn law_text_list_has_the_characters(texts: Seq<String>)
    ensures
        text_list(texts).len() == texts.len(),
        forall|i: int| 0 <= i < texts.len() ==> #[trigger] text_list(texts)[i] == texts[i]@,
{
}

/// Of two texts one sorts before the other, unless they are equal.
pub proof fn law_text_order_is_total(a: Seq<char>, b: Seq<char>)
    ensures
        !(text_before(a, b) && text_before(b, a)),
        text_before(a, b) || text_before(b, a) <==> a != b,
    decreases a.len(),
{
    if a.len() == 0 || b.len() == 0 {
        assert(a.len() == 0 && b.len() == 0 ==> a =~= b);
    } else {
        law_text_order_is_total(a.drop_first(), b.drop_first());
        if a[0] == b[0] && a.drop_first() == b.drop_first() {
            assert(a =~= seq![a[0]] + a.drop_first());
            assert(b =~= seq![b[0]] + b.drop_first());
        }
    }
}

/// The first characters in which two texts differ decide their order.
pub proof fn law_first_difference_decides(
    common: Seq<char>,
    x: char,
    y: char,
    behind_x: Seq<char>,
    behind_y: Seq<char>,
)
    requires
        x != y,
    ensures
        text_before(common + seq![x] + behind_x, common + seq![y] + behind_y) <==> x < y,
    decreases common.len(),
{
    let a = common + seq![x] + behind_x;
    let b = common + seq![y] + behind_y;
    if common.len() > 0 {
        let rest = common.drop_first();
        law_first_difference_decides(rest, x, y, behind_x, behind_y);
        assert(a.drop_first() =~= rest + seq![x] + behind_x);
        assert(b.drop_first() =~= rest + seq![y] + behind_y);
        assert(a[0] == b[0]);
    } else {
        assert(a[0] == x);
        assert(b[0] == y);
    }
}

/// A text sorts before every longer text that begins with it, and after none of them.
pub proof fn law_beginning_is_before(beginning: Seq<char>, rest: Seq<char>)
    ensures
        text_before(beginning, beginning + rest) <==> rest.len() > 0,
        !text_before(beginning + rest, beginning),
    decreases beginning.len(),
{
    let whole = beginning + rest;
    if beginning.len() > 0 {
        law_beginning_is_before(beginning.drop_first(), rest);
        assert(whole.drop_first() =~= beginning.drop_first() + rest);
        assert(whole[0] == beginning[0]);
    }
}

/// The number that decimal digits stand for.
pub open spec fn digits_value(digits: Seq<char>) -> int
    decreases digits.len(),
{
    if digits.len() == 0 {
        0
    } else {
        10 * digits_value(digits.drop_last()) + (digits.last() as int - '0' as int)
    }
}

/// A number in decimal is made of digits that stand for it, without a leading zero.
pub proof fn law_decimal_is_read_back(n: nat)
    ensures
        digits_value(decimal(n)) == n,
        decimal(n).len() > 0,
        forall|i: int| 0 <= i < decimal(n).len() ==> '0' <= #[trigger] decimal(n)[i] <= '9',
        n > 0 ==> decimal(n)[0] != '0',
        n == 0 ==> decimal(n) == seq!['0'],
    decreases n,
{
    reveal_with_fuel(digits_value, 2);
    if n < 10 {
        assert(decimal(n).drop_last() =~= Seq::<char>::empty());
    } else {
        law_decimal_is_read_back(n / 10);
        assert(decimal(n).drop_last() =~= decimal(n / 10));
        assert(decimal(n)[0] == decimal(n / 10)[0]);
    }
}

/// An integer is written as its size in decimal, behind a minus sign where it is negative.
pub proof fn law_integer_is_signed_decimal(n: nat)
    ensures
        integer_text(n as int) == decimal(n),
        n > 0 ==> integer_text(-(n as int)) == seq!['-'] + decimal(n),
{
}

/// The value of an upper-case hexadecimal digit.
pub open spec fn hex_value(digit: char) -> int {
    if '0' <= digit <= '9' {
        digit as int - '0' as int
    } else {
        digit as int - 'A' as int + 10
    }
}

/// Percent-encoding goes byte by byte: bytes put together are encoded as their parts
/// put together.
pub proof fn law_percent_encoding_goes_byte_by_byte(a: Seq<u8>, b: Seq<u8>)
    ensures
        percent_encoded(Seq::empty()) == Seq::<char>::empty(),
        percent_encoded(a + b) == percent_encoded(a) + percent_encoded(b),
    decreases a.len(),
{
    if a.len() == 0 {
        assert(a + b =~= b);
        assert(percent_encoded(a) + percent_encoded(b) =~= percent_encoded(b));
    } else {
        law_percent_encoding_goes_byte_by_byte(a.drop_first(), b);
        assert((a + b).drop_first() =~= a.drop_first() + b);
        assert((a + b)[0] == a[0]);
        assert(percent_encoded(a + b) =~= percent_encoded(a) + percent_encoded(b));
    }
}

/// ASCII letters and digits and `-`, `.`, `_`, `~` are encoded as themselves, and every
/// other byte as a percent sign and the two hexadecimal digits of its value.
pub proof fn law_byte_is_kept_or_written_in_hexadecimal(byte: u8)
    ensures
        48 <= byte <= 57 || 65 <= byte <= 90 || 97 <= byte <= 122 || byte == 45 || byte == 46
            || byte == 95 || byte == 126 ==> percent_encoded(seq![byte]) == seq![byte as char],
        !(48 <= byte <= 57 || 65 <= byte <= 90 || 97 <= byte <= 122 || byte == 45 || byte == 46
            || byte == 95 || byte == 126) ==> {
            let encoded = percent_encoded(seq![byte]);
            &&& encoded.len() == 3
            &&& encoded[0] == '%'
            &&& '0' <= encoded[1] <= '9' || 'A' <= encoded[1] <= 'F'
            &&& '0' <= encoded[2] <= '9' || 'A' <= encoded[2] <= 'F'
            &&& 16 * hex_value(encoded[1]) + hex_value(encoded[2]) == byte
        },
{
    reveal_with_fuel(percent_encoded, 2);
    assert(seq![byte].drop_first() =~= Seq::<u8>::empty());
    assert(percent_encoded(seq![byte]) =~= percent_encoded_byte(byte));
}

} // verus!
