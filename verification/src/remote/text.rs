//! Text building blocks: ordering, decimal numbers and percent-encoding.

use vstd::prelude::*;
use vstd::std_specs::iter::IteratorSpec;
use vstd::utf8::encode_utf8;

verus! {

/// The optional text as an optional sequence of characters.
pub open spec fn optional_text(text: Option<String>) -> Option<Seq<char>> {
    match text {
        Some(text) => Some(text@),
        None => None,
    }
}

/// The optional text as an optional sequence of characters.
pub open spec fn optional_str(text: Option<&str>) -> Option<Seq<char>> {
    match text {
        Some(text) => Some(text@),
        None => None,
    }
}

/// The optional text, borrowed.
pub fn as_optional_str(text: &Option<String>) -> (borrowed: Option<&str>)
    ensures
        optional_str(borrowed) == optional_text(*text),
        borrowed is Some <==> text is Some,
        borrowed is Some ==> borrowed->0@ == text->0@,
{
    match text {
        Some(text) => Some(text.as_str()),
        None => None,
    }
}

/// The texts as sequences of characters.
pub open spec fn text_list(texts: Seq<String>) -> Seq<Seq<char>> {
    Seq::new(texts.len(), |i: int| texts[i]@)
}

/// The order of Rust strings: lexicographic in the scalar values of the characters.
pub open spec fn text_before(a: Seq<char>, b: Seq<char>) -> bool
    decreases a.len(),
{
    if b.len() == 0 {
        false
    } else if a.len() == 0 {
        true
    } else {
        a[0] < b[0] || (a[0] == b[0] && text_before(a.drop_first(), b.drop_first()))
    }
}

/// What does not sort behind `a` sorts before whatever `a` sorts before.
pub proof fn lemma_before_and_not_after(a: Seq<char>, b: Seq<char>, c: Seq<char>)
    requires
        text_before(a, c),
        !text_before(a, b),
    ensures
        text_before(b, c),
    decreases a.len(),
{
    if a.len() > 0 && b.len() > 0 && a[0] == b[0] && a[0] == c[0] {
        lemma_before_and_not_after(a.drop_first(), b.drop_first(), c.drop_first());
    }
}

/// Whether `a` sorts before `b`.
pub fn is_before(a: &str, b: &str) -> (before: bool)
    ensures
        before == text_before(a@, b@),
{
    let mut left = a.chars();
    let mut right = b.chars();
    loop
        invariant
            text_before(left.remaining(), right.remaining()) == text_before(a@, b@),
            left.decrease() is Some,
        decreases left.decrease()->0,
    {
        match (left.next(), right.next()) {
            (_, None) => {
                return false;
            },
            (None, Some(_)) => {
                return true;
            },
            (Some(x), Some(y)) => {
                if x < y {
                    return true;
                }
                if y < x {
                    return false;
                }
            },
        }
    }
}

/// The character of a decimal digit.
pub open spec fn digit_char(digit: nat) -> char {
    ('0' as u32 + digit) as char
}

/// A natural number written in decimal, without leading zeros.
pub open spec fn decimal(n: nat) -> Seq<char>
    decreases n,
{
    if n < 10 {
        seq![digit_char(n)]
    } else {
        decimal(n / 10).push(digit_char(n % 10))
    }
}

/// An integer written in decimal, with a leading minus sign where it is negative.
pub open spec fn integer_text(i: int) -> Seq<char> {
    if i < 0 {
        seq!['-'] + decimal((-i) as nat)
    } else {
        decimal(i as nat)
    }
}

proof fn lemma_decimal_digits(n: nat)
    ensures
        decimal(n).len() > 0,
        forall|i: int| 0 <= i < decimal(n).len() ==> '0' <= #[trigger] decimal(n)[i] <= '9',
    decreases n,
{
    if n >= 10 {
        lemma_decimal_digits(n / 10);
    }
}

proof fn lemma_decimal_is_injective(a: nat, b: nat)
    requires
        decimal(a) == decimal(b),
    ensures
        a == b,
    decreases a,
{
    lemma_decimal_digits(a / 10);
    lemma_decimal_digits(b / 10);
    assert(decimal(a).last() == digit_char(a % 10));
    assert(decimal(b).last() == digit_char(b % 10));
    assert(digit_char(a % 10) as u32 == '0' as u32 + a % 10);
    assert(digit_char(b % 10) as u32 == '0' as u32 + b % 10);
    if a >= 10 && b >= 10 {
        assert(decimal(a).drop_last() =~= decimal(a / 10));
        assert(decimal(b).drop_last() =~= decimal(b / 10));
        lemma_decimal_is_injective(a / 10, b / 10);
    }
}

/// Different integers are written differently.
pub proof fn lemma_integer_text_is_injective(i: int, j: int)
    requires
        integer_text(i) == integer_text(j),
    ensures
        i == j,
{
    let left = if i < 0 {
        (-i) as nat
    } else {
        i as nat
    };
    let right = if j < 0 {
        (-j) as nat
    } else {
        j as nat
    };
    lemma_decimal_digits(left);
    lemma_decimal_digits(right);
    assert(integer_text(i)[0] == integer_text(j)[0]);
    assert(decimal(left)[0] != '-');
    assert(decimal(right)[0] != '-');
    if i < 0 {
        assert(integer_text(i).drop_first() =~= decimal(left));
        assert(integer_text(j).drop_first() =~= decimal(right));
    }
    lemma_decimal_is_injective(left, right);
}

fn digit_str(digit: u64) -> (text: &'static str)
    requires
        digit < 10,
    ensures
        text@ == seq![digit_char(digit as nat)],
{
    proof {
        reveal_strlit("0");
        reveal_strlit("1");
        reveal_strlit("2");
        reveal_strlit("3");
        reveal_strlit("4");
        reveal_strlit("5");
        reveal_strlit("6");
        reveal_strlit("7");
        reveal_strlit("8");
        reveal_strlit("9");
    }
    match digit {
        0 => "0",
        1 => "1",
        2 => "2",
        3 => "3",
        4 => "4",
        5 => "5",
        6 => "6",
        7 => "7",
        8 => "8",
        _ => "9",
    }
}

/// Appends `n` in decimal.
pub fn push_decimal(text: &mut String, n: u64)
    ensures
        final(text)@ == old(text)@ + decimal(n as nat),
    decreases n,
{
    if n < 10 {
        text.append(digit_str(n));
    } else {
        push_decimal(text, n / 10);
        text.append(digit_str(n % 10));
    }
}

/// Appends `i` in decimal, with its sign where it is negative.
pub fn push_integer(text: &mut String, i: i32)
    ensures
        final(text)@ == old(text)@ + integer_text(i as int),
{
    if i < 0 {
        proof {
            reveal_strlit("-");
        }
        text.append("-");
        push_decimal(text, (-(i as i64)) as u64);
    } else {
        push_decimal(text, i as u64);
    }
}

/// The bytes that percent-encoding leaves as they are.
pub open spec fn is_unreserved(byte: u8) -> bool {
    ||| '0' as u8 <= byte <= '9' as u8
    ||| 'A' as u8 <= byte <= 'Z' as u8
    ||| 'a' as u8 <= byte <= 'z' as u8
    ||| byte == '-' as u8
    ||| byte == '_' as u8
    ||| byte == '.' as u8
    ||| byte == '~' as u8
}

/// The upper-case hexadecimal digit of a value below sixteen.
pub open spec fn hex_char(digit: int) -> char {
    if digit < 10 {
        ('0' as u32 + digit) as char
    } else {
        ('A' as u32 + digit - 10) as char
    }
}

/// One byte, percent-encoded.
pub open spec fn percent_encoded_byte(byte: u8) -> Seq<char> {
    if is_unreserved(byte) {
        seq![byte as char]
    } else {
        seq!['%', hex_char(byte as int / 16), hex_char(byte as int % 16)]
    }
}

/// Bytes, percent-encoded one after the other.
pub open spec fn percent_encoded(bytes: Seq<u8>) -> Seq<char>
    decreases bytes.len(),
{
    if bytes.len() == 0 {
        Seq::empty()
    } else {
        percent_encoded_byte(bytes[0]) + percent_encoded(bytes.drop_first())
    }
}

/// Percent-encoded text has only the unreserved characters and percent signs, so that
/// as the value of a query parameter it does not end the parameter.
pub proof fn law_percent_encoded_is_plain(bytes: Seq<u8>, i: int)
    requires
        0 <= i < percent_encoded(bytes).len(),
    ensures
        percent_encoded(bytes)[i] == '%' || is_unreserved(percent_encoded(bytes)[i] as u8),
        (percent_encoded(bytes)[i] as u32) < 128,
    decreases bytes.len(),
{
    let head = percent_encoded_byte(bytes[0]);
    if i >= head.len() {
        law_percent_encoded_is_plain(bytes.drop_first(), i - head.len());
    }
}

/// Different bytes are percent-encoded differently.
pub proof fn lemma_percent_encoded_is_injective(a: Seq<u8>, b: Seq<u8>)
    requires
        percent_encoded(a) == percent_encoded(b),
    ensures
        a == b,
    decreases a.len(),
{
    if a.len() == 0 || b.len() == 0 {
        assert(b.len() > 0 ==> percent_encoded(b).len() >= percent_encoded_byte(b[0]).len());
        assert(a.len() > 0 ==> percent_encoded(a).len() >= percent_encoded_byte(a[0]).len());
        assert(a =~= b);
    } else {
        let left = percent_encoded(a);
        let right = percent_encoded(b);
        assert(left[0] == right[0]);
        assert(left[0] == percent_encoded_byte(a[0])[0]);
        assert(right[0] == percent_encoded_byte(b[0])[0]);
        if !is_unreserved(a[0]) {
            assert(left[1] == percent_encoded_byte(a[0])[1]);
            assert(left[2] == percent_encoded_byte(a[0])[2]);
            assert(right[1] == percent_encoded_byte(b[0])[1]);
            assert(right[2] == percent_encoded_byte(b[0])[2]);
        }
        assert(a[0] == b[0]);
        let size = percent_encoded_byte(a[0]).len() as int;
        assert(left.skip(size) =~= percent_encoded(a.drop_first()));
        assert(right.skip(size) =~= percent_encoded(b.drop_first()));
        lemma_percent_encoded_is_injective(a.drop_first(), b.drop_first());
        assert(a =~= seq![a[0]] + a.drop_first());
        assert(b =~= seq![b[0]] + b.drop_first());
    }
}

/// `urlencoding::encode`: the UTF-8 bytes of `data`, each kept where it is an
/// ASCII letter or digit or one of `-`, `_`, `.`, `~`, and written as `%` and two
/// upper-case hexadecimal digits otherwise.
#[verifier::external_body]
pub(crate) fn url_encode(data: &str) -> (encoded: String)
    ensures
        encoded@ == percent_encoded(encode_utf8(data@)),
{
    urlencoding::encode(data).into_owned()
}

} // verus!
