//! Text: bytes read as UTF-8, and numbers written out in decimal.

use vstd::prelude::*;

verus! {

/// What `String::from_utf8_lossy` makes of bytes that are not UTF-8: the text
/// in which each ill-formed run is replaced by U+FFFD.
pub uninterp spec fn utf8_lossy(b: Seq<u8>) -> Seq<char>;

/// The text that `b` holds: what it encodes, with ill-formed runs replaced.
pub open spec fn text_of(b: Seq<u8>) -> Seq<char> {
    if vstd::utf8::valid_utf8(b) {
        vstd::utf8::decode_utf8(b)
    } else {
        utf8_lossy(b)
    }
}

/// `String::from_utf8_lossy`: the text that well-formed bytes encode, and a
/// text that depends on the bytes alone where they are ill-formed.
#[verifier::external_body]
fn string_from_utf8_lossy(b: &[u8]) -> (s: String)
    ensures
        vstd::utf8::valid_utf8(b@) ==> s@ == vstd::utf8::decode_utf8(b@),
        !vstd::utf8::valid_utf8(b@) ==> s@ == utf8_lossy(b@),
{
    String::from_utf8_lossy(b).into_owned()
}

/// `std::str::from_utf8`: the text that the bytes encode, if they are
/// well-formed UTF-8, and no text otherwise.
#[verifier::external_body]
pub(crate) fn str_from_utf8(b: &[u8]) -> (r: Option<&str>)
    ensures
        r is Some <==> vstd::utf8::valid_utf8(b@),
        r matches Some(s) ==> s@ == vstd::utf8::decode_utf8(b@),
{
    std::str::from_utf8(b).ok()
}

/// The text that `b` holds, with ill-formed runs replaced.
pub fn read_text(b: &[u8]) -> (s: String)
    ensures
        s@ == text_of(b@),
{
    string_from_utf8_lossy(b)
}

/// Text reads back from its own UTF-8 bytes.
pub proof fn text_of_encoded_text(s: Seq<char>)
    ensures
        text_of(vstd::utf8::encode_utf8(s)) == s,
{
    broadcast use {vstd::utf8::encode_utf8_valid_utf8, vstd::utf8::encode_utf8_decode_utf8};

}

/// The character for one decimal digit.
pub open spec fn digit_char(d: nat) -> char {
    if d == 0 {
        '0'
    } else if d == 1 {
        '1'
    } else if d == 2 {
        '2'
    } else if d == 3 {
        '3'
    } else if d == 4 {
        '4'
    } else if d == 5 {
        '5'
    } else if d == 6 {
        '6'
    } else if d == 7 {
        '7'
    } else if d == 8 {
        '8'
    } else {
        '9'
    }
}

/// `n` in decimal, without leading zeros.
pub open spec fn decimal_text(n: nat) -> Seq<char>
    decreases n,
{
    if n < 10 {
        seq![digit_char(n)]
    } else {
        decimal_text(n / 10).push(digit_char(n % 10))
    }
}

fn digit(d: usize) -> (s: &'static str)
    requires
        d < 10,
    ensures
        s@ == seq![digit_char(d as nat)],
{
    proof {
        reveal_strlit("0");
        reveal_strlit("1");
        reveal_strlit("2");
        reveal_strlit("3");
        reveal_strlit("4");
        reveal_strlit("5");
        reveal_strlit("6");
        reveal_strlit("7");
        reveal_strlit("8");
        reveal_strlit("9");
    }
    let s = match d {
        0 => "0",
        1 => "1",
        2 => "2",
        3 => "3",
        4 => "4",
        5 => "5",
        6 => "6",
        7 => "7",
        8 => "8",
        _ => "9",
    };
    assert(s@ =~= seq![digit_char(d as nat)]);
    s
}

/// Appends `n` in decimal.
pub fn push_decimal(out: &mut String, n: usize)
    ensures
        final(out)@ == old(out)@ + decimal_text(n as nat),
    decreases n,
{
    let ghost before = out@;
    if n >= 10 {
        push_decimal(out, n / 10);
    }
    out.append(digit(n % 10));
    assert(out@ =~= before + decimal_text(n as nat));
}

/// Well-formed bytes are read as the text whose encoding they are, and
/// ill-formed ones as `String::from_utf8_lossy` reads them.
pub proof fn text_is_what_bytes_encode(b: Seq<u8>)
    ensures
        vstd::utf8::valid_utf8(b) ==> vstd::utf8::encode_utf8(text_of(b)) == b,
        !vstd::utf8::valid_utf8(b) ==> text_of(b) == utf8_lossy(b),
{
    broadcast use vstd::utf8::decode_utf8_encode_utf8;

}

/// The number that decimal digits say.
pub open spec fn decimal_value(s: Seq<char>) -> int
    decreases s.len(),
{
    if s.len() == 0 {
        0
    } else {
        10 * decimal_value(s.drop_last()) + (s.last() as int - '0' as int)
    }
}

/// A number in decimal says that number, in digits, without leading zeros.
pub proof fn decimals_say_their_number(n: nat)
    ensures
        decimal_value(decimal_text(n)) == n,
        decimal_text(n).len() > 0,
        forall|i: int|
            0 <= i < decimal_text(n).len() ==> '0' <= #[trigger] decimal_text(n)[i] <= '9',
        decimal_text(n).len() > 1 ==> decimal_text(n)[0] != '0',
    decreases n,
{
    if n < 10 {
        reveal_with_fuel(decimal_value, 2);
        assert(decimal_text(n).drop_last() =~= Seq::empty());
    } else {
        let head = decimal_text(n / 10);
        decimals_say_their_number(n / 10);
        assert(decimal_text(n).drop_last() =~= head);
        if head.len() == 1 {
            reveal_with_fuel(decimal_value, 2);
            assert(head.drop_last() =~= Seq::empty());
            assert(decimal_value(head) == head[0] as int - '0' as int);
        }
    }
}

} // verus!
