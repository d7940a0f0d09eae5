//! Text helpers shared by the calendar filter, the store and the request
//! handling: prefix tests, UTF-8 decoding and lower-case hexadecimal.
use vstd::prelude::*;
use vstd::string::*;
use vstd::utf8::*;

verus! {

/// Whether `s` begins with `prefix`, compared character by character.
pub open spec fn has_prefix(s: Seq<char>, prefix: Seq<char>) -> bool {
    prefix.len() <= s.len() && s.subrange(0, prefix.len() as int) == prefix
}

/// Whether `line` begins with `prefix` (the behaviour of `str::starts_with`).
pub fn starts_with(line: &str, prefix: &str) -> (b: bool)
    ensures
        b == has_prefix(line@, prefix@),
{
    let n = prefix.unicode_len();
    let m = line.unicode_len();
    if n > m {
        return false;
    }
    let mut i: usize = 0;
    while i < n
        invariant
            n == prefix@.len(),
            m == line@.len(),
            n <= m,
            i <= n,
            forall|j: int| 0 <= j < i ==> line@[j] == prefix@[j],
        decreases n - i,
    {
        if line.get_char(i) != prefix.get_char(i) {
            assert(line@.subrange(0, n as int)[i as int] == line@[i as int]);
            return false;
        }
        i += 1;
    }
    assert(line@.subrange(0, n as int) =~= prefix@);
    true
}

/// Decodes bytes with `String::from_utf8`. The standard library documents that it
/// succeeds exactly when the bytes are valid UTF-8 and that the string then holds
/// the characters those bytes encode; the contract states this with vstd's UTF-8
/// model.
#[verifier::external_body]
pub(crate) fn utf8_to_string(bytes: Vec<u8>) -> (r: Option<String>)
    ensures
        r is Some <==> valid_utf8(bytes@),
        r matches Some(s) ==> s@ == decode_utf8(bytes@),
{
    String::from_utf8(bytes).ok()
}

/// The text that a byte sequence holds when it is valid UTF-8; the empty text
/// otherwise.
pub open spec fn text_or_empty(bytes: Seq<u8>) -> Seq<char> {
    if valid_utf8(bytes) {
        decode_utf8(bytes)
    } else {
        Seq::empty()
    }
}

/// Decodes a response body: its text when it is valid UTF-8, else the empty string
/// (`String::from_utf8(..).unwrap_or_default()`).
pub fn body_text(bytes: Vec<u8>) -> (text: String)
    ensures
        text@ == text_or_empty(bytes@),
{
    match utf8_to_string(bytes) {
        Some(s) => s,
        None => String::new(),
    }
}

/// The lower-case hexadecimal digit of `d`.
pub open spec fn hex_char(d: nat) -> char {
    if d < 10 {
        (d + 48) as char
    } else {
        (d + 87) as char
    }
}

/// The value of a lower-case hexadecimal digit.
pub open spec fn hex_char_value(c: char) -> nat {
    if '0' <= c <= '9' {
        (c as int - 48) as nat
    } else {
        (c as int - 87) as nat
    }
}

/// The lower-case hexadecimal notation of `n`, without leading zeros
/// (what `format!("{:x}", n)` writes).
pub open spec fn hex_digits(n: nat) -> Seq<char>
    decreases n,
{
    if n < 16 {
        seq![hex_char(n)]
    } else {
        hex_digits(n / 16).push(hex_char(n % 16))
    }
}

/// The number that a sequence of hexadecimal digits denotes.
pub open spec fn hex_value(s: Seq<char>) -> nat
    decreases s.len(),
{
    if s.len() == 0 {
        0
    } else {
        hex_value(s.drop_last()) * 16 + hex_char_value(s.last())
    }
}

/// Reading back the hexadecimal notation of `n` gives `n`; the notation is never
/// empty.
pub proof fn law_hex_digits_read_back(n: nat)
    ensures
        hex_value(hex_digits(n)) == n,
        hex_digits(n).len() > 0,
    decreases n,
{
    if n < 16 {
        let s = hex_digits(n);
        assert(s.drop_last() =~= Seq::<char>::empty());
        assert(hex_value(s.drop_last()) == 0);
        assert(hex_char_value(hex_char(n)) == n);
        assert(s.last() == hex_char(n));
    } else {
        law_hex_digits_read_back(n / 16);
        let s = hex_digits(n);
        assert(s == hex_digits(n / 16).push(hex_char(n % 16)));
        assert(s.drop_last() =~= hex_digits(n / 16));
        assert(s.last() == hex_char(n % 16));
        assert(hex_char_value(hex_char(n % 16)) == n % 16);
        assert(hex_value(s) == hex_value(s.drop_last()) * 16 + hex_char_value(s.last()));
        assert((n / 16) * 16 + n % 16 == n) by (nonlinear_arith);
    }
}

/// Distinct numbers have distinct hexadecimal notations.
pub proof fn law_hex_digits_injective(a: nat, b: nat)
    requires
        hex_digits(a) == hex_digits(b),
    ensures
        a == b,
{
    law_hex_digits_read_back(a);
    law_hex_digits_read_back(b);
}

/// The one-character text of the hexadecimal digit `d`.
fn hex_digit_text(d: u64) -> (s: &'static str)
    requires
        d < 16,
    ensures
        s@ == seq![hex_char(d as nat)],
{
    proof {
        reveal_strlit("0");
        reveal_strlit("1");
        reveal_strlit("2");
        reveal_strlit("3");
        reveal_strlit("4");
        reveal_strlit("5");
        reveal_strlit("6");
        reveal_strlit("7");
        reveal_strlit("8");
        reveal_strlit("9");
        reveal_strlit("a");
        reveal_strlit("b");
        reveal_strlit("c");
        reveal_strlit("d");
        reveal_strlit("e");
        reveal_strlit("f");
    }
    let s = match d {
        0 => "0",
        1 => "1",
        2 => "2",
        3 => "3",
        4 => "4",
        5 => "5",
        6 => "6",
        7 => "7",
        8 => "8",
        9 => "9",
        10 => "a",
        11 => "b",
        12 => "c",
        13 => "d",
        14 => "e",
        _ => "f",
    };
    assert(s@ =~= seq![hex_char(d as nat)]);
    s
}

/// Appends the lower-case hexadecimal notation of `n` to `out`.
pub fn push_lower_hex(out: &mut String, n: u64)
    ensures
        final(out)@ == old(out)@ + hex_digits(n as nat),
    decreases n,
{
    if n >= 16 {
        push_lower_hex(out, n / 16);
    }
    out.append(hex_digit_text(n % 16));
    proof {
        if n >= 16 {
            assert(hex_digits(n as nat) == hex_digits((n / 16) as nat).push(hex_char((n % 16) as nat)));
        }
    }
}

} // verus!
