//! Text helpers shared by the decoders and the report: equality of string
//! slices, decimal numerals in both directions, and quoting.

use vstd::prelude::*;
use vstd::string::StringSliceAdditionalSpecFns;
use vstd::utf8::encode_utf8_decode_utf8;

verus! {

/// Whether two string slices hold the same characters.
pub fn str_eq(a: &str, b: &str) -> (r: bool)
    ensures
        r == (a@ == b@),
{
    let x = a.as_bytes();
    let y = b.as_bytes();
    proof {
        encode_utf8_decode_utf8(a@);
        encode_utf8_decode_utf8(b@);
    }
    if x.len() != y.len() {
        return false;
    }
    let mut i: usize = 0;
    while i < x.len()
        invariant
            i <= x.len(),
            x.len() == y.len(),
            x@ == a.spec_bytes(),
            y@ == b.spec_bytes(),
            forall|k: int| 0 <= k < i ==> x@[k] == y@[k],
        decreases x.len() - i,
    {
        if x[i] != y[i] {
            return false;
        }
        i += 1;
    }
    assert(x@ =~= y@);
    true
}

/// Whether `c` is one of the ten ASCII digits.
pub open spec fn is_digit(c: char) -> bool {
    '0' <= c <= '9'
}

/// The value of an ASCII digit.
pub open spec fn digit_value(c: char) -> nat {
    (c as u32 - '0' as u32) as nat
}

/// The digit that stands for `d`, for `d` below ten.
pub open spec fn digit_char(d: nat) -> char {
    if d == 0 {
        '0'
    } else if d == 1 {
        '1'
    } else if d == 2 {
        '2'
    } else if d == 3 {
        '3'
    } else if d == 4 {
        '4'
    } else if d == 5 {
        '5'
    } else if d == 6 {
        '6'
    } else if d == 7 {
        '7'
    } else if d == 8 {
        '8'
    } else {
        '9'
    }
}

/// Whether `s` is a non-empty run of ASCII digits.
pub open spec fn is_numeral(s: Seq<char>) -> bool {
    s.len() > 0 && forall|i: int| 0 <= i < s.len() ==> is_digit(#[trigger] s[i])
}

/// The number that a run of digits denotes in base ten; the empty run denotes zero.
pub open spec fn numeral_value(s: Seq<char>) -> nat
    decreases s.len(),
{
    if s.len() == 0 {
        0
    } else {
        numeral_value(s.drop_last()) * 10 + digit_value(s.last())
    }
}

/// The shortest base-ten numeral of `n`.
pub open spec fn decimal(n: nat) -> Seq<char>
    decreases n,
{
    if n < 10 {
        seq![digit_char(n)]
    } else {
        decimal(n / 10).push(digit_char(n % 10))
    }
}

/// What `parse_u32` makes of a text: the number it denotes, if it is a
/// numeral whose value fits in 32 bits.
pub open spec fn u32_of_numeral(s: Seq<char>) -> Option<u32> {
    if is_numeral(s) && numeral_value(s) <= u32::MAX {
        Some(numeral_value(s) as u32)
    } else {
        None
    }
}

/// A numeral never denotes less than one of its prefixes.
pub proof fn lemma_numeral_value_prefix(s: Seq<char>, k: int)
    requires
        0 <= k <= s.len(),
    ensures
        numeral_value(s.take(k)) <= numeral_value(s),
    decreases s.len(),
{
    if k == s.len() {
        assert(s.take(k) =~= s);
    } else {
        lemma_numeral_value_prefix(s.drop_last(), k);
        assert(s.drop_last().take(k) =~= s.take(k));
    }
}

/// Reads a base-ten numeral. Signs, spaces, digits of other scripts and values
/// above `u32::MAX` are refused.
pub fn parse_u32(s: &str) -> (r: Option<u32>)
    ensures
        r == u32_of_numeral(s@),
{
    let mut value: u32 = 0;
    let mut empty = true;
    for c in it: s.chars()
        invariant
            it.seq() == s@,
            empty == (it.index() == 0),
            forall|k: int| 0 <= k < it.index() ==> is_digit(#[trigger] s@[k]),
            value == numeral_value(s@.take(it.index() as int)),
    {
        let ghost i = it.index() as int;
        proof {
            assert(s@.take(i + 1).drop_last() =~= s@.take(i));
            lemma_numeral_value_prefix(s@, i + 1);
        }
        if !(c >= '0' && c <= '9') {
            return None;
        }
        let d: u32 = c as u32 - '0' as u32;
        if value > (u32::MAX - d) / 10 {
            return None;
        }
        value = value * 10 + d;
        empty = false;
    }
    assert(s@.take(s@.len() as int) =~= s@);
    if empty {
        None
    } else {
        Some(value)
    }
}

/// The one-character text of a digit.
fn digit_str(d: usize) -> (r: &'static str)
    requires
        d < 10,
    ensures
        r@ == seq![digit_char(d as nat)],
{
    proof {
        reveal_strlit("0");
        reveal_strlit("1");
        reveal_strlit("2");
        reveal_strlit("3");
        reveal_strlit("4");
        reveal_strlit("5");
        reveal_strlit("6");
        reveal_strlit("7");
        reveal_strlit("8");
        reveal_strlit("9");
    }
    let r = if d == 0 {
        "0"
    } else if d == 1 {
        "1"
    } else if d == 2 {
        "2"
    } else if d == 3 {
        "3"
    } else if d == 4 {
        "4"
    } else if d == 5 {
        "5"
    } else if d == 6 {
        "6"
    } else if d == 7 {
        "7"
    } else if d == 8 {
        "8"
    } else {
        "9"
    };
    r
}

/// Writes a count in base ten, without sign or leading zeros.
pub fn decimal_string(n: usize) -> (r: String)
    ensures
        r@ == decimal(n as nat),
    decreases n,
{
    if n < 10 {
        String::from_str(digit_str(n))
    } else {
        let mut r = decimal_string(n / 10);
        r.append(digit_str(n % 10));
        r
    }
}

/// The text that the `{:?}` format prints for a string: the string between
/// double quotes, with the quotes, backslashes and unprintable characters in
/// it escaped as the standard library's `Debug` for `str` escapes them.
pub uninterp spec fn debug_quoted(s: Seq<char>) -> Seq<char>;

/// Formats `s` with `{:?}` (`<str as core::fmt::Debug>::fmt`). The contract
/// only gives that output its name, `debug_quoted`: the escaping rules are
/// the standard library's and are not restated here.
#[verifier::external_body]
pub(crate) fn quoted(s: &str) -> (r: String)
    ensures
        r@ == debug_quoted(s@),
{
    format!("{:?}", s)
}

} // verus!
