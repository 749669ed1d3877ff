//! Strings: comparison, prefixes, digits, and decoding of untrusted UTF-8.

use crate::bytes::same_bytes;
use vstd::prelude::*;
use vstd::string::{StrSliceExecFns, StringExecFns};
use vstd::utf8::{decode_utf8, encode_utf8, encode_utf8_decode_utf8, encode_utf8_valid_utf8, valid_utf8};

verus! {

/// What `String::from_utf8_lossy` makes of bytes that are not valid UTF-8.
pub uninterp spec fn utf8_with_replacements(bytes: Seq<u8>) -> Seq<char>;

/// The text that `bytes` stand for: decoded where they are valid UTF-8, otherwise with the
/// invalid parts replaced.
pub open spec fn lossy_text(bytes: Seq<u8>) -> Seq<char> {
    if valid_utf8(bytes) {
        decode_utf8(bytes)
    } else {
        utf8_with_replacements(bytes)
    }
}

/// Calls `String::from_utf8_lossy`. Valid UTF-8 is decoded. Any other input gives a text that
/// depends on the bytes alone and holds at least one U+FFFD, which stands for what was invalid.
#[verifier::external_body]
pub(crate) fn from_utf8_lossy(bytes: &[u8]) -> (s: String)
    ensures
        valid_utf8(bytes@) ==> s@ == decode_utf8(bytes@),
        !valid_utf8(bytes@) ==> s@ == utf8_with_replacements(bytes@),
        !valid_utf8(bytes@) ==> s@.contains('\u{FFFD}'),
{
    String::from_utf8_lossy(bytes).into_owned()
}

/// The UTF-8 encoding of a text decodes to that text.
pub proof fn lemma_text_survives(s: Seq<char>)
    ensures
        valid_utf8(encode_utf8(s)),
        lossy_text(encode_utf8(s)) == s,
{
    encode_utf8_valid_utf8(s);
    encode_utf8_decode_utf8(s);
}

/// Compares two texts.
pub fn same_text(a: &str, b: &str) -> (same: bool)
    ensures
        same == (a@ == b@),
{
    proof {
        lemma_text_survives(a@);
        lemma_text_survives(b@);
    }
    same_bytes(a.as_bytes(), b.as_bytes())
}

/// An optional text with its characters in view.
pub open spec fn text_view(s: Option<String>) -> Option<Seq<char>> {
    match s {
        Some(t) => Some(t@),
        None => None,
    }
}

/// Whether a text holds a character.
pub fn contains_char(s: &str, c: char) -> (found: bool)
    ensures
        found == s@.contains(c),
{
    for x in iter: s.chars()
        invariant
            iter.seq() == s@,
            forall|i: int| 0 <= i < iter.index() ==> s@[i] != c,
    {
        if x == c {
            assert(s@[iter.index()] == c);
            return true;
        }
    }
    false
}

/// Whether `bytes`, read as text, are `expected`, a text without replacement characters.
pub fn text_is(bytes: &[u8], expected: &str) -> (same: bool)
    requires
        !expected@.contains('\u{FFFD}'),
    ensures
        same == (bytes@ == encode_utf8(expected@)),
{
    let text = from_utf8_lossy(bytes);
    proof {
        lemma_text_survives(expected@);
        if valid_utf8(bytes@) {
            vstd::utf8::decode_utf8_encode_utf8(bytes@);
        }
    }
    same_text(text.as_str(), expected)
}

pub open spec fn has_prefix(s: Seq<char>, prefix: Seq<char>) -> bool {
    prefix.len() <= s.len() && s.take(prefix.len() as int) == prefix
}

/// What follows `prefix` in `s`, if `s` starts with it.
pub fn strip_prefix(s: &str, prefix: &str) -> (rest: Option<String>)
    ensures
        rest is Some <==> has_prefix(s@, prefix@),
        rest matches Some(r) ==> r@ == s@.skip(prefix@.len() as int),
{
    let n: usize = prefix.unicode_len();
    let len: usize = s.unicode_len();
    if n <= len && same_text(s.substring_char(0, n), prefix) {
        proof {
            assert(s@.subrange(0, n as int) =~= s@.take(n as int));
            assert(s@.subrange(n as int, len as int) =~= s@.skip(n as int));
        }
        Some(s.substring_char(n, len).to_owned())
    } else {
        proof {
            if n <= len {
                assert(s@.subrange(0, n as int) =~= s@.take(n as int));
            }
        }
        None
    }
}

/// `a` followed by `b`.
pub fn join(a: &str, b: &str) -> (s: String)
    ensures
        s@ == a@ + b@,
{
    a.to_owned().concat(b)
}

/// `a`, `b` and `c`, one after the other.
pub fn join3(a: &str, b: &str, c: &str) -> (s: String)
    ensures
        s@ == a@ + b@ + c@,
{
    a.to_owned().concat(b).concat(c)
}

/// The digits up to base sixteen, upper case.
pub open spec fn digit_chars() -> Seq<char> {
    seq!['0', '1', '2', '3', '4', '5', '6', '7', '8', '9', 'A', 'B', 'C', 'D', 'E', 'F']
}

/// `n` in the given base, padded on the left with zeros to at least `width` digits.
pub open spec fn padded_digits(n: nat, base: nat, width: nat) -> Seq<char>
    decreases n, width,
    when base >= 2
{
    if n == 0 && width == 0 {
        Seq::empty()
    } else {
        proof {
            assert(n / base <= n && (n > 0 ==> n / base < n)) by (nonlinear_arith)
                requires
                    base >= 2,
            ;
        }
        padded_digits(
            n / base,
            base,
            if width == 0 {
                0
            } else {
                (width - 1) as nat
            },
        ).push(digit_chars()[(n % base) as int])
    }
}

fn digit_text(d: u64) -> (s: &'static str)
    requires
        d < 16,
    ensures
        s@ == seq![digit_chars()[d as int]],
{
    proof {
        reveal_strlit("0");
        reveal_strlit("1");
        reveal_strlit("2");
        reveal_strlit("3");
        reveal_strlit("4");
        reveal_strlit("5");
        reveal_strlit("6");
        reveal_strlit("7");
        reveal_strlit("8");
        reveal_strlit("9");
        reveal_strlit("A");
        reveal_strlit("B");
        reveal_strlit("C");
        reveal_strlit("D");
        reveal_strlit("E");
        reveal_strlit("F");
    }
    match d {
        0 => "0",
        1 => "1",
        2 => "2",
        3 => "3",
        4 => "4",
        5 => "5",
        6 => "6",
        7 => "7",
        8 => "8",
        9 => "9",
        10 => "A",
        11 => "B",
        12 => "C",
        13 => "D",
        14 => "E",
        _ => "F",
    }
}

/// `n` in the given base, padded on the left with zeros to at least `width` digits.
pub fn format_digits(n: u64, base: u64, width: usize) -> (s: String)
    requires
        2 <= base <= 16,
    ensures
        s@ == padded_digits(n as nat, base as nat, width as nat),
    decreases n, width,
{
    if n == 0 && width == 0 {
        String::new()
    } else {
        let w: usize = if width == 0 {
            0
        } else {
            width - 1
        };
        proof {
            assert(n as int / base as int <= n as int && (n > 0 ==> n as int / (base as int) < n))
                by (nonlinear_arith)
                requires
                    base >= 2,
                    n >= 0,
            ;
        }
        let mut s = format_digits(n / base, base, w);
        s.append(digit_text(n % base));
        proof {
            let d = padded_digits((n / base) as nat, base as nat, w as nat);
            let c = digit_chars()[(n % base) as int];
            assert(d + seq![c] =~= d.push(c));
        }
        s
    }
}

pub proof fn lemma_padded_digits_len(n: nat, base: nat, width: nat)
    requires
        base >= 2,
        n < vstd::arithmetic::power::pow(base as int, width),
    ensures
        padded_digits(n, base, width).len() == width,
    decreases width,
{
    vstd::arithmetic::power::lemma_pow0(base as int);
    if width > 0 {
        reveal(vstd::arithmetic::power::pow);
        let w = (width - 1) as nat;
        let p = vstd::arithmetic::power::pow(base as int, w);
        assert(n / base < p) by (nonlinear_arith)
            requires
                n < base * p,
                base >= 2,
        ;
        lemma_padded_digits_len(n / base, base, w);
    }
}

} // verus!
