//! Byte-level helpers: the big-endian length field and byte-string comparison.

use vstd::prelude::*;
use vstd::string::*;

verus! {

/// The two big-endian bytes of `n`.
///
/// Calls `zerocopy::byteorder::big_endian::U16::new(n).to_bytes()`; trusted to give the
/// high byte of `n` first and its low byte second.
#[verifier::external_body]
pub(crate) fn u16_to_be_bytes(n: u16) -> (b: [u8; 2])
    ensures
        b@[0] == n / 256,
        b@[1] == n % 256,
{
    zerocopy::byteorder::big_endian::U16::new(n).to_bytes()
}

/// The number whose big-endian bytes are `b`.
///
/// Calls `zerocopy::byteorder::big_endian::U16::from_bytes(b).get()`; trusted to read
/// `b[0]` as the high byte and `b[1]` as the low byte.
#[verifier::external_body]
pub(crate) fn u16_from_be_bytes(b: [u8; 2]) -> (n: u16)
    ensures
        n == b@[0] * 256 + b@[1],
{
    zerocopy::byteorder::big_endian::U16::from_bytes(b).get()
}

/// Whether `a` and `b` hold the same bytes.
pub fn bytes_eq(a: &[u8], b: &[u8]) -> (r: bool)
    ensures
        r == (a@ == b@),
{
    if a.len() != b.len() {
        return false;
    }
    let mut i: usize = 0;
    while i < a.len()
        invariant
            i <= a@.len(),
            a@.len() == b@.len(),
            forall|j: int| 0 <= j < i ==> a@[j] == b@[j],
        decreases a@.len() - i,
    {
        if a[i] != b[i] {
            return false;
        }
        i = i + 1;
    }
    assert(a@ =~= b@);
    true
}

/// The text that `String::from_utf8_lossy` makes of `bytes`: the UTF-8 decoding, with each
/// invalid sequence replaced by U+FFFD.
pub uninterp spec fn utf8_lossy(bytes: Seq<u8>) -> Seq<char>;

/// The text of `bytes`, invalid UTF-8 sequences replaced.
///
/// Calls `String::from_utf8_lossy(bytes)` and takes the result as an owned `String`; trusted
/// to depend on `bytes` alone and, for valid UTF-8, to be its decoding.
#[verifier::external_body]
pub(crate) fn lossy_text(bytes: &[u8]) -> (s: String)
    ensures
        s@ == utf8_lossy(bytes@),
        vstd::utf8::valid_utf8(bytes@) ==> s@ == vstd::utf8::decode_utf8(bytes@),
{
    String::from_utf8_lossy(bytes).into_owned()
}

/// The text of `bytes`, where they are valid UTF-8.
///
/// Calls `String::from_utf8(bytes)`; trusted to succeed exactly on valid UTF-8 and then to
/// hold its decoding.
#[verifier::external_body]
pub(crate) fn utf8_text(bytes: Vec<u8>) -> (s: Option<String>)
    ensures
        match s {
            Some(s) => vstd::utf8::valid_utf8(bytes@) && s@ == vstd::utf8::decode_utf8(bytes@),
            None => !vstd::utf8::valid_utf8(bytes@),
        },
{
    String::from_utf8(bytes).ok()
}

/// The decimal digit `d` (below 10).
pub open spec fn digit_char(d: int) -> char {
    (48 + d) as char
}

/// The decimal notation of `b`, without leading zeros.
pub open spec fn decimal(b: u8) -> Seq<char> {
    if b < 10 {
        seq![digit_char(b as int)]
    } else if b < 100 {
        seq![digit_char((b / 10) as int), digit_char((b % 10) as int)]
    } else {
        seq![digit_char((b / 100) as int), digit_char(((b / 10) % 10) as int), digit_char((b % 10) as int)]
    }
}

/// The decimal notations of `bytes`, separated by a comma and a space.
pub open spec fn decimal_list(bytes: Seq<u8>) -> Seq<char>
    decreases bytes.len(),
{
    if bytes.len() == 0 {
        Seq::empty()
    } else if bytes.len() == 1 {
        decimal(bytes[0])
    } else {
        decimal_list(bytes.drop_last()) + ", "@ + decimal(bytes.last())
    }
}

/// How Rust's `Debug` shows a list of bytes: `[1, 2, 3]`.
pub open spec fn bytes_debug(bytes: Seq<u8>) -> Seq<char> {
    "["@ + decimal_list(bytes) + "]"@
}

fn digit_str(d: u8) -> (s: &'static str)
    requires
        d < 10,
    ensures
        s@ == seq![digit_char(d as int)],
{
    match d {
        0 => {
            proof {
                reveal_strlit("0");
            }
            "0"
        },
        1 => {
            proof {
                reveal_strlit("1");
            }
            "1"
        },
        2 => {
            proof {
                reveal_strlit("2");
            }
            "2"
        },
        3 => {
            proof {
                reveal_strlit("3");
            }
            "3"
        },
        4 => {
            proof {
                reveal_strlit("4");
            }
            "4"
        },
        5 => {
            proof {
                reveal_strlit("5");
            }
            "5"
        },
        6 => {
            proof {
                reveal_strlit("6");
            }
            "6"
        },
        7 => {
            proof {
                reveal_strlit("7");
            }
            "7"
        },
        8 => {
            proof {
                reveal_strlit("8");
            }
            "8"
        },
        9 => {
            proof {
                reveal_strlit("9");
            }
            "9"
        },
        _ => {
            proof {
                reveal_strlit("9");
            }
            "9"
        },
    }
}

fn append_decimal(out: &mut String, b: u8)
    ensures
        final(out)@ == old(out)@ + decimal(b),
{
    if b >= 100 {
        out.append(digit_str(b / 100));
    }
    if b >= 10 {
        out.append(digit_str((b / 10) % 10));
    }
    out.append(digit_str(b % 10));
    assert(final(out)@ =~= old(out)@ + decimal(b));
}

/// `bytes` shown as Rust's `Debug` shows a list of bytes: `[1, 2, 3]`.
pub fn debug_bytes(bytes: &[u8]) -> (s: String)
    ensures
        s@ == bytes_debug(bytes@),
{
    let mut out = String::new();
    out.append("[");
    let mut i: usize = 0;
    while i < bytes.len()
        invariant
            i <= bytes@.len(),
            out@ == "["@ + decimal_list(bytes@.take(i as int)),
        decreases bytes@.len() - i,
    {
        proof {
            assert(bytes@.take(i + 1).drop_last() =~= bytes@.take(i as int));
        }
        if i > 0 {
            out.append(", ");
        }
        append_decimal(&mut out, bytes[i]);
        i = i + 1;
        proof {
            assert(out@ =~= "["@ + decimal_list(bytes@.take(i as int)));
        }
    }
    out.append("]");
    assert(bytes@.take(bytes@.len() as int) =~= bytes@);
    out
}

} // verus!
