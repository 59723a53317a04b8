//! Text renderings used in messages: decimal and hexadecimal numbers,
//! quoted strings, lossy UTF-8, durations and operating-system errors.

use vstd::prelude::*;
use vstd::string::StringExecFns;

verus! {

/// The ASCII digits of `n` in base ten, most significant first, without
/// leading zeros.
pub open spec fn decimal_digits(n: nat) -> Seq<u8>
    decreases n,
{
    if n < 10 {
        seq![(48 + n) as u8]
    } else {
        decimal_digits(n / 10).push((48 + n % 10) as u8)
    }
}

/// The decimal text of `n`.
pub open spec fn decimal_text(n: nat) -> Seq<char> {
    decimal_digits(n).map_values(|d: u8| d as char)
}

fn digit_str(d: u64) -> (r: &'static str)
    requires
        d < 10,
    ensures
        r@ == seq![(48 + d) as u8 as char],
{
    proof {
        reveal_strlit("0");
        reveal_strlit("1");
        reveal_strlit("2");
        reveal_strlit("3");
        reveal_strlit("4");
        reveal_strlit("5");
        reveal_strlit("6");
        reveal_strlit("7");
        reveal_strlit("8");
        reveal_strlit("9");
    }
    match d {
        0 => "0",
        1 => "1",
        2 => "2",
        3 => "3",
        4 => "4",
        5 => "5",
        6 => "6",
        7 => "7",
        8 => "8",
        _ => "9",
    }
}

/// Appends the decimal text of `n`.
pub fn push_decimal(text: &mut String, n: u64)
    ensures
        final(text)@ == old(text)@ + decimal_text(n as nat),
    decreases n,
{
    if n >= 10 {
        push_decimal(text, n / 10);
    }
    text.append(digit_str(n % 10));
    proof {
        if n >= 10 {
            assert(decimal_digits(n as nat) == decimal_digits((n / 10) as nat).push((48 + n % 10) as u8));
            assert(decimal_text(n as nat) =~= decimal_text((n / 10) as nat) + seq![(48 + n % 10) as u8 as char]);
        } else {
            assert(decimal_text(n as nat) =~= seq![(48 + n % 10) as u8 as char]);
        }
    }
}

/// Appends the ASCII decimal digits of `n`.
pub fn push_decimal_bytes(bytes: &mut Vec<u8>, n: u64)
    ensures
        final(bytes)@ == old(bytes)@ + decimal_digits(n as nat),
    decreases n,
{
    if n >= 10 {
        push_decimal_bytes(bytes, n / 10);
    }
    bytes.push((48 + n % 10) as u8);
    proof {
        assert(bytes@ =~= old(bytes)@ + decimal_digits(n as nat));
    }
}

/// The lowercase hexadecimal digit of `d`.
pub open spec fn hex_char(d: nat) -> char {
    if d < 10 {
        (48 + d) as char
    } else {
        (87 + d) as char
    }
}

/// The `count` lowest hexadecimal digits of `n`, most significant first.
pub open spec fn hex_digits(n: nat, count: nat) -> Seq<char>
    decreases count,
{
    if count == 0 {
        Seq::empty()
    } else {
        hex_digits(n / 16, (count - 1) as nat).push(hex_char(n % 16))
    }
}

fn hex_str(d: u32) -> (r: &'static str)
    requires
        d < 16,
    ensures
        r@ == seq![hex_char(d as nat)],
{
    proof {
        reveal_strlit("0");
        reveal_strlit("1");
        reveal_strlit("2");
        reveal_strlit("3");
        reveal_strlit("4");
        reveal_strlit("5");
        reveal_strlit("6");
        reveal_strlit("7");
        reveal_strlit("8");
        reveal_strlit("9");
        reveal_strlit("a");
        reveal_strlit("b");
        reveal_strlit("c");
        reveal_strlit("d");
        reveal_strlit("e");
        reveal_strlit("f");
    }
    match d {
        0 => "0",
        1 => "1",
        2 => "2",
        3 => "3",
        4 => "4",
        5 => "5",
        6 => "6",
        7 => "7",
        8 => "8",
        9 => "9",
        10 => "a",
        11 => "b",
        12 => "c",
        13 => "d",
        14 => "e",
        _ => "f",
    }
}

/// Appends the `count` lowest hexadecimal digits of `n`, zero-padded.
pub fn push_hex(text: &mut String, n: u32, count: u32)
    ensures
        final(text)@ == old(text)@ + hex_digits(n as nat, count as nat),
    decreases count,
{
    if count > 0 {
        push_hex(text, n / 16, count - 1);
        text.append(hex_str(n % 16));
        proof {
            assert(hex_digits(n as nat, count as nat) =~= hex_digits((n / 16) as nat, (count - 1) as nat).push(
                hex_char((n % 16) as nat),
            ));
        }
    } else {
        proof {
            assert(old(text)@ + hex_digits(n as nat, 0) =~= old(text)@);
        }
    }
}

/// `String::from_utf8_lossy(bytes)`: the text of `bytes`, with each invalid
/// UTF-8 sequence replaced by U+FFFD.
pub uninterp spec fn utf8_lossy_text(bytes: Seq<u8>) -> Seq<char>;

/// The `{:?}` rendering of a string: quoted, with quotes, backslashes and
/// control characters escaped.
pub uninterp spec fn debug_text(text: Seq<char>) -> Seq<char>;

/// Decodes bytes as UTF-8 with `String::from_utf8_lossy`. Its result is
/// named, and ASCII bytes come back as the same characters, as the
/// documentation of that function gives for valid UTF-8.
#[verifier::external_body]
pub(crate) fn utf8_lossy(bytes: &[u8]) -> (r: String)
    ensures
        r@ == utf8_lossy_text(bytes@),
        (forall|i: int| 0 <= i < bytes@.len() ==> #[trigger] bytes@[i] < 128) ==> r@ == bytes@.map_values(
            |b: u8| b as char,
        ),
{
    String::from_utf8_lossy(bytes).into_owned()
}

/// Renders a string as `format!("{text:?}")` does. Its result is named,
/// and nothing more is stated of it.
#[verifier::external_body]
pub(crate) fn debug_quoted(text: &str) -> (r: String)
    ensures
        r@ == debug_text(text@),
{
    format!("{text:?}")
}

/// `format!("{:?}", Duration::from_nanos(ns))`: a duration as Rust's
/// `Debug` shows it, such as `1s` or `1.5ms`.
pub uninterp spec fn duration_debug_text(ns: u64) -> Seq<char>;

/// Renders `ns` nanoseconds as `Duration`'s `Debug` does. Its result is
/// named, and nothing more is stated of it.
#[verifier::external_body]
pub(crate) fn duration_debug(ns: u64) -> (r: String)
    ensures
        r@ == duration_debug_text(ns),
{
    format!("{:?}", std::time::Duration::from_nanos(ns))
}

/// The `Display` text of an I/O error. It comes from the operating system
/// for OS errors, so nothing is stated of it.
#[verifier::external_body]
pub(crate) fn io_error_text(error: &std::io::Error) -> String {
    error.to_string()
}

} // verus!
