//! What is typed at the console.
use vstd::prelude::*;

use crate::text::{concat, str_eq};

verus! {

/// Whether the text of a switch says that it is on.
pub open spec fn is_on(text: Seq<char>) -> bool {
    text == "1"@ || text == "true"@ || text == "TRUE"@ || text == "yes"@ || text == "YES"@ || text
        == "on"@ || text == "ON"@
}

/// Whether a switch is on. One that is not given is off.
pub fn switch_is_on(value: Option<&str>) -> (r: bool)
    ensures
        r == (value is Some && is_on(value->0@)),
{
    match value {
        None => false,
        Some(text) => {
            str_eq(text, "1") || str_eq(text, "true") || str_eq(text, "TRUE") || str_eq(text, "yes")
                || str_eq(text, "YES") || str_eq(text, "on") || str_eq(text, "ON")
        },
    }
}

/// The byte that a program reads for one that was typed: the key that ends a
/// line gives a line feed.
pub fn typed_byte(byte: u8) -> (r: u8)
    ensures
        r == (if byte == 0x0d {
            0x0a
        } else {
            byte
        }),
{
    if byte == 0x0d {
        0x0a
    } else {
        byte
    }
}

/// A digit of a number in base sixteen.
pub open spec fn hex_digit(d: int) -> char {
    "0123456789abcdef"@[d]
}

fn hex_char(d: u8) -> (c: char)
    requires
        d < 16,
    ensures
        c == hex_digit(d as int),
{
    proof {
        reveal_strlit("0123456789abcdef");
    }
    "0123456789abcdef".get_char(d as usize)
}

/// The line that tells of a byte that was typed.
pub fn trace_line(byte: u8) -> (r: String)
    ensures
        r@ == "[stdin-trace] got 0x"@.push(hex_digit(byte as int / 16)).push(
            hex_digit(byte as int % 16),
        ).push(
            '\n',
        ),
{
    let mut line = concat("[stdin-trace] got 0x", "");
    assert("[stdin-trace] got 0x"@ + ""@ =~= "[stdin-trace] got 0x"@) by {
        reveal_strlit("");
    }
    line.push(hex_char(byte / 16));
    line.push(hex_char(byte % 16));
    line.push('\n');
    line
}

} // verus!
