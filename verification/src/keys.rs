//! Keys as the input host module reports them, and their decoding.
use vstd::prelude::*;

verus! {

/// A key as decoded from the host's key code.
#[derive(Debug, Clone, Copy, PartialEq, Eq, Structural)]
pub enum Key {
    /// A Unicode scalar value, control characters such as Enter, Tab,
    /// Backspace and Esc included.
    Unicode(char),
    ArrowUp,
    ArrowDown,
    ArrowLeft,
    ArrowRight,
    Home,
    End,
    Delete,
    PageUp,
    PageDown,
    /// A key the host has no distinct code for (code 0, or a code that is
    /// neither a named key nor a Unicode scalar value).
    Other,
}

/// `v` is a Unicode scalar value: a code point that is not a surrogate.
pub open spec fn is_scalar_value(v: int) -> bool {
    (0 <= v <= 0xD7FF) || (0xE000 <= v <= 0x10FFFF)
}

/// The key that the host's code `n` stands for: -1 to -9 are the named
/// keys, 0 is `Other`, a positive Unicode scalar value is that character,
/// and anything else is `Other`.
pub open spec fn spec_decode_key(n: i32) -> Key {
    if n == -1 {
        Key::ArrowUp
    } else if n == -2 {
        Key::ArrowDown
    } else if n == -3 {
        Key::ArrowLeft
    } else if n == -4 {
        Key::ArrowRight
    } else if n == -5 {
        Key::Home
    } else if n == -6 {
        Key::End
    } else if n == -7 {
        Key::Delete
    } else if n == -8 {
        Key::PageUp
    } else if n == -9 {
        Key::PageDown
    } else if n > 0 && is_scalar_value(n as int) {
        Key::Unicode((n as u32) as char)
    } else {
        Key::Other
    }
}

/// `char::from_u32`, which by its documentation returns `Some` exactly
/// when `v` is a Unicode scalar value (not a surrogate, at most 0x10FFFF),
/// holding the character whose code is `v`.
#[verifier::external_body]
fn char_from_u32(v: u32) -> (c: Option<char>)
    ensures
        c is Some <==> is_scalar_value(v as int),
        c matches Some(ch) ==> ch as u32 == v,
{
    char::from_u32(v)
}

/// Decodes the host's key code.
pub fn decode_key(n: i32) -> (k: Key)
    ensures
        k == spec_decode_key(n),
{
    if n == -1 {
        Key::ArrowUp
    } else if n == -2 {
        Key::ArrowDown
    } else if n == -3 {
        Key::ArrowLeft
    } else if n == -4 {
        Key::ArrowRight
    } else if n == -5 {
        Key::Home
    } else if n == -6 {
        Key::End
    } else if n == -7 {
        Key::Delete
    } else if n == -8 {
        Key::PageUp
    } else if n == -9 {
        Key::PageDown
    } else if n <= 0 {
        Key::Other
    } else {
        match char_from_u32(n as u32) {
            Some(c) => {
                proof {
                    vstd::utf8::char_u32_cast(c, n as u32);
                }
                Key::Unicode(c)
            },
            None => Key::Other,
        }
    }
}

/// The host's codes: -1 to -9 are Up, Down, Left, Right, Home, End,
/// Delete, Page Up and Page Down; every positive code that is a Unicode
/// scalar value (up to 0xD7FF, or 0xE000 to 0x10FFFF), control characters
/// included, is that character; every other code (0, other negatives,
/// surrogates, beyond 0x10FFFF) is `Other`.
pub proof fn key_codes(n: i32)
    ensures
        n == -1 ==> spec_decode_key(n) == Key::ArrowUp,
        n == -2 ==> spec_decode_key(n) == Key::ArrowDown,
        n == -3 ==> spec_decode_key(n) == Key::ArrowLeft,
        n == -4 ==> spec_decode_key(n) == Key::ArrowRight,
        n == -5 ==> spec_decode_key(n) == Key::Home,
        n == -6 ==> spec_decode_key(n) == Key::End,
        n == -7 ==> spec_decode_key(n) == Key::Delete,
        n == -8 ==> spec_decode_key(n) == Key::PageUp,
        n == -9 ==> spec_decode_key(n) == Key::PageDown,
        (0 < n <= 0xD7FF || 0xE000 <= n <= 0x10FFFF) ==> (spec_decode_key(n) matches Key::Unicode(
            c,
        ) && c as u32 == n),
        (n == 0 || n < -9 || 0xD800 <= n <= 0xDFFF || n > 0x10FFFF) ==> spec_decode_key(n)
            == Key::Other,
{
    if 0 < n && is_scalar_value(n as int) {
        vstd::utf8::char_is_scalar((n as u32) as char);
        let c = (n as u32) as char;
        assert(c as u32 == n) by {
            lemma_u32_char_roundtrip(n as u32);
        }
    }
}

proof fn lemma_u32_char_roundtrip(v: u32)
    requires
        is_scalar_value(v as int),
    ensures
        (v as char) as u32 == v,
{
}

} // verus!
