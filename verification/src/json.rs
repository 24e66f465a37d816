//! JSON string literals, as `serde_json` writes them.

use vstd::prelude::*;

verus! {

/// The lower-case hexadecimal digit for `n < 16`.
pub open spec fn hex_digit(n: nat) -> char {
    if n < 10 {
        (('0' as u32) + n) as char
    } else {
        (('a' as u32) + n - 10) as char
    }
}

/// Characters that `serde_json` escapes inside a string literal: the quote,
/// the backslash, and the control characters below U+0020.
pub open spec fn needs_json_escape(c: char) -> bool {
    c == '"' || c == '\\' || (c as u32) < 0x20
}

/// How one character is written inside a JSON string literal: the quote and
/// the backslash behind a backslash, the five short escapes for backspace,
/// tab, line feed, form feed and carriage return, `\u00xx` (lower-case hex)
/// for the other control characters, and every other character unchanged.
pub open spec fn json_escape(c: char) -> Seq<char> {
    if c == '"' {
        seq!['\\', '"']
    } else if c == '\\' {
        seq!['\\', '\\']
    } else if (c as u32) == 0x08 {
        seq!['\\', 'b']
    } else if c == '\t' {
        seq!['\\', 't']
    } else if c == '\n' {
        seq!['\\', 'n']
    } else if (c as u32) == 0x0c {
        seq!['\\', 'f']
    } else if c == '\r' {
        seq!['\\', 'r']
    } else if (c as u32) < 0x20 {
        seq!['\\', 'u', '0', '0', hex_digit((c as u32 / 16) as nat), hex_digit((c as u32 % 16) as nat)]
    } else {
        seq![c]
    }
}

/// The escaped contents of a JSON string literal for `s`.
pub open spec fn json_escaped(s: Seq<char>) -> Seq<char>
    decreases s.len(),
{
    if s.len() == 0 {
        seq![]
    } else {
        json_escaped(s.drop_last()) + json_escape(s.last())
    }
}

/// The JSON string literal for `s`: its escaped contents between quotes.
pub open spec fn json_quoted(s: Seq<char>) -> Seq<char> {
    seq!['"'] + json_escaped(s) + seq!['"']
}

/// Text with no character to escape is written unchanged between quotes.
pub proof fn lemma_plain_text_quoted(s: Seq<char>)
    requires
        forall|i: int| 0 <= i < s.len() ==> !needs_json_escape(#[trigger] s[i]),
    ensures
        json_escaped(s) == s,
        json_quoted(s) == seq!['"'] + s + seq!['"'],
    decreases s.len(),
{
    if s.len() > 0 {
        let t = s.drop_last();
        assert forall|i: int| 0 <= i < t.len() implies !needs_json_escape(#[trigger] t[i]) by {
            assert(t[i] == s[i]);
        }
        lemma_plain_text_quoted(t);
        assert(!needs_json_escape(s[s.len() - 1]));
        assert(json_escape(s.last()) == seq![s.last()]);
        assert(t.push(s.last()) =~= s);
        assert(t + seq![s.last()] =~= s);
    }
}

/// Trusted: `serde_json::to_string` on a `&str`.  Its source
/// (`format_escaped_str`, the `ESCAPE` table and `write_char_escape` with its
/// lower-case `HEX_DIGITS`) writes the string between quotes with each
/// character as `json_escape` gives it.  Serializing a `str` into a `Vec<u8>`
/// cannot fail; the error arm only converts the outside error type.
#[verifier::external_body]
pub fn json_quote(s: &str) -> (r: String)
    ensures
        r@ == json_quoted(s@),
{
    match serde_json::to_string(s) {
        Ok(j) => j,
        Err(_) => String::new(),
    }
}

} // verus!
