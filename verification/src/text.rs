//! Text the writer emits: decimal numbers, the slug line's join, WinAnsi transcoding for the slug
//! font, PDF literal-string escaping and PDF name encoding.

use vstd::prelude::*;
use vstd::string::StringSliceAdditionalSpecFns;

verus! {

/// `String::push`: appends one character.
#[verifier::external_body]
pub(crate) fn push_char(s: &mut String, c: char)
    ensures
        final(s)@ == old(s)@.push(c),
{
    s.push(c);
}

/// The ASCII digit character for `d` (0-9).
pub open spec fn digit_char(d: nat) -> char {
    (48 + d) as char
}

/// Decimal notation of `n`, most significant digit first, no leading zeros (`"0"` for zero).
pub open spec fn decimal_spec(n: nat) -> Seq<char>
    decreases n,
{
    if n < 10 {
        seq![digit_char(n)]
    } else {
        decimal_spec(n / 10).push(digit_char(n % 10))
    }
}

fn push_decimal(s: &mut String, n: usize)
    ensures
        final(s)@ == old(s)@ + decimal_spec(n as nat),
    decreases n,
{
    if n >= 10 {
        push_decimal(s, n / 10);
    }
    let d = (n % 10) as u8;
    push_char(s, (48u8 + d) as char);
    proof {
        assert(((48u8 + d) as u8) as char == digit_char((n % 10) as nat));
    }
}

/// Decimal notation of `n`.
pub fn decimal(n: usize) -> (s: String)
    ensures
        s@ == decimal_spec(n as nat),
{
    let mut s = String::new();
    push_decimal(&mut s, n);
    assert(s@ =~= decimal_spec(n as nat));
    s
}

} // verus!

verus! {

/// The WinAnsi (CP1252) byte the slug font encodes `c` as: ASCII and Latin-1 (0xA0-0xFF) map to
/// themselves, nine common punctuation code points to their CP1252 slots, anything else to `?`.
pub open spec fn winansi_byte(c: char) -> u8 {
    let u = c as u32;
    if (0x20 <= u && u <= 0x7E) || (0xA0 <= u && u <= 0xFF) {
        u as u8
    } else if u == 0x20AC {
        0x80
    } else if u == 0x2026 {
        0x85
    } else if u == 0x2018 {
        0x91
    } else if u == 0x2019 {
        0x92
    } else if u == 0x201C {
        0x93
    } else if u == 0x201D {
        0x94
    } else if u == 0x2022 {
        0x95
    } else if u == 0x2013 {
        0x96
    } else if u == 0x2014 {
        0x97
    } else {
        0x3F
    }
}

/// Transcode a Unicode string to single-byte WinAnsi (CP1252) code units, the encoding declared on
/// the slug font, one byte per character, so each byte renders as exactly one intended glyph.
pub fn to_winansi(s: &str) -> (out: Vec<u8>)
    ensures
        out@ == s@.map_values(|c: char| winansi_byte(c)),
{
    let mut out: Vec<u8> = Vec::new();
    for c in it: s.chars()
        invariant
            out@ == it.seq().take(it.index() as int).map_values(|c: char| winansi_byte(c)),
    {
        let u = c as u32;
        let b: u8 = if (0x20 <= u && u <= 0x7E) || (0xA0 <= u && u <= 0xFF) {
            u as u8
        } else if u == 0x20AC {
            0x80
        } else if u == 0x2026 {
            0x85
        } else if u == 0x2018 {
            0x91
        } else if u == 0x2019 {
            0x92
        } else if u == 0x201C {
            0x93
        } else if u == 0x201D {
            0x94
        } else if u == 0x2022 {
            0x95
        } else if u == 0x2013 {
            0x96
        } else if u == 0x2014 {
            0x97
        } else {
            0x3F
        };
        out.push(b);
    }
    out
}

} // verus!

verus! {

/// The octal digit character for `d` (0-7).
pub open spec fn octal_char(d: int) -> char {
    (48 + d) as char
}

/// How one WinAnsi byte appears inside a PDF literal string `( ... )`: backslash and parentheses
/// are escaped, printable ASCII is verbatim, anything else is a three-digit octal escape `\ooo`.
pub open spec fn escape_byte(b: u8) -> Seq<char> {
    if b == 0x5C {
        seq!['\\', '\\']
    } else if b == 0x28 {
        seq!['\\', '(']
    } else if b == 0x29 {
        seq!['\\', ')']
    } else if 0x20 <= b <= 0x7E {
        seq![b as char]
    } else {
        seq!['\\', octal_char(b as int / 64), octal_char((b as int / 8) % 8), octal_char(b as int % 8)]
    }
}

/// The escaped literal-string body of a byte sequence.
pub open spec fn escape_spec(bytes: Seq<u8>) -> Seq<char>
    decreases bytes.len(),
{
    if bytes.len() == 0 {
        Seq::empty()
    } else {
        escape_spec(bytes.drop_last()) + escape_byte(bytes.last())
    }
}

/// Escape WinAnsi bytes for a PDF literal `( ... )`: backslash and parentheses escaped, printable
/// ASCII verbatim, everything else (including 0x80-0xFF) as octal `\ooo`, so the literal stays
/// clean ASCII.
pub fn escape_pdf_bytes(bytes: &[u8]) -> (out: String)
    ensures
        out@ == escape_spec(bytes@),
{
    let mut out = String::new();
    let mut i: usize = 0;
    while i < bytes.len()
        invariant
            i <= bytes.len(),
            out@ == escape_spec(bytes@.take(i as int)),
        decreases bytes.len() - i,
    {
        let b = bytes[i];
        let ghost before = out@;
        if b == 0x5C {
            push_char(&mut out, '\\');
            push_char(&mut out, '\\');
        } else if b == 0x28 {
            push_char(&mut out, '\\');
            push_char(&mut out, '(');
        } else if b == 0x29 {
            push_char(&mut out, '\\');
            push_char(&mut out, ')');
        } else if 0x20 <= b && b <= 0x7E {
            push_char(&mut out, b as char);
        } else {
            push_char(&mut out, '\\');
            push_char(&mut out, (48u8 + b / 64) as char);
            push_char(&mut out, (48u8 + (b / 8) % 8) as char);
            push_char(&mut out, (48u8 + b % 8) as char);
        }
        proof {
            assert(out@ =~= before + escape_byte(b));
            assert(bytes@.take(i + 1).drop_last() =~= bytes@.take(i as int));
        }
        i = i + 1;
    }
    assert(bytes@.take(bytes.len() as int) =~= bytes@);
    out
}

/// Every character of an escaped literal body is printable ASCII (32-126).
pub proof fn escape_is_printable_ascii(bytes: Seq<u8>)
    ensures
        forall|i: int| 0 <= i < escape_spec(bytes).len() ==> 32 <= #[trigger] escape_spec(bytes)[i] as int <= 126,
    decreases bytes.len(),
{
    if bytes.len() > 0 {
        escape_is_printable_ascii(bytes.drop_last());
        let prev = escape_spec(bytes.drop_last());
        let tail = escape_byte(bytes.last());
        assert forall|i: int| 0 <= i < tail.len() implies 32 <= #[trigger] tail[i] as int <= 126 by {}
        assert forall|i: int| 0 <= i < escape_spec(bytes).len() implies 32 <= #[trigger] escape_spec(bytes)[i] as int <= 126 by {
            if i < prev.len() {
                assert(escape_spec(bytes)[i] == prev[i]);
            } else {
                assert(escape_spec(bytes)[i] == tail[i - prev.len()]);
            }
        }
    }
}

/// The uppercase hexadecimal digit character for `d` (0-15).
pub open spec fn hex_char(d: int) -> char {
    if d < 10 { (48 + d) as char } else { (55 + d) as char }
}

/// A byte that stands for itself in a PDF name: ASCII letters and digits, `-`, `_` and `.`.
pub open spec fn is_name_regular(b: u8) -> bool {
    (0x30 <= b <= 0x39) || (0x41 <= b <= 0x5A) || (0x61 <= b <= 0x7A) || b == 0x2D || b == 0x5F || b == 0x2E
}

/// How one byte appears in a PDF name body: regular bytes verbatim, any other as `#XX`.
pub open spec fn name_byte(b: u8) -> Seq<char> {
    if is_name_regular(b) {
        seq![b as char]
    } else {
        seq!['#', hex_char(b as int / 16), hex_char(b as int % 16)]
    }
}

/// The name body of a byte sequence.
pub open spec fn name_spec(bytes: Seq<u8>) -> Seq<char>
    decreases bytes.len(),
{
    if bytes.len() == 0 {
        Seq::empty()
    } else {
        name_spec(bytes.drop_last()) + name_byte(bytes.last())
    }
}

/// A character that may stand in an encoded PDF name body: a regular byte's character, `#`, or an
/// uppercase hex digit.
pub open spec fn is_name_char(c: char) -> bool {
    is_name_regular(c as u8) && (c as int) < 128 || c == '#'
}

/// An encoded name body holds no whitespace or delimiter: only letters, digits, `-`, `_`, `.` and
/// `#` escapes, so any colorant name becomes a single valid name token.
pub proof fn name_is_token_safe(bytes: Seq<u8>)
    ensures
        forall|i: int| 0 <= i < name_spec(bytes).len() ==> is_name_char(#[trigger] name_spec(bytes)[i]),
    decreases bytes.len(),
{
    if bytes.len() > 0 {
        name_is_token_safe(bytes.drop_last());
        let prev = name_spec(bytes.drop_last());
        let tail = name_byte(bytes.last());
        assert forall|i: int| 0 <= i < tail.len() implies is_name_char(#[trigger] tail[i]) by {
            if !is_name_regular(bytes.last()) && i > 0 {
                let d = if i == 1 { bytes.last() as int / 16 } else { bytes.last() as int % 16 };
                assert(0 <= d < 16);
                assert(hex_char(d) == tail[i]);
            }
        }
        assert forall|i: int| 0 <= i < name_spec(bytes).len() implies is_name_char(#[trigger] name_spec(bytes)[i]) by {
            if i < prev.len() {
                assert(name_spec(bytes)[i] == prev[i]);
            } else {
                assert(name_spec(bytes)[i] == tail[i - prev.len()]);
            }
        }
    }
}

fn hex_digit(d: u8) -> (c: char)
    requires
        d < 16,
    ensures
        c == hex_char(d as int),
{
    if d < 10 {
        (48u8 + d) as char
    } else {
        (55u8 + d) as char
    }
}

/// Encode an arbitrary string as the body of a PDF name: its UTF-8 bytes, regular ones passing
/// through and every other as `#XX` (uppercase hex), so colorant names with spaces or specials
/// stay valid name tokens.
pub fn pdf_name_escape(name: &str) -> (out: String)
    ensures
        out@ == name_spec(name.spec_bytes()),
{
    let bytes = name.as_bytes();
    let mut out = String::new();
    let mut i: usize = 0;
    while i < bytes.len()
        invariant
            bytes@ == name.spec_bytes(),
            i <= bytes.len(),
            out@ == name_spec(bytes@.take(i as int)),
        decreases bytes.len() - i,
    {
        let b = bytes[i];
        let ghost before = out@;
        let regular = (0x30 <= b && b <= 0x39) || (0x41 <= b && b <= 0x5A) || (0x61 <= b && b <= 0x7A)
            || b == 0x2D || b == 0x5F || b == 0x2E;
        if regular {
            push_char(&mut out, b as char);
        } else {
            push_char(&mut out, '#');
            push_char(&mut out, hex_digit(b / 16));
            push_char(&mut out, hex_digit(b % 16));
        }
        proof {
            assert(out@ =~= before + name_byte(b));
            assert(bytes@.take(i + 1).drop_last() =~= bytes@.take(i as int));
        }
        i = i + 1;
    }
    assert(bytes@.take(bytes.len() as int) =~= bytes@);
    out
}

} // verus!
