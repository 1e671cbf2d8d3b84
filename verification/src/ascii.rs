//! Byte-level facts about ASCII: validity, case folding, and the text that ASCII bytes spell.
use vstd::prelude::*;

verus! {

/// A byte is ASCII when its high bit is clear.
pub open spec fn is_ascii_byte(b: u8) -> bool {
    b < 128
}

/// Every byte of `s` is ASCII.
pub open spec fn all_ascii(s: Seq<u8>) -> bool {
    forall|i: int| 0 <= i < s.len() ==> is_ascii_byte(#[trigger] s[i])
}

/// The ASCII lowercase of a byte: `A..=Z` become `a..=z`, every other byte stays.
pub open spec fn lower(b: u8) -> u8 {
    if 65 <= b <= 90 {
        (b + 32) as u8
    } else {
        b
    }
}

/// The byte-wise ASCII lowercase of a byte string.
pub open spec fn lower_seq(s: Seq<u8>) -> Seq<u8> {
    Seq::new(s.len(), |i: int| lower(s[i]))
}

/// The characters that a byte string spells when each byte is read as one character.
pub open spec fn ascii_chars(s: Seq<u8>) -> Seq<char> {
    Seq::new(s.len(), |i: int| s[i] as char)
}

/// Returns whether every byte of `bytes` is ASCII.
pub fn bytes_are_ascii(bytes: &[u8]) -> (r: bool)
    ensures
        r == all_ascii(bytes@),
{
    let mut i: usize = 0;
    while i < bytes.len()
        invariant
            i <= bytes@.len(),
            forall|j: int| 0 <= j < i ==> is_ascii_byte(#[trigger] bytes@[j]),
        decreases bytes@.len() - i,
    {
        if bytes[i] >= 128 {
            return false;
        }
        i = i + 1;
    }
    true
}

/// The ASCII lowercase of one byte.
pub fn to_ascii_lowercase(b: u8) -> (r: u8)
    ensures
        r == lower(b),
        65 <= b <= 90 ==> r == b + 32,
        !(65 <= b <= 90) ==> r == b,
{
    if 65 <= b && b <= 90 {
        b + 32
    } else {
        b
    }
}

/// Lowercasing changes only the uppercase letters `A..=Z`, each to the lowercase letter 32
/// places later; every other byte stays as it is.
pub proof fn lemma_lower_folds_only_uppercase_letters(b: u8)
    ensures
        65 <= b <= 90 ==> lower(b) == b + 32,
        !(65 <= b <= 90) ==> lower(b) == b,
{
}

/// Two bytes have the same lowercase exactly when they are equal or are the two cases of one
/// letter.
pub proof fn lemma_same_lowercase_iff_same_up_to_case(x: u8, y: u8)
    ensures
        (lower(x) == lower(y)) <==> (x == y || (65 <= x <= 90 && y == x + 32) || (65 <= y <= 90
            && x == y + 32)),
{
}

/// Lowercasing keeps a byte ASCII exactly when it was ASCII.
pub proof fn lemma_lower_keeps_ascii(b: u8)
    ensures
        is_ascii_byte(lower(b)) == is_ascii_byte(b),
        !is_ascii_byte(b) ==> lower(b) == b,
{
}

/// The bytes of the UTF-8 encoding of `ch`.
pub fn char_utf8_bytes(ch: char) -> (r: Vec<u8>)
    ensures
        r@ == vstd::utf8::encode_scalar(ch as u32),
{
    let s: u32 = ch as u32;
    proof {
        vstd::utf8::char_is_scalar(ch);
    }
    let mut out: Vec<u8> = Vec::new();
    if s <= 0x7F {
        out.push((s & 0x7F) as u8);
    } else if s <= 0x7FF {
        out.push(0xC0 | ((s >> 6) & 0x1F) as u8);
        out.push(0x80 | (s & 0x3F) as u8);
    } else if s <= 0xFFFF {
        out.push(0xE0 | ((s >> 12) & 0x0F) as u8);
        out.push(0x80 | ((s >> 6) & 0x3F) as u8);
        out.push(0x80 | (s & 0x3F) as u8);
    } else {
        out.push(0xF0 | ((s >> 18) & 0x7) as u8);
        out.push(0x80 | ((s >> 12) & 0x3F) as u8);
        out.push(0x80 | ((s >> 6) & 0x3F) as u8);
        out.push(0x80 | (s & 0x3F) as u8);
    }
    proof {
        assert(out@ =~= vstd::utf8::encode_scalar(s));
    }
    out
}

/// A lowercase hexadecimal digit.
pub open spec fn hex_digit(d: u8) -> char {
    if d < 10 {
        (48 + d) as char
    } else {
        (87 + d) as char
    }
}

/// How the debug form of a string writes the ASCII byte `b`: quotes, backslashes, NUL, tab,
/// line feed and carriage return are escaped with a backslash, other control bytes are
/// written as `\u{..}` in lowercase hexadecimal, and printable bytes stand for themselves.
pub open spec fn debug_escape(b: u8) -> Seq<char> {
    if b == 0 {
        seq!['\\', '0']
    } else if b == 9 {
        seq!['\\', 't']
    } else if b == 10 {
        seq!['\\', 'n']
    } else if b == 13 {
        seq!['\\', 'r']
    } else if b == 34 {
        seq!['\\', '"']
    } else if b == 92 {
        seq!['\\', '\\']
    } else if 32 <= b <= 126 {
        seq![b as char]
    } else if b < 16 {
        seq!['\\', 'u', '{', hex_digit(b), '}']
    } else {
        seq!['\\', 'u', '{', hex_digit(b / 16), hex_digit(b % 16), '}']
    }
}

/// The escaped bytes of `s`, one after another.
pub open spec fn debug_escaped(s: Seq<u8>) -> Seq<char>
    decreases s.len(),
{
    if s.len() == 0 {
        seq![]
    } else {
        debug_escaped(s.drop_last()) + debug_escape(s.last())
    }
}

/// The debug form of an ASCII string: its escaped bytes between double quotes.
pub open spec fn debug_text(s: Seq<u8>) -> Seq<char> {
    seq!['"'] + debug_escaped(s) + seq!['"']
}

/// The byte of a lowercase hexadecimal digit.
fn hex_byte(d: u8) -> (r: u8)
    requires
        d < 16,
    ensures
        r as char == hex_digit(d),
        is_ascii_byte(r),
{
    if d < 10 {
        48 + d
    } else {
        87 + d
    }
}

/// Appends the escaped form of one ASCII byte.
fn push_debug_escape(out: &mut Vec<u8>, b: u8)
    requires
        is_ascii_byte(b),
        all_ascii(old(out)@),
    ensures
        ascii_chars(final(out)@) == ascii_chars(old(out)@) + debug_escape(b),
        all_ascii(final(out)@),
{
    let ghost start = out@;
    if b == 0 || b == 9 || b == 10 || b == 13 || b == 34 || b == 92 {
        out.push(92);
        let c: u8 = if b == 0 {
            48
        } else if b == 9 {
            116
        } else if b == 10 {
            110
        } else if b == 13 {
            114
        } else {
            b
        };
        out.push(c);
    } else if 32 <= b && b <= 126 {
        out.push(b);
    } else {
        out.push(92);
        out.push(117);
        out.push(123);
        if b >= 16 {
            out.push(hex_byte(b / 16));
        }
        out.push(hex_byte(b % 16));
        out.push(125);
    }
    assert(ascii_chars(out@) =~= ascii_chars(start) + debug_escape(b));
}

/// Writes the debug form of an ASCII string: its escaped bytes between double quotes.
pub fn render_debug(bytes: &[u8]) -> (r: Vec<u8>)
    requires
        all_ascii(bytes@),
    ensures
        ascii_chars(r@) == debug_text(bytes@),
        all_ascii(r@),
{
    let mut out: Vec<u8> = Vec::new();
    out.push(34);
    let mut i: usize = 0;
    while i < bytes.len()
        invariant
            i <= bytes@.len(),
            all_ascii(bytes@),
            all_ascii(out@),
            ascii_chars(out@) == seq!['"'] + debug_escaped(bytes@.take(i as int)),
        decreases bytes@.len() - i,
    {
        push_debug_escape(&mut out, bytes[i]);
        proof {
            assert(bytes@.take(i + 1).drop_last() =~= bytes@.take(i as int));
        }
        i = i + 1;
    }
    let ghost before = out@;
    out.push(34);
    proof {
        assert(bytes@.take(i as int) =~= bytes@);
        assert(ascii_chars(out@) =~= ascii_chars(before) + seq!['"']);
    }
    out
}

/// `core::str::from_utf8` on ASCII bytes. ASCII is a subset of UTF-8, so the call succeeds,
/// and each byte spells the character with the same code.
#[verifier::external_body]
pub(crate) fn ascii_bytes_as_str<'a>(bytes: &'a [u8]) -> (r: &'a str)
    requires
        all_ascii(bytes@),
    ensures
        r@ == ascii_chars(bytes@),
{
    match core::str::from_utf8(bytes) {
        Ok(s) => s,
        Err(_) => "",
    }
}

} // verus!
