//! The error returned when bytes or characters that are not ASCII are offered.
use vstd::prelude::*;

use crate::ascii::{all_ascii, ascii_bytes_as_str, ascii_chars};

verus! {

/// A possible error value when converting bytes to an ASCII string: it keeps the bytes
/// that were refused.
#[derive(Debug)]
pub struct FromAsciiError {
    bytes: Vec<u8>,
}

impl View for FromAsciiError {
    type V = Seq<u8>;

    /// The refused bytes.
    closed spec fn view(&self) -> Seq<u8> {
        self.bytes@
    }
}

/// The decimal digits of a byte, as ASCII bytes, without leading zeros.
pub open spec fn decimal_digits(b: u8) -> Seq<u8> {
    if b < 10 {
        seq![(48 + b) as u8]
    } else if b < 100 {
        seq![(48 + b / 10) as u8, (48 + b % 10) as u8]
    } else {
        seq![(48 + b / 100) as u8, (48 + (b / 10) % 10) as u8, (48 + b % 10) as u8]
    }
}

/// The bytes written out in decimal and separated by `", "`.
pub open spec fn byte_list(bytes: Seq<u8>) -> Seq<u8>
    decreases bytes.len(),
{
    if bytes.len() == 0 {
        seq![]
    } else if bytes.len() == 1 {
        decimal_digits(bytes[0])
    } else {
        byte_list(bytes.drop_last()) + seq![44u8, 32u8] + decimal_digits(bytes.last())
    }
}

/// The message that describes an error holding `bytes`:
/// `Invalid ASCII bytes: [b0, b1, ...]`.
pub open spec fn error_message(bytes: Seq<u8>) -> Seq<char> {
    "Invalid ASCII bytes: ["@ + ascii_chars(byte_list(bytes)) + "]"@
}

/// Appends the decimal digits of `b`.
fn push_decimal(out: &mut Vec<u8>, b: u8)
    ensures
        final(out)@ == old(out)@ + decimal_digits(b),
{
    if b >= 100 {
        out.push(48 + b / 100);
    }
    if b >= 10 {
        out.push(48 + (b / 10) % 10);
    }
    out.push(48 + b % 10);
    assert(final(out)@ =~= old(out)@ + decimal_digits(b));
}

/// Writes the list of bytes in decimal, separated by `", "`.
fn render_byte_list(bytes: &[u8]) -> (r: Vec<u8>)
    ensures
        r@ == byte_list(bytes@),
        all_ascii(r@),
{
    let mut out: Vec<u8> = Vec::new();
    let mut i: usize = 0;
    while i < bytes.len()
        invariant
            i <= bytes@.len(),
            out@ == byte_list(bytes@.take(i as int)),
            all_ascii(out@),
        decreases bytes@.len() - i,
    {
        if i > 0 {
            out.push(44);
            out.push(32);
        }
        push_decimal(&mut out, bytes[i]);
        proof {
            let t = bytes@.take(i + 1);
            assert(t.drop_last() =~= bytes@.take(i as int));
            if i == 0 {
                assert(bytes@.take(0) =~= Seq::<u8>::empty());
                assert(out@ =~= byte_list(t));
            } else {
                assert(out@ =~= byte_list(t));
            }
        }
        i = i + 1;
    }
    assert(bytes@.take(i as int) =~= bytes@);
    out
}

impl FromAsciiError {
    /// An error that refuses `bytes`.
    pub(crate) fn new(bytes: Vec<u8>) -> (r: Self)
        ensures
            r@ == bytes@,
    {
        FromAsciiError { bytes }
    }

    /// The refused bytes.
    pub fn bytes(&self) -> (r: &[u8])
        ensures
            r@ == self@,
    {
        self.bytes.as_slice()
    }

    /// The message that describes this error: `Invalid ASCII bytes: [b0, b1, ...]`, each
    /// refused byte in decimal.
    pub fn to_string(&self) -> (r: String)
        ensures
            r@ == error_message(self@),
    {
        let list = render_byte_list(self.bytes.as_slice());
        let mut s = String::from_str("Invalid ASCII bytes: [");
        s.append(ascii_bytes_as_str(list.as_slice()));
        s.append("]");
        s
    }
}

} // verus!
