//! `AsciiStr`: a borrowed ASCII string slice whose comparisons follow a comparator.
use core::marker::PhantomData;

use vstd::prelude::*;
use vstd::std_specs::convert::TryFromSpecImpl;
use vstd::string::StringSliceAdditionalSpecFns;

use crate::ascii::{
    all_ascii, ascii_bytes_as_str, ascii_chars, bytes_are_ascii, debug_text, render_debug,
};
use crate::ascii_string::AsciiString;
use crate::comparator::CaseSensitive;
use crate::error::FromAsciiError;

verus! {

/// ASCII string slice with pluggable case sensitivity.
///
/// This is the borrowed counterpart to `AsciiString`: it holds bytes that are all ASCII.
/// Comparisons follow the comparator `C`: an `AsciiStr<CaseInsensitive>` holding `"hello"`
/// compares equal to `"HELLO"`. Use `as_str` when exact equality is required.
pub struct AsciiStr<'a, C = CaseSensitive> {
    marker: PhantomData<C>,
    bytes: &'a [u8],
}

impl<'a, C> View for AsciiStr<'a, C> {
    type V = Seq<u8>;

    /// The bytes of the string.
    closed spec fn view(&self) -> Seq<u8> {
        self.bytes@
    }
}

impl<'a, C> Clone for AsciiStr<'a, C> {
    fn clone(&self) -> (r: Self)
        ensures
            r@ == self@,
    {
        *self
    }
}

impl<'a, C> Copy for AsciiStr<'a, C> {

}

impl<'a, C> AsciiStr<'a, C> {
    /// The bytes of every `AsciiStr` are ASCII.
    #[verifier::type_invariant]
    spec fn ascii_invariant(self) -> bool {
        all_ascii(self.bytes@)
    }

    /// Converts a slice of bytes to an `AsciiStr`, validating that the bytes are ASCII.
    pub fn from_ascii(bytes: &'a [u8]) -> (r: Result<Self, FromAsciiError>)
        ensures
            r is Ok <==> all_ascii(bytes@),
            r matches Ok(s) ==> s@ == bytes@,
            r matches Err(e) ==> e@ == bytes@,
    {
        if bytes_are_ascii(bytes) {
            Ok(AsciiStr { marker: PhantomData, bytes })
        } else {
            Err(FromAsciiError::new(vstd::slice::slice_to_vec(bytes)))
        }
    }

    /// Converts a slice of bytes that are known to be ASCII to an `AsciiStr`, without checking
    /// them again.
    pub fn from_ascii_unchecked(bytes: &'a [u8]) -> (r: Self)
        requires
            all_ascii(bytes@),
        ensures
            r@ == bytes@,
    {
        AsciiStr { marker: PhantomData, bytes }
    }

    /// Returns this `AsciiStr` as a byte slice; its bytes are all ASCII.
    pub fn as_bytes(&self) -> (r: &'a [u8])
        ensures
            r@ == self@,
            all_ascii(r@),
    {
        proof {
            use_type_invariant(self);
        }
        self.bytes
    }

    /// Returns this `AsciiStr` as a string slice: one character per byte.
    pub fn as_str(&self) -> (r: &'a str)
        ensures
            r@ == ascii_chars(self@),
    {
        proof {
            use_type_invariant(self);
        }
        ascii_bytes_as_str(self.bytes)
    }

    /// Returns `true` if this `AsciiStr` has a length of zero, and `false` otherwise.
    pub fn is_empty(&self) -> (r: bool)
        ensures
            r == (self@.len() == 0),
    {
        self.bytes.len() == 0
    }

    /// Returns the length of this `AsciiStr` in bytes.
    pub fn len(&self) -> (r: usize)
        ensures
            r == self@.len(),
    {
        self.bytes.len()
    }

    /// The part of this string from byte `start` up to, not including, byte `end`.
    pub fn index(&self, start: usize, end: usize) -> (r: AsciiStr<'a, C>)
        requires
            start <= end <= self@.len(),
        ensures
            r@ == self@.subrange(start as int, end as int),
    {
        proof {
            use_type_invariant(self);
        }
        let sub = vstd::slice::slice_subrange(self.bytes, start, end);
        AsciiStr { marker: PhantomData, bytes: sub }
    }

    /// An owned copy of this string.
    pub fn to_owned(&self) -> (r: AsciiString<C>)
        ensures
            r@ == self@,
    {
        AsciiString::from_ascii_vec_unchecked(vstd::slice::slice_to_vec(self.as_bytes()))
    }

    /// The debug form of this string: its text between double quotes, with quotes,
    /// backslashes and control bytes escaped.
    pub fn debug_string(&self) -> (r: String)
        ensures
            r@ == debug_text(self@),
    {
        proof {
            use_type_invariant(self);
        }
        let text = render_debug(self.bytes);
        ascii_bytes_as_str(text.as_slice()).to_owned()
    }

    /// The text of this string as an owned `String`: one character per byte.
    pub fn to_string(&self) -> (r: String)
        ensures
            r@ == ascii_chars(self@),
    {
        self.as_str().to_owned()
    }
}

/// The bytes of a byte slice.
pub open spec fn bytes_of(s: &[u8]) -> Seq<u8> {
    s@
}

/// The characters of a string slice.
pub open spec fn text_of(s: &str) -> Seq<char> {
    s@
}

impl<'a, C> AsRef<[u8]> for AsciiStr<'a, C> {
    fn as_ref(&self) -> (r: &[u8])
        ensures
            bytes_of(r) == self@,
    {
        self.as_bytes()
    }
}

impl<'a, C> AsRef<str> for AsciiStr<'a, C> {
    fn as_ref(&self) -> (r: &str)
        ensures
            text_of(r) == ascii_chars(self@),
    {
        self.as_str()
    }
}

impl<'a, C> Default for AsciiStr<'a, C> {
    fn default() -> (r: Self)
        ensures
            r@ == Seq::<u8>::empty(),
    {
        let empty: &'a [u8] = &[];
        AsciiStr { marker: PhantomData, bytes: empty }
    }
}

impl<'a, C> TryFrom<&'a [u8]> for AsciiStr<'a, C> {
    type Error = FromAsciiError;

    fn try_from(value: &'a [u8]) -> (r: Result<Self, FromAsciiError>)
        ensures
            r is Ok <==> all_ascii(value@),
            r matches Ok(s) ==> s@ == value@,
            r matches Err(e) ==> e@ == value@,
    {
        AsciiStr::from_ascii(value)
    }
}

/// What `try_from` returns is stated on `try_from` itself: no spec function can build the
/// error's vector.
impl<'a, C> TryFromSpecImpl<&'a [u8]> for AsciiStr<'a, C> {
    open spec fn obeys_try_from_spec() -> bool {
        false
    }

    open spec fn try_from_spec(v: &'a [u8]) -> Result<Self, FromAsciiError> {
        choose|r: Result<Self, FromAsciiError>| converted_from(v@, r)
    }
}

impl<'a, C> TryFrom<&'a str> for AsciiStr<'a, C> {
    type Error = FromAsciiError;

    fn try_from(value: &'a str) -> (r: Result<Self, FromAsciiError>)
        ensures
            r is Ok <==> all_ascii(value.spec_bytes()),
            r matches Ok(s) ==> s@ == value.spec_bytes(),
            r matches Err(e) ==> e@ == value.spec_bytes(),
    {
        AsciiStr::from_ascii(value.as_bytes())
    }
}

/// What `try_from` returns is stated on `try_from` itself: no spec function can build the
/// error's vector.
impl<'a, C> TryFromSpecImpl<&'a str> for AsciiStr<'a, C> {
    open spec fn obeys_try_from_spec() -> bool {
        false
    }

    open spec fn try_from_spec(v: &'a str) -> Result<Self, FromAsciiError> {
        choose|r: Result<Self, FromAsciiError>| converted_from(v.spec_bytes(), r)
    }
}

/// `r` is what converting `bytes` gives: the string when every byte is ASCII, otherwise an
/// error holding the bytes.
pub open spec fn converted_from<'a, C>(bytes: Seq<u8>, r: Result<AsciiStr<'a, C>, FromAsciiError>) -> bool {
    match r {
        Ok(s) => all_ascii(bytes) && s@ == bytes,
        Err(e) => !all_ascii(bytes) && e@ == bytes,
    }
}

} // verus!
