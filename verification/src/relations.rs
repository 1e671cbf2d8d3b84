//! Equality, ordering and hashing of ASCII strings, all following the comparator `C`.
//!
//! Comparisons with `str` and `String` follow the comparator too: for `CaseInsensitive`
//! they are case-insensitive, not literal string equality.
use vstd::prelude::*;
use vstd::std_specs::cmp::{PartialEqSpecImpl, PartialOrdSpecImpl};
use vstd::string::StringSliceAdditionalSpecFns;

use crate::ascii_str::AsciiStr;
use crate::ascii_string::AsciiString;
use crate::comparator::{ordering_of, Comparator, Order};
use vstd::utf8::encode_utf8;

verus! {

/// Whether the comparator `C` holds the byte strings `a` and `b` equal.
pub open spec fn equal_under<C: Comparator>(a: Seq<u8>, b: Seq<u8>) -> bool {
    C::order(a, b) == Order::Equal
}

/// Equality under any comparator is an equivalence: reflexive, symmetric and transitive.
pub proof fn lemma_equality_is_equivalence<C: Comparator>(a: Seq<u8>, b: Seq<u8>, c: Seq<u8>)
    ensures
        equal_under::<C>(a, a),
        equal_under::<C>(a, b) ==> equal_under::<C>(b, a),
        equal_under::<C>(a, b) && equal_under::<C>(b, c) ==> equal_under::<C>(a, c),
{
    C::lemma_reflexive(a);
    C::lemma_reverse(a, b);
    if equal_under::<C>(a, b) && equal_under::<C>(b, c) {
        C::lemma_transitive(a, b, c);
        C::lemma_reverse(b, c);
        C::lemma_reverse(a, c);
        C::lemma_transitive(c, b, a);
    }
}

/// Strings that compare equal give the same hash input and feed a hasher the same calls, so
/// they hash equally; this holds for `AsciiStr` and `AsciiString` alike, since both hash
/// through `hash_by`.
pub proof fn lemma_equal_strings_hash_alike<C: Comparator>(a: Seq<u8>, b: Seq<u8>)
    requires
        equal_under::<C>(a, b),
    ensures
        C::hash_input(a) == C::hash_input(b),
        C::hash_writes(a) == C::hash_writes(b),
{
    C::lemma_equal_hash_alike(a, b);
}

impl<'a, C: Comparator> AsciiStr<'a, C> {
    /// Compares two ASCII strings according to the comparator `C`.
    pub fn cmp(&self, other: &AsciiStr<'_, C>) -> (r: core::cmp::Ordering)
        ensures
            r == ordering_of(C::order(self@, other@)),
    {
        C::cmp(self.as_bytes(), other.as_bytes()).to_ordering()
    }

    /// The bytes to feed to a hasher: strings that compare equal give the same bytes.
    pub fn hash_bytes(&self) -> (r: Vec<u8>)
        ensures
            r@ == C::hash_input(self@),
    {
        C::hash_key(self.as_bytes())
    }
}

impl<C: Comparator> AsciiString<C> {
    /// Compares two ASCII strings according to the comparator `C`.
    pub fn cmp(&self, other: &AsciiString<C>) -> (r: core::cmp::Ordering)
        ensures
            r == ordering_of(C::order(self@, other@)),
    {
        C::cmp(self.as_bytes(), other.as_bytes()).to_ordering()
    }

    /// The bytes to feed to a hasher: strings that compare equal give the same bytes.
    pub fn hash_bytes(&self) -> (r: Vec<u8>)
        ensures
            r@ == C::hash_input(self@),
    {
        C::hash_key(self.as_bytes())
    }
}

impl<'a, 'b, C: Comparator> PartialEq<AsciiStr<'b, C>> for AsciiStr<'a, C> {
    fn eq(&self, other: &AsciiStr<'b, C>) -> (r: bool) {
        C::cmp(self.as_bytes(), other.as_bytes()) == Order::Equal
    }
}

impl<'a, 'b, C: Comparator> PartialEqSpecImpl<AsciiStr<'b, C>> for AsciiStr<'a, C> {
    open spec fn obeys_eq_spec() -> bool {
        true
    }

    open spec fn eq_spec(&self, other: &AsciiStr<'b, C>) -> bool {
        equal_under::<C>(self@, other@)
    }
}

impl<'a, C: Comparator> Eq for AsciiStr<'a, C> {

}

impl<'a, 'b, C: Comparator> PartialOrd<AsciiStr<'b, C>> for AsciiStr<'a, C> {
    fn partial_cmp(&self, other: &AsciiStr<'b, C>) -> (r: Option<core::cmp::Ordering>) {
        Some(C::cmp(self.as_bytes(), other.as_bytes()).to_ordering())
    }
}

impl<'a, 'b, C: Comparator> PartialOrdSpecImpl<AsciiStr<'b, C>> for AsciiStr<'a, C> {
    open spec fn obeys_partial_cmp_spec() -> bool {
        true
    }

    open spec fn partial_cmp_spec(&self, other: &AsciiStr<'b, C>) -> Option<core::cmp::Ordering> {
        Some(ordering_of(C::order(self@, other@)))
    }
}

impl<'a, C: Comparator> PartialEq<AsciiString<C>> for AsciiStr<'a, C> {
    fn eq(&self, other: &AsciiString<C>) -> (r: bool) {
        C::cmp(self.as_bytes(), other.as_bytes()) == Order::Equal
    }
}

impl<'a, C: Comparator> PartialEqSpecImpl<AsciiString<C>> for AsciiStr<'a, C> {
    open spec fn obeys_eq_spec() -> bool {
        true
    }

    open spec fn eq_spec(&self, other: &AsciiString<C>) -> bool {
        equal_under::<C>(self@, other@)
    }
}

impl<'a, C: Comparator> PartialEq<str> for AsciiStr<'a, C> {
    fn eq(&self, other: &str) -> (r: bool) {
        C::cmp(self.as_bytes(), other.as_bytes()) == Order::Equal
    }
}

impl<'a, C: Comparator> PartialEqSpecImpl<str> for AsciiStr<'a, C> {
    open spec fn obeys_eq_spec() -> bool {
        true
    }

    open spec fn eq_spec(&self, other: &str) -> bool {
        equal_under::<C>(self@, other.spec_bytes())
    }
}

impl<'a, C: Comparator> PartialEq<AsciiStr<'a, C>> for str {
    fn eq(&self, other: &AsciiStr<'a, C>) -> (r: bool) {
        C::cmp(self.as_bytes(), other.as_bytes()) == Order::Equal
    }
}

impl<'a, C: Comparator> PartialEqSpecImpl<AsciiStr<'a, C>> for str {
    open spec fn obeys_eq_spec() -> bool {
        true
    }

    open spec fn eq_spec(&self, other: &AsciiStr<'a, C>) -> bool {
        equal_under::<C>(self.spec_bytes(), other@)
    }
}

impl<'a, 'b, C: Comparator> PartialEq<&'b str> for AsciiStr<'a, C> {
    fn eq(&self, other: &&'b str) -> (r: bool) {
        C::cmp(self.as_bytes(), other.as_bytes()) == Order::Equal
    }
}

impl<'a, 'b, C: Comparator> PartialEqSpecImpl<&'b str> for AsciiStr<'a, C> {
    open spec fn obeys_eq_spec() -> bool {
        true
    }

    open spec fn eq_spec(&self, other: &&'b str) -> bool {
        equal_under::<C>(self@, (*other).spec_bytes())
    }
}

impl<'a, 'b, C: Comparator> PartialEq<AsciiStr<'a, C>> for &'b str {
    fn eq(&self, other: &AsciiStr<'a, C>) -> (r: bool) {
        C::cmp(self.as_bytes(), other.as_bytes()) == Order::Equal
    }
}

impl<'a, 'b, C: Comparator> PartialEqSpecImpl<AsciiStr<'a, C>> for &'b str {
    open spec fn obeys_eq_spec() -> bool {
        true
    }

    open spec fn eq_spec(&self, other: &AsciiStr<'a, C>) -> bool {
        equal_under::<C>((*self).spec_bytes(), other@)
    }
}

impl<'a, C: Comparator> PartialEq<String> for AsciiStr<'a, C> {
    fn eq(&self, other: &String) -> (r: bool) {
        C::cmp(self.as_bytes(), other.as_str().as_bytes()) == Order::Equal
    }
}

impl<'a, C: Comparator> PartialEqSpecImpl<String> for AsciiStr<'a, C> {
    open spec fn obeys_eq_spec() -> bool {
        true
    }

    open spec fn eq_spec(&self, other: &String) -> bool {
        equal_under::<C>(self@, encode_utf8(other@))
    }
}

impl<'a, C: Comparator> PartialEq<AsciiStr<'a, C>> for String {
    fn eq(&self, other: &AsciiStr<'a, C>) -> (r: bool) {
        C::cmp(self.as_str().as_bytes(), other.as_bytes()) == Order::Equal
    }
}

impl<'a, C: Comparator> PartialEqSpecImpl<AsciiStr<'a, C>> for String {
    open spec fn obeys_eq_spec() -> bool {
        true
    }

    open spec fn eq_spec(&self, other: &AsciiStr<'a, C>) -> bool {
        equal_under::<C>(encode_utf8(self@), other@)
    }
}

impl<C: Comparator> PartialEq<AsciiString<C>> for AsciiString<C> {
    fn eq(&self, other: &AsciiString<C>) -> (r: bool) {
        C::cmp(self.as_bytes(), other.as_bytes()) == Order::Equal
    }
}

impl<C: Comparator> PartialEqSpecImpl<AsciiString<C>> for AsciiString<C> {
    open spec fn obeys_eq_spec() -> bool {
        true
    }

    open spec fn eq_spec(&self, other: &AsciiString<C>) -> bool {
        equal_under::<C>(self@, other@)
    }
}

impl<'a, C: Comparator> PartialEq<AsciiStr<'a, C>> for AsciiString<C> {
    fn eq(&self, other: &AsciiStr<'a, C>) -> (r: bool) {
        C::cmp(self.as_bytes(), other.as_bytes()) == Order::Equal
    }
}

impl<'a, C: Comparator> PartialEqSpecImpl<AsciiStr<'a, C>> for AsciiString<C> {
    open spec fn obeys_eq_spec() -> bool {
        true
    }

    open spec fn eq_spec(&self, other: &AsciiStr<'a, C>) -> bool {
        equal_under::<C>(self@, other@)
    }
}

impl<C: Comparator> PartialEq<str> for AsciiString<C> {
    fn eq(&self, other: &str) -> (r: bool) {
        C::cmp(self.as_bytes(), other.as_bytes()) == Order::Equal
    }
}

impl<C: Comparator> PartialEqSpecImpl<str> for AsciiString<C> {
    open spec fn obeys_eq_spec() -> bool {
        true
    }

    open spec fn eq_spec(&self, other: &str) -> bool {
        equal_under::<C>(self@, other.spec_bytes())
    }
}

impl<'b, C: Comparator> PartialEq<&'b str> for AsciiString<C> {
    fn eq(&self, other: &&'b str) -> (r: bool) {
        C::cmp(self.as_bytes(), other.as_bytes()) == Order::Equal
    }
}

impl<'b, C: Comparator> PartialEqSpecImpl<&'b str> for AsciiString<C> {
    open spec fn obeys_eq_spec() -> bool {
        true
    }

    open spec fn eq_spec(&self, other: &&'b str) -> bool {
        equal_under::<C>(self@, (*other).spec_bytes())
    }
}

impl<C: Comparator> PartialEq<AsciiString<C>> for str {
    fn eq(&self, other: &AsciiString<C>) -> (r: bool) {
        C::cmp(self.as_bytes(), other.as_bytes()) == Order::Equal
    }
}

impl<C: Comparator> PartialEqSpecImpl<AsciiString<C>> for str {
    open spec fn obeys_eq_spec() -> bool {
        true
    }

    open spec fn eq_spec(&self, other: &AsciiString<C>) -> bool {
        equal_under::<C>(self.spec_bytes(), other@)
    }
}

impl<'b, C: Comparator> PartialEq<AsciiString<C>> for &'b str {
    fn eq(&self, other: &AsciiString<C>) -> (r: bool) {
        C::cmp(self.as_bytes(), other.as_bytes()) == Order::Equal
    }
}

impl<'b, C: Comparator> PartialEqSpecImpl<AsciiString<C>> for &'b str {
    open spec fn obeys_eq_spec() -> bool {
        true
    }

    open spec fn eq_spec(&self, other: &AsciiString<C>) -> bool {
        equal_under::<C>((*self).spec_bytes(), other@)
    }
}

impl<C: Comparator> PartialEq<String> for AsciiString<C> {
    fn eq(&self, other: &String) -> (r: bool) {
        C::cmp(self.as_bytes(), other.as_str().as_bytes()) == Order::Equal
    }
}

impl<C: Comparator> PartialEqSpecImpl<String> for AsciiString<C> {
    open spec fn obeys_eq_spec() -> bool {
        true
    }

    open spec fn eq_spec(&self, other: &String) -> bool {
        equal_under::<C>(self@, encode_utf8(other@))
    }
}

impl<C: Comparator> PartialEq<AsciiString<C>> for String {
    fn eq(&self, other: &AsciiString<C>) -> (r: bool) {
        C::cmp(self.as_str().as_bytes(), other.as_bytes()) == Order::Equal
    }
}

impl<C: Comparator> PartialEqSpecImpl<AsciiString<C>> for String {
    open spec fn obeys_eq_spec() -> bool {
        true
    }

    open spec fn eq_spec(&self, other: &AsciiString<C>) -> bool {
        equal_under::<C>(encode_utf8(self@), other@)
    }
}

impl<C: Comparator> Eq for AsciiString<C> {

}

impl<C: Comparator> PartialOrd for AsciiString<C> {
    fn partial_cmp(&self, other: &AsciiString<C>) -> (r: Option<core::cmp::Ordering>) {
        Some(C::cmp(self.as_bytes(), other.as_bytes()).to_ordering())
    }
}

impl<C: Comparator> PartialOrdSpecImpl for AsciiString<C> {
    open spec fn obeys_partial_cmp_spec() -> bool {
        true
    }

    open spec fn partial_cmp_spec(&self, other: &AsciiString<C>) -> Option<core::cmp::Ordering> {
        Some(ordering_of(C::order(self@, other@)))
    }
}

/// Hashes by the comparator's rules, so strings that compare equal hash equally.
impl<C: Comparator> core::hash::Hash for AsciiString<C> {
    fn hash<H: core::hash::Hasher>(&self, state: &mut H) {
        let _fed = C::hash(self.as_bytes(), state);
    }
}

/// Hashes by the comparator's rules, so strings that compare equal hash equally; an
/// `AsciiStr` and an `AsciiString` with the same bytes hash alike.
impl<'a, C: Comparator> core::hash::Hash for AsciiStr<'a, C> {
    fn hash<H: core::hash::Hasher>(&self, state: &mut H) {
        let _fed = C::hash(self.as_bytes(), state);
    }
}

} // verus!
