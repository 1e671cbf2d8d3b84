//! `AsciiString`: an owned, growable ASCII string whose comparisons follow a comparator.
use core::marker::PhantomData;
use std::collections::TryReserveError;

use vstd::prelude::*;
use vstd::std_specs::convert::FromSpecImpl;
use vstd::string::StringSliceAdditionalSpecFns;

use crate::ascii::{
    all_ascii, ascii_bytes_as_str, ascii_chars, bytes_are_ascii, char_utf8_bytes, debug_text,
    render_debug,
};
use crate::ascii_str::AsciiStr;
use crate::comparator::CaseSensitive;
use crate::error::FromAsciiError;

verus! {

/// ASCII string type with pluggable case sensitivity.
///
/// Comparisons follow the comparator `C`: an `AsciiString<CaseInsensitive>` holding `"hello"`
/// compares equal to `"HELLO"`. Use `as_str` when exact equality is required.
pub struct AsciiString<C = CaseSensitive> {
    marker: PhantomData<C>,
    bytes: Vec<u8>,
}

impl<C> View for AsciiString<C> {
    type V = Seq<u8>;

    /// The bytes of the string.
    closed spec fn view(&self) -> Seq<u8> {
        self.bytes@
    }
}

/// `bytes` with `ins` put in at position `idx`.
pub open spec fn splice_in(bytes: Seq<u8>, idx: int, ins: Seq<u8>) -> Seq<u8> {
    bytes.take(idx) + ins + bytes.skip(idx)
}

/// The bytes of `s` whose matching entry of `keep` is `true`, in the order they stand in `s`.
pub open spec fn filter_by(s: Seq<u8>, keep: Seq<bool>) -> Seq<u8>
    decreases s.len(),
{
    if s.len() == 0 {
        seq![]
    } else if keep[s.len() - 1] {
        filter_by(s.drop_last(), keep).push(s.last())
    } else {
        filter_by(s.drop_last(), keep)
    }
}

/// Appends every byte of `src` to `dst`.
fn append_bytes(dst: &mut Vec<u8>, src: &[u8])
    ensures
        final(dst)@ == old(dst)@ + src@,
{
    let mut i: usize = 0;
    while i < src.len()
        invariant
            i <= src@.len(),
            dst@ == old(dst)@ + src@.take(i as int),
        decreases src@.len() - i,
    {
        dst.push(src[i]);
        i = i + 1;
        assert(dst@ =~= old(dst)@ + src@.take(i as int));
    }
    assert(src@.take(i as int) =~= src@);
}

impl<C> AsciiString<C> {
    /// The bytes of every `AsciiString` are ASCII.
    #[verifier::type_invariant]
    spec fn ascii_invariant(self) -> bool {
        all_ascii(self.bytes@)
    }

    /// Moves the bytes out, leaving this string empty.
    fn take_bytes(&mut self) -> (r: Vec<u8>)
        ensures
            r@ == old(self)@,
            all_ascii(r@),
            final(self)@ == Seq::<u8>::empty(),
    {
        proof {
            use_type_invariant(&*self);
        }
        let mut v: Vec<u8> = Vec::new();
        core::mem::swap(&mut v, &mut self.bytes);
        v
    }

    /// Creates a new empty `AsciiString`.
    pub fn new() -> (r: Self)
        ensures
            r@ == Seq::<u8>::empty(),
    {
        AsciiString { marker: PhantomData, bytes: Vec::new() }
    }

    /// Creates a new empty `AsciiString` with at least the specified capacity.
    pub fn with_capacity(capacity: usize) -> (r: Self)
        ensures
            r@ == Seq::<u8>::empty(),
    {
        AsciiString { marker: PhantomData, bytes: Vec::with_capacity(capacity) }
    }

    /// Converts a vector of bytes to an `AsciiString`, validating that the bytes are ASCII.
    pub fn from_ascii(bytes: Vec<u8>) -> (r: Result<Self, FromAsciiError>)
        ensures
            r is Ok <==> all_ascii(bytes@),
            r matches Ok(s) ==> s@ == bytes@,
            r matches Err(e) ==> e@ == bytes@,
    {
        if bytes_are_ascii(bytes.as_slice()) {
            Ok(AsciiString { marker: PhantomData, bytes })
        } else {
            Err(FromAsciiError::new(bytes))
        }
    }

    /// Wraps bytes that are known to be ASCII.
    pub(crate) fn from_ascii_vec_unchecked(bytes: Vec<u8>) -> (r: Self)
        requires
            all_ascii(bytes@),
        ensures
            r@ == bytes@,
    {
        AsciiString { marker: PhantomData, bytes }
    }

    /// The debug form of this string: its text between double quotes, with quotes,
    /// backslashes and control bytes escaped.
    pub fn debug_string(&self) -> (r: String)
        ensures
            r@ == debug_text(self@),
    {
        proof {
            use_type_invariant(self);
        }
        let text = render_debug(self.bytes.as_slice());
        ascii_bytes_as_str(text.as_slice()).to_owned()
    }

    /// The text of this string as an owned `String`: one character per byte.
    pub fn to_string(&self) -> (r: String)
        ensures
            r@ == ascii_chars(self@),
    {
        self.as_str().to_owned()
    }

    /// Returns this `AsciiString` as a byte slice; its bytes are all ASCII.
    pub fn as_bytes(&self) -> (r: &[u8])
        ensures
            r@ == self@,
            all_ascii(r@),
    {
        proof {
            use_type_invariant(self);
        }
        self.bytes.as_slice()
    }

    /// Returns this `AsciiString` as a string slice: one character per byte.
    pub fn as_str(&self) -> (r: &str)
        ensures
            r@ == ascii_chars(self@),
    {
        proof {
            use_type_invariant(self);
        }
        ascii_bytes_as_str(self.bytes.as_slice())
    }

    /// Returns this `AsciiString` as an `AsciiStr` slice.
    pub fn as_ascii_str(&self) -> (r: AsciiStr<'_, C>)
        ensures
            r@ == self@,
    {
        proof {
            use_type_invariant(self);
        }
        AsciiStr::from_ascii_unchecked(self.bytes.as_slice())
    }

    /// Returns this `AsciiString`'s capacity in bytes: at least its length, and at most
    /// `isize::MAX`.
    pub fn capacity(&self) -> (r: usize)
        ensures
            r >= self@.len(),
            r <= isize::MAX,
    {
        vec_capacity(&self.bytes)
    }

    /// Truncates this `AsciiString`, removing all contents.
    pub fn clear(&mut self)
        ensures
            final(self)@ == Seq::<u8>::empty(),
    {
        let mut v = self.take_bytes();
        v.clear();
        self.bytes = v;
    }

    /// Inserts a character at byte position `idx` when it is ASCII; otherwise returns an error
    /// holding the character's UTF-8 bytes and leaves the string unchanged.
    pub fn insert(&mut self, idx: usize, ch: char) -> (r: Result<(), FromAsciiError>)
        requires
            (ch as u32) < 128 ==> idx <= old(self)@.len() && old(self)@.len() < isize::MAX,
        ensures
            r is Ok <==> (ch as u32) < 128,
            r is Ok ==> final(self)@ == old(self)@.insert(idx as int, ch as u8),
            r matches Err(e) ==> e@ == vstd::utf8::encode_scalar(ch as u32) && final(self)@ == old(
                self,
            )@,
    {
        let code: u32 = ch as u32;
        if code >= 128 {
            return Err(FromAsciiError::new(char_utf8_bytes(ch)));
        }
        let b: u8 = code as u8;
        let mut v = self.take_bytes();
        v.insert(idx, b);
        self.bytes = v;
        Ok(())
    }

    /// Inserts an ASCII string at byte position `idx`.
    pub fn insert_ascii(&mut self, idx: usize, ascii: &AsciiString<C>)
        requires
            idx <= old(self)@.len(),
            old(self)@.len() + ascii@.len() <= isize::MAX,
        ensures
            final(self)@ == splice_in(old(self)@, idx as int, ascii@),
    {
        let ins = ascii.as_bytes();
        let mut v = self.take_bytes();
        let tail = v.split_off(idx);
        append_bytes(&mut v, ins);
        append_bytes(&mut v, tail.as_slice());
        self.bytes = v;
    }

    /// Inserts a string slice at byte position `idx` when all of its bytes are ASCII;
    /// otherwise returns an error holding its bytes and leaves the string unchanged.
    pub fn insert_str(&mut self, idx: usize, s: &str) -> (r: Result<(), FromAsciiError>)
        requires
            all_ascii(s.spec_bytes()) ==> idx <= old(self)@.len() && old(self)@.len()
                + s.spec_bytes().len() <= isize::MAX,
        ensures
            r is Ok <==> all_ascii(s.spec_bytes()),
            r is Ok ==> final(self)@ == splice_in(old(self)@, idx as int, s.spec_bytes()),
            r matches Err(e) ==> e@ == s.spec_bytes() && final(self)@ == old(self)@,
    {
        let ins = s.as_bytes();
        if !bytes_are_ascii(ins) {
            return Err(FromAsciiError::new(vstd::slice::slice_to_vec(ins)));
        }
        let mut v = self.take_bytes();
        let tail = v.split_off(idx);
        append_bytes(&mut v, ins);
        append_bytes(&mut v, tail.as_slice());
        self.bytes = v;
        Ok(())
    }

    /// Converts this `AsciiString` into its byte vector.
    pub fn into_bytes(self) -> (r: Vec<u8>)
        ensures
            r@ == self@,
            all_ascii(r@),
    {
        proof {
            use_type_invariant(&self);
        }
        self.bytes
    }

    /// Returns `true` if this `AsciiString` has a length of zero, and `false` otherwise.
    pub fn is_empty(&self) -> (r: bool)
        ensures
            r == (self@.len() == 0),
    {
        self.bytes.len() == 0
    }

    /// Returns the length of this `AsciiString` in bytes.
    pub fn len(&self) -> (r: usize)
        ensures
            r == self@.len(),
    {
        self.bytes.len()
    }

    /// Removes the last byte and returns it, or returns `None` when the string is empty.
    pub fn pop(&mut self) -> (r: Option<u8>)
        ensures
            old(self)@.len() == 0 ==> r is None && final(self)@ == old(self)@,
            old(self)@.len() > 0 ==> r == Some(old(self)@.last()) && final(self)@ == old(
                self,
            )@.drop_last(),
    {
        let mut v = self.take_bytes();
        let r = v.pop();
        assert(v@ =~= old(self)@.drop_last() || old(self)@.len() == 0);
        self.bytes = v;
        r
    }

    /// Appends the given byte to the end of this `AsciiString` when it is ASCII; otherwise
    /// returns an error holding that byte and leaves the string unchanged.
    pub fn push(&mut self, c: u8) -> (r: Result<(), FromAsciiError>)
        requires
            c < 128 ==> old(self)@.len() < isize::MAX,
        ensures
            r is Ok <==> c < 128,
            r is Ok ==> final(self)@ == old(self)@.push(c),
            r matches Err(e) ==> e@ == seq![c] && final(self)@ == old(self)@,
    {
        if c >= 128 {
            let mut v: Vec<u8> = Vec::new();
            v.push(c);
            return Err(FromAsciiError::new(v));
        }
        let mut v = self.take_bytes();
        v.push(c);
        self.bytes = v;
        Ok(())
    }

    /// Appends an `AsciiStr` to the end of this `AsciiString`.
    pub fn push_ascii(&mut self, other: AsciiStr<'_, C>)
        requires
            old(self)@.len() + other@.len() <= isize::MAX,
        ensures
            final(self)@ == old(self)@ + other@,
    {
        let mut v = self.take_bytes();
        append_bytes(&mut v, other.as_bytes());
        self.bytes = v;
    }

    /// Removes the byte at position `idx` and returns it; the bytes after it move down.
    pub fn remove(&mut self, idx: usize) -> (r: u8)
        requires
            idx < old(self)@.len(),
        ensures
            r == old(self)@[idx as int],
            final(self)@ == old(self)@.remove(idx as int),
    {
        let mut v = self.take_bytes();
        let r = v.remove(idx);
        self.bytes = v;
        r
    }

    /// Reserves capacity for at least `additional` more bytes; the contents stay.
    pub fn reserve(&mut self, additional: usize)
        requires
            old(self)@.len() + additional <= isize::MAX,
        ensures
            final(self)@ == old(self)@,
    {
        let mut v = self.take_bytes();
        v.reserve(additional);
        self.bytes = v;
    }

    /// Reserves capacity for exactly `additional` more bytes, when needed; the contents stay.
    pub fn reserve_exact(&mut self, additional: usize)
        requires
            old(self)@.len() + additional <= isize::MAX,
        ensures
            final(self)@ == old(self)@,
    {
        let mut v = self.take_bytes();
        vec_reserve_exact(&mut v, additional);
        self.bytes = v;
    }

    /// Keeps only the bytes for which `f` returns `true`, visiting each byte once, in order,
    /// and keeping the order of the retained bytes.
    pub fn retain<F: Fn(u8) -> bool>(&mut self, f: F)
        requires
            forall|c: u8| f.requires((c,)),
        ensures
            exists|keep: Seq<bool>|
                {
                    &&& keep.len() == old(self)@.len()
                    &&& forall|i: int|
                        0 <= i < old(self)@.len() ==> f.ensures((old(self)@[i],), #[trigger] keep[i])
                    &&& final(self)@ == filter_by(old(self)@, keep)
                },
    {
        let v = self.take_bytes();
        let mut out: Vec<u8> = Vec::new();
        let ghost mut keep: Seq<bool> = seq![];
        let mut i: usize = 0;
        while i < v.len()
            invariant
                forall|c: u8| f.requires((c,)),
                all_ascii(v@),
                v@ == old(self)@,
                i <= v@.len(),
                keep.len() == i,
                forall|j: int| 0 <= j < i ==> f.ensures((v@[j],), #[trigger] keep[j]),
                out@ == filter_by(v@.take(i as int), keep),
                all_ascii(out@),
            decreases v@.len() - i,
        {
            let c = v[i];
            let k = f(c);
            let ghost prev = keep;
            proof {
                keep = keep.push(k);
                lemma_filter_by_prefix(v@.take(i as int), prev, keep);
                assert(v@.take(i + 1).drop_last() =~= v@.take(i as int));
            }
            if k {
                out.push(c);
            }
            i = i + 1;
        }
        assert(v@.take(i as int) =~= v@);
        self.bytes = out;
    }

    /// Shrinks the capacity with a lower bound; the contents stay.
    pub fn shrink_to(&mut self, min_capacity: usize)
        ensures
            final(self)@ == old(self)@,
    {
        let mut v = self.take_bytes();
        vec_shrink_to(&mut v, min_capacity);
        self.bytes = v;
    }

    /// Shrinks the capacity to match the length; the contents stay.
    pub fn shrink_to_fit(&mut self)
        ensures
            final(self)@ == old(self)@,
    {
        let mut v = self.take_bytes();
        vec_shrink_to_fit(&mut v);
        self.bytes = v;
    }

    /// Splits the string in two at byte `at`: `self` keeps bytes `[0, at)` and the returned
    /// string holds bytes `[at, len)`.
    pub fn split_off(&mut self, at: usize) -> (r: Self)
        requires
            at <= old(self)@.len(),
        ensures
            final(self)@ == old(self)@.take(at as int),
            r@ == old(self)@.skip(at as int),
    {
        let mut v = self.take_bytes();
        let tail = v.split_off(at);
        assert(tail@ =~= old(self)@.skip(at as int));
        assert(v@ =~= old(self)@.take(at as int));
        self.bytes = v;
        AsciiString { marker: PhantomData, bytes: tail }
    }

    /// Shortens the string to `new_len` bytes; a longer `new_len` changes nothing.
    pub fn truncate(&mut self, new_len: usize)
        ensures
            new_len <= old(self)@.len() ==> final(self)@ == old(self)@.take(new_len as int),
            new_len > old(self)@.len() ==> final(self)@ == old(self)@,
    {
        let mut v = self.take_bytes();
        v.truncate(new_len);
        assert(new_len <= old(self)@.len() ==> v@ =~= old(self)@.take(new_len as int));
        self.bytes = v;
    }

    /// Tries to reserve capacity for at least `additional` more bytes; the contents stay
    /// whether or not it succeeds. A request beyond `isize::MAX` bytes in all fails.
    pub fn try_reserve(&mut self, additional: usize) -> (r: Result<(), TryReserveError>)
        ensures
            final(self)@ == old(self)@,
            old(self)@.len() + additional > isize::MAX ==> r is Err,
    {
        let mut v = self.take_bytes();
        let limit = isize::MAX as usize;
        let r = if v.len() > limit || additional > limit - v.len() {
            // No vector holds more than `isize::MAX` bytes, so either way of reserving
            // refuses this request with a capacity overflow and leaves the vector alone.
            vec_try_reserve_exact(&mut v, additional)
        } else {
            v.try_reserve(additional)
        };
        self.bytes = v;
        r
    }

    /// Tries to reserve capacity for exactly `additional` more bytes; the contents stay
    /// whether or not it succeeds. A request beyond `isize::MAX` bytes in all fails.
    pub fn try_reserve_exact(&mut self, additional: usize) -> (r: Result<(), TryReserveError>)
        ensures
            final(self)@ == old(self)@,
            old(self)@.len() + additional > isize::MAX ==> r is Err,
    {
        let mut v = self.take_bytes();
        let r = vec_try_reserve_exact(&mut v, additional);
        self.bytes = v;
        r
    }
}

impl<C> Clone for AsciiString<C> {
    fn clone(&self) -> (r: Self)
        ensures
            r@ == self@,
    {
        let v = vstd::slice::slice_to_vec(self.as_bytes());
        AsciiString { marker: PhantomData, bytes: v }
    }
}

impl<C> Default for AsciiString<C> {
    fn default() -> (r: Self)
        ensures
            r@ == Seq::<u8>::empty(),
    {
        AsciiString::new()
    }
}

impl<'a, C> From<AsciiStr<'a, C>> for AsciiString<C> {
    fn from(value: AsciiStr<'a, C>) -> (r: Self)
        ensures
            r@ == value@,
    {
        value.to_owned()
    }
}

/// What `from` returns is stated on `from` itself: no spec function can build the vector
/// inside the result, so the result is only described by its bytes.
impl<'a, C> FromSpecImpl<AsciiStr<'a, C>> for AsciiString<C> {
    open spec fn obeys_from_spec() -> bool {
        false
    }

    open spec fn from_spec(v: AsciiStr<'a, C>) -> Self {
        choose|s: Self| s@ == v@
    }
}

/// `remove(idx)` undoes `insert(idx, ch)` for an ASCII character: if `inserted` is what
/// `insert(idx, ch)` made of `s` and `removed` is what `remove(idx)` made of `inserted`,
/// returning `byte`, then `removed` holds the bytes of `s` again and `byte` is `ch`.
pub proof fn lemma_remove_undoes_insert<C>(
    s: AsciiString<C>,
    inserted: AsciiString<C>,
    removed: AsciiString<C>,
    idx: int,
    ch: char,
    byte: u8,
)
    requires
        (ch as u32) < 128,
        0 <= idx <= s@.len(),
        inserted@ == s@.insert(idx, ch as u8),
        byte == inserted@[idx],
        removed@ == inserted@.remove(idx),
    ensures
        removed@ == s@,
        byte == ch as u8,
{
    assert(s@.insert(idx, ch as u8).remove(idx) =~= s@);
}

/// `pop` undoes `push`: if `pushed` is what a successful `push(c)` made of `s`, and `popped`
/// is what `pop` made of `pushed`, returning `r`, then `r` is `Some(c)` and `popped` holds the
/// bytes of `s` again.
pub proof fn lemma_pop_undoes_push<C>(
    s: AsciiString<C>,
    pushed: AsciiString<C>,
    popped: AsciiString<C>,
    c: u8,
    r: Option<u8>,
)
    requires
        pushed@ == s@.push(c),
        pushed@.len() == 0 ==> r is None && popped@ == pushed@,
        pushed@.len() > 0 ==> r == Some(pushed@.last()) && popped@ == pushed@.drop_last(),
    ensures
        r == Some(c),
        popped@ == s@,
{
    assert(s@.push(c).drop_last() =~= s@);
}

/// `push_ascii` of what `split_off(at)` returned undoes the split: if `split_off(at)` left
/// `kept` of `s` and returned `rest`, and `joined` is what `push_ascii(rest)` made of `kept`,
/// then `joined` holds the bytes of `s` again.
pub proof fn lemma_split_off_then_append_restores<C>(
    s: AsciiString<C>,
    kept: AsciiString<C>,
    rest: AsciiString<C>,
    joined: AsciiString<C>,
    at: int,
)
    requires
        0 <= at <= s@.len(),
        kept@ == s@.take(at),
        rest@ == s@.skip(at),
        joined@ == kept@ + rest@,
    ensures
        joined@ == s@,
{
    assert(s@.take(at) + s@.skip(at) =~= s@);
}

/// Where `splice_in` puts things: the bytes before `idx` stay in place, the inserted bytes
/// start exactly at `idx`, and the bytes from `idx` on follow them, moved up by the inserted
/// length.
pub proof fn lemma_splice_in_places(bytes: Seq<u8>, idx: int, ins: Seq<u8>)
    requires
        0 <= idx <= bytes.len(),
    ensures
        splice_in(bytes, idx, ins).len() == bytes.len() + ins.len(),
        forall|j: int| 0 <= j < idx ==> #[trigger] splice_in(bytes, idx, ins)[j] == bytes[j],
        forall|j: int|
            0 <= j < ins.len() ==> #[trigger] splice_in(bytes, idx, ins)[idx + j] == ins[j],
        forall|j: int|
            idx <= j < bytes.len() ==> #[trigger] splice_in(bytes, idx, ins)[j + ins.len()]
                == bytes[j],
{
}

/// Inserting the empty string changes nothing, and inserting at the end appends.
pub proof fn lemma_splice_in_ends(s: Seq<u8>, ins: Seq<u8>)
    ensures
        splice_in(s, 0, ins) == ins + s,
        splice_in(s, s.len() as int, ins) == s + ins,
        forall|idx: int| 0 <= idx <= s.len() ==> #[trigger] splice_in(s, idx, seq![]) == s,
{
    assert(splice_in(s, 0, ins) =~= ins + s);
    assert(splice_in(s, s.len() as int, ins) =~= s + ins);
    assert forall|idx: int| 0 <= idx <= s.len() implies #[trigger] splice_in(s, idx, seq![]) == s by {
        assert(splice_in(s, idx, seq![]) =~= s);
    }
}

/// Keeping every byte keeps the string as it was; keeping none empties it.
pub proof fn lemma_filter_by_all_or_none(s: Seq<u8>, keep: Seq<bool>)
    requires
        keep.len() == s.len(),
    ensures
        (forall|i: int| 0 <= i < s.len() ==> keep[i]) ==> filter_by(s, keep) == s,
        (forall|i: int| 0 <= i < s.len() ==> !keep[i]) ==> filter_by(s, keep) == Seq::<u8>::empty(),
    decreases s.len(),
{
    if s.len() > 0 {
        lemma_filter_by_prefix(s.drop_last(), keep, keep.drop_last());
        lemma_filter_by_all_or_none(s.drop_last(), keep.drop_last());
        assert(s.drop_last().push(s.last()) =~= s);
    }
}

/// Two keep-lists that agree on the first `s.len()` entries select the same bytes.
proof fn lemma_filter_by_prefix(s: Seq<u8>, k1: Seq<bool>, k2: Seq<bool>)
    requires
        s.len() <= k1.len(),
        s.len() <= k2.len(),
        forall|j: int| 0 <= j < s.len() ==> k1[j] == k2[j],
    ensures
        filter_by(s, k1) == filter_by(s, k2),
    decreases s.len(),
{
    if s.len() > 0 {
        lemma_filter_by_prefix(s.drop_last(), k1, k2);
    }
}

/// `Vec::capacity`: the vector's capacity is never below its length, and a vector never
/// allocates more than `isize::MAX` bytes.
#[verifier::external_body]
fn vec_capacity(v: &Vec<u8>) -> (r: usize)
    ensures
        r >= v@.len(),
        r <= isize::MAX,
{
    v.capacity()
}

/// `Vec::reserve_exact`: grows the capacity and leaves the contents as they were; it panics
/// only when the new capacity would exceed `isize::MAX` bytes.
#[verifier::external_body]
fn vec_reserve_exact(v: &mut Vec<u8>, additional: usize)
    requires
        old(v)@.len() + additional <= isize::MAX,
    ensures
        final(v)@ == old(v)@,
{
    v.reserve_exact(additional)
}

/// `Vec::shrink_to`: lowers the capacity and leaves the contents as they were.
#[verifier::external_body]
fn vec_shrink_to(v: &mut Vec<u8>, min_capacity: usize)
    ensures
        final(v)@ == old(v)@,
{
    v.shrink_to(min_capacity)
}

/// `Vec::shrink_to_fit`: lowers the capacity to the length and leaves the contents as they
/// were.
#[verifier::external_body]
fn vec_shrink_to_fit(v: &mut Vec<u8>)
    ensures
        final(v)@ == old(v)@,
{
    v.shrink_to_fit()
}

/// `Vec::try_reserve_exact`: either way the contents stay as they were. It fails with a
/// capacity overflow when the vector would have to hold more than `isize::MAX` bytes, the
/// most a vector holds; otherwise whether it succeeds depends on the allocator, which is
/// left unsaid.
#[verifier::external_body]
fn vec_try_reserve_exact(v: &mut Vec<u8>, additional: usize) -> (r: Result<(), TryReserveError>)
    ensures
        final(v)@ == old(v)@,
        old(v)@.len() + additional > isize::MAX ==> r is Err,
{
    v.try_reserve_exact(additional)
}

} // verus!
