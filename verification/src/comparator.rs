//! Comparators: how two ASCII byte strings are ordered and hashed.
use vstd::prelude::*;

use crate::ascii::{all_ascii, is_ascii_byte, lemma_lower_keeps_ascii, lower, lower_seq, to_ascii_lowercase};
use crate::hash_log::{hash_byte_slice, hasher_write_u8, HashLog};

verus! {

/// The result of comparing two byte strings: the same three outcomes as `core::cmp::Ordering`.
#[derive(Clone, Copy, Debug, PartialEq, Eq, Structural)]
pub enum Order {
    /// The first string sorts before the second.
    Less,
    /// The two strings are equal under the comparator.
    Equal,
    /// The first string sorts after the second.
    Greater,
}

impl Order {
    /// The outcome seen from the other side.
    pub open spec fn reverse(self) -> Order {
        match self {
            Order::Less => Order::Greater,
            Order::Equal => Order::Equal,
            Order::Greater => Order::Less,
        }
    }

    /// Converts to the standard library's ordering.
    pub fn to_ordering(self) -> (r: core::cmp::Ordering)
        ensures
            r == ordering_of(self),
    {
        match self {
            Order::Less => core::cmp::Ordering::Less,
            Order::Equal => core::cmp::Ordering::Equal,
            Order::Greater => core::cmp::Ordering::Greater,
        }
    }
}

/// The standard library's ordering that stands for `o`.
pub open spec fn ordering_of(o: Order) -> core::cmp::Ordering {
    match o {
        Order::Less => core::cmp::Ordering::Less,
        Order::Equal => core::cmp::Ordering::Equal,
        Order::Greater => core::cmp::Ordering::Greater,
    }
}

/// Lexicographic order of byte strings: the first differing byte decides, and a proper
/// prefix sorts before the longer string.
pub open spec fn lex_order(a: Seq<u8>, b: Seq<u8>) -> Order
    decreases a.len(),
{
    if a.len() == 0 {
        if b.len() == 0 {
            Order::Equal
        } else {
            Order::Less
        }
    } else if b.len() == 0 {
        Order::Greater
    } else if a[0] < b[0] {
        Order::Less
    } else if a[0] > b[0] {
        Order::Greater
    } else {
        lex_order(a.drop_first(), b.drop_first())
    }
}

/// Swapping the arguments of `lex_order` reverses the outcome.
pub proof fn lemma_lex_reverse(a: Seq<u8>, b: Seq<u8>)
    ensures
        lex_order(b, a) == lex_order(a, b).reverse(),
    decreases a.len(),
{
    if a.len() > 0 && b.len() > 0 && a[0] == b[0] {
        lemma_lex_reverse(a.drop_first(), b.drop_first());
    }
}

/// `lex_order` says `Equal` exactly for equal byte strings.
pub proof fn lemma_lex_equal_iff(a: Seq<u8>, b: Seq<u8>)
    ensures
        (lex_order(a, b) == Order::Equal) <==> a == b,
    decreases a.len(),
{
    if a.len() == 0 && b.len() == 0 {
        assert(a =~= b);
    }
    if a.len() > 0 && b.len() > 0 && a[0] == b[0] {
        lemma_lex_equal_iff(a.drop_first(), b.drop_first());
        if a.drop_first() == b.drop_first() {
            assert(a =~= seq![a[0]] + a.drop_first());
            assert(b =~= seq![b[0]] + b.drop_first());
        }
        if a == b {
            assert(a.drop_first() =~= b.drop_first());
        }
    }
}

/// `lex_order` is transitive: `a <= b` and `b <= c` give `a <= c`, strictly when either step
/// is strict.
pub proof fn lemma_lex_transitive(a: Seq<u8>, b: Seq<u8>, c: Seq<u8>)
    requires
        lex_order(a, b) != Order::Greater,
        lex_order(b, c) != Order::Greater,
    ensures
        lex_order(a, c) != Order::Greater,
        lex_order(a, b) == Order::Less || lex_order(b, c) == Order::Less ==> lex_order(a, c)
            == Order::Less,
    decreases a.len(),
{
    lemma_lex_equal_iff(a, b);
    lemma_lex_equal_iff(b, c);
    if a.len() > 0 && b.len() > 0 && c.len() > 0 && a[0] == b[0] && b[0] == c[0] {
        lemma_lex_transitive(a.drop_first(), b.drop_first(), c.drop_first());
    }
}

/// A proper prefix sorts before the longer string.
pub proof fn lemma_lex_proper_prefix(a: Seq<u8>, b: Seq<u8>)
    requires
        a.len() < b.len(),
        a == b.take(a.len() as int),
    ensures
        lex_order(a, b) == Order::Less,
    decreases a.len(),
{
    if a.len() > 0 {
        assert(a[0] == b[0]);
        assert(a.drop_first() =~= b.drop_first().take(a.drop_first().len() as int));
        lemma_lex_proper_prefix(a.drop_first(), b.drop_first());
    }
}

/// The first position where two byte strings differ decides `lex_order`: the string with the
/// smaller byte there sorts first, whatever the lengths.
pub proof fn lemma_lex_first_difference(a: Seq<u8>, b: Seq<u8>, i: int)
    requires
        0 <= i < a.len(),
        i < b.len(),
        forall|j: int| 0 <= j < i ==> a[j] == b[j],
        a[i] != b[i],
    ensures
        lex_order(a, b) == (if a[i] < b[i] {
            Order::Less
        } else {
            Order::Greater
        }),
    decreases i,
{
    if i > 0 {
        assert(a[0] == b[0]);
        lemma_lex_first_difference(a.drop_first(), b.drop_first(), i - 1);
    }
}

/// When two byte strings of different lengths agree on every position they share, the
/// shorter sorts first.
pub proof fn lemma_lex_common_prefix(a: Seq<u8>, b: Seq<u8>)
    requires
        a.len() != b.len(),
        forall|j: int| 0 <= j < a.len() && j < b.len() ==> a[j] == b[j],
    ensures
        lex_order(a, b) == (if a.len() < b.len() {
            Order::Less
        } else {
            Order::Greater
        }),
{
    if a.len() < b.len() {
        assert(a =~= b.take(a.len() as int));
        lemma_lex_proper_prefix(a, b);
    } else {
        assert(b =~= a.take(b.len() as int));
        lemma_lex_proper_prefix(b, a);
        lemma_lex_reverse(b, a);
    }
}

/// Comparing from position `i` on decides once the bytes before `i` agree.
proof fn lemma_lex_step(a: Seq<u8>, b: Seq<u8>, i: int)
    requires
        0 <= i < a.len(),
        i < b.len(),
        a[i] == b[i],
    ensures
        lex_order(a.skip(i), b.skip(i)) == lex_order(a.skip(i + 1), b.skip(i + 1)),
{
    assert(a.skip(i).drop_first() =~= a.skip(i + 1));
    assert(b.skip(i).drop_first() =~= b.skip(i + 1));
}

/// Compares two byte strings lexicographically, byte by byte.
pub fn compare_bytes(a: &[u8], b: &[u8]) -> (r: Order)
    ensures
        r == lex_order(a@, b@),
{
    let n: usize = if a.len() < b.len() {
        a.len()
    } else {
        b.len()
    };
    let mut i: usize = 0;
    assert(a@.skip(0) =~= a@ && b@.skip(0) =~= b@);
    while i < n
        invariant
            i <= n,
            n <= a@.len(),
            n <= b@.len(),
            n == a@.len() || n == b@.len(),
            lex_order(a@, b@) == lex_order(a@.skip(i as int), b@.skip(i as int)),
        decreases n - i,
    {
        let x = a[i];
        let y = b[i];
        if x < y {
            return Order::Less;
        }
        if x > y {
            return Order::Greater;
        }
        proof {
            lemma_lex_step(a@, b@, i as int);
        }
        i = i + 1;
    }
    if a.len() < b.len() {
        Order::Less
    } else if a.len() > b.len() {
        Order::Greater
    } else {
        Order::Equal
    }
}

/// Compares two byte strings lexicographically after lowercasing each byte, without
/// building the lowercased strings.
pub fn compare_lowercase(a: &[u8], b: &[u8]) -> (r: Order)
    ensures
        r == lex_order(lower_seq(a@), lower_seq(b@)),
{
    let ghost la = lower_seq(a@);
    let ghost lb = lower_seq(b@);
    let n: usize = if a.len() < b.len() {
        a.len()
    } else {
        b.len()
    };
    let mut i: usize = 0;
    assert(la.skip(0) =~= la && lb.skip(0) =~= lb);
    while i < n
        invariant
            i <= n,
            n <= a@.len(),
            n <= b@.len(),
            n == a@.len() || n == b@.len(),
            la == lower_seq(a@),
            lb == lower_seq(b@),
            lex_order(la, lb) == lex_order(la.skip(i as int), lb.skip(i as int)),
        decreases n - i,
    {
        let x = to_ascii_lowercase(a[i]);
        let y = to_ascii_lowercase(b[i]);
        if x < y {
            return Order::Less;
        }
        if x > y {
            return Order::Greater;
        }
        proof {
            lemma_lex_step(la, lb, i as int);
        }
        i = i + 1;
    }
    if a.len() < b.len() {
        Order::Less
    } else if a.len() > b.len() {
        Order::Greater
    } else {
        Order::Equal
    }
}

/// Rules that decide how ASCII strings compare and hash.
///
/// An implementation gives the order as a spec function, proves that it is a total order
/// whose `Equal` agrees with the hash input, and implements both in executable code.
pub trait Comparator {
    /// How this comparator orders the byte strings `a` and `b`.
    spec fn order(a: Seq<u8>, b: Seq<u8>) -> Order;

    /// The bytes that stand for `bytes` when it is hashed.
    spec fn hash_input(bytes: Seq<u8>) -> Seq<u8>;

    /// Returns the bytes that stand for `bytes` when it is hashed: strings that this
    /// comparator holds equal give the same bytes.
    fn hash_key(bytes: &[u8]) -> (r: Vec<u8>)
        ensures
            r@ == Self::hash_input(bytes@),
    ;

    /// The calls that hashing `bytes` makes into a hasher, one entry per call.
    spec fn hash_writes(bytes: Seq<u8>) -> Seq<Seq<u8>>;

    /// Feeds `bytes` to `state` according to the rules of this comparator: the calls made are
    /// exactly `hash_writes(bytes)`, and `log` records them.
    fn feed<H: core::hash::Hasher>(bytes: &[u8], state: &mut H, log: &mut HashLog)
        ensures
            final(log)@ == old(log)@ + Self::hash_writes(bytes@),
    ;

    /// Hashes `bytes` into `state` according to the rules of this comparator, and returns the
    /// record of the calls made, which are exactly `hash_writes(bytes)`.
    fn hash<H: core::hash::Hasher>(bytes: &[u8], state: &mut H) -> (fed: HashLog)
        ensures
            fed@ == Self::hash_writes(bytes@),
    ;

    /// Compares two ASCII strings according to this comparator.
    fn cmp(a: &[u8], b: &[u8]) -> (r: Order)
        ensures
            r == Self::order(a@, b@),
    ;

    /// Every string is equal to itself.
    proof fn lemma_reflexive(a: Seq<u8>)
        ensures
            Self::order(a, a) == Order::Equal,
    ;

    /// Swapping the arguments reverses the outcome.
    proof fn lemma_reverse(a: Seq<u8>, b: Seq<u8>)
        ensures
            Self::order(b, a) == Self::order(a, b).reverse(),
    ;

    /// The order is transitive, strictly so when either step is strict.
    proof fn lemma_transitive(a: Seq<u8>, b: Seq<u8>, c: Seq<u8>)
        requires
            Self::order(a, b) != Order::Greater,
            Self::order(b, c) != Order::Greater,
        ensures
            Self::order(a, c) != Order::Greater,
            Self::order(a, b) == Order::Less || Self::order(b, c) == Order::Less
                ==> Self::order(a, c) == Order::Less,
    ;

    /// Strings that compare equal hash alike.
    proof fn lemma_equal_hash_alike(a: Seq<u8>, b: Seq<u8>)
        requires
            Self::order(a, b) == Order::Equal,
        ensures
            Self::hash_input(a) == Self::hash_input(b),
            Self::hash_writes(a) == Self::hash_writes(b),
    ;
}

/// Case-sensitive comparator for ASCII strings.
pub struct CaseSensitive;

/// Case-insensitive comparator for ASCII strings.
pub struct CaseInsensitive;

impl Comparator for CaseSensitive {
    open spec fn order(a: Seq<u8>, b: Seq<u8>) -> Order {
        lex_order(a, b)
    }

    open spec fn hash_input(bytes: Seq<u8>) -> Seq<u8> {
        bytes
    }

    fn hash_key(bytes: &[u8]) -> (r: Vec<u8>) {
        vstd::slice::slice_to_vec(bytes)
    }

    /// One call: the bytes hashed as a byte slice.
    open spec fn hash_writes(bytes: Seq<u8>) -> Seq<Seq<u8>> {
        seq![bytes]
    }

    fn hash<H: core::hash::Hasher>(bytes: &[u8], state: &mut H) -> (fed: HashLog) {
        let mut log = HashLog::new();
        Self::feed(bytes, state, &mut log);
        assert(log@ =~= Self::hash_writes(bytes@));
        log
    }

    /// Hashes the hash key as a byte slice: its length, then the bytes themselves.
    fn feed<H: core::hash::Hasher>(bytes: &[u8], state: &mut H, log: &mut HashLog) {
        let key = Self::hash_key(bytes);
        hash_byte_slice(key.as_slice(), state, log);
        assert(final(log)@ =~= old(log)@ + Self::hash_writes(bytes@));
    }

    fn cmp(a: &[u8], b: &[u8]) -> (r: Order) {
        compare_bytes(a, b)
    }

    proof fn lemma_reflexive(a: Seq<u8>) {
        lemma_lex_equal_iff(a, a);
    }

    proof fn lemma_reverse(a: Seq<u8>, b: Seq<u8>) {
        lemma_lex_reverse(a, b);
    }

    proof fn lemma_transitive(a: Seq<u8>, b: Seq<u8>, c: Seq<u8>) {
        lemma_lex_transitive(a, b, c);
    }

    proof fn lemma_equal_hash_alike(a: Seq<u8>, b: Seq<u8>) {
        lemma_lex_equal_iff(a, b);
    }
}

impl Comparator for CaseInsensitive {
    open spec fn order(a: Seq<u8>, b: Seq<u8>) -> Order {
        lex_order(lower_seq(a), lower_seq(b))
    }

    open spec fn hash_input(bytes: Seq<u8>) -> Seq<u8> {
        lower_seq(bytes)
    }

    /// One call per byte: the byte's ASCII lowercase.
    open spec fn hash_writes(bytes: Seq<u8>) -> Seq<Seq<u8>> {
        Seq::new(bytes.len(), |i: int| seq![lower(bytes[i])])
    }

    fn hash<H: core::hash::Hasher>(bytes: &[u8], state: &mut H) -> (fed: HashLog) {
        let mut log = HashLog::new();
        Self::feed(bytes, state, &mut log);
        assert(log@ =~= Self::hash_writes(bytes@));
        log
    }

    /// Writes the hash key, the bytes' ASCII lowercase, to the hasher one byte at a time.
    fn feed<H: core::hash::Hasher>(bytes: &[u8], state: &mut H, log: &mut HashLog) {
        let key = Self::hash_key(bytes);
        let mut i: usize = 0;
        while i < key.len()
            invariant
                i <= key@.len(),
                key@ == lower_seq(bytes@),
                log@ == old(log)@ + Self::hash_writes(bytes@).take(i as int),
            decreases key@.len() - i,
        {
            hasher_write_u8(state, log, key[i]);
            i = i + 1;
            assert(log@ =~= old(log)@ + Self::hash_writes(bytes@).take(i as int));
        }
        assert(Self::hash_writes(bytes@).take(i as int) =~= Self::hash_writes(bytes@));
    }

    fn hash_key(bytes: &[u8]) -> (r: Vec<u8>) {
        let mut out: Vec<u8> = Vec::new();
        let mut i: usize = 0;
        while i < bytes.len()
            invariant
                i <= bytes@.len(),
                out@ =~= lower_seq(bytes@.take(i as int)),
            decreases bytes@.len() - i,
        {
            out.push(to_ascii_lowercase(bytes[i]));
            i = i + 1;
            assert(out@ =~= lower_seq(bytes@.take(i as int)));
        }
        assert(bytes@.take(i as int) =~= bytes@);
        out
    }

    fn cmp(a: &[u8], b: &[u8]) -> (r: Order) {
        compare_lowercase(a, b)
    }

    proof fn lemma_reflexive(a: Seq<u8>) {
        lemma_lex_equal_iff(lower_seq(a), lower_seq(a));
    }

    proof fn lemma_reverse(a: Seq<u8>, b: Seq<u8>) {
        lemma_lex_reverse(lower_seq(a), lower_seq(b));
    }

    proof fn lemma_transitive(a: Seq<u8>, b: Seq<u8>, c: Seq<u8>) {
        lemma_lex_transitive(lower_seq(a), lower_seq(b), lower_seq(c));
    }

    proof fn lemma_equal_hash_alike(a: Seq<u8>, b: Seq<u8>) {
        lemma_lex_equal_iff(lower_seq(a), lower_seq(b));
        assert(lower_seq(a).len() == a.len() && lower_seq(b).len() == b.len());
        assert forall|i: int| 0 <= i < a.len() implies lower(a[i]) == lower(b[i]) by {
            assert(lower_seq(a)[i] == lower_seq(b)[i]);
        }
        assert(Self::hash_writes(a) =~= Self::hash_writes(b));
    }
}

/// Under `CaseSensitive`, two strings compare equal exactly when their bytes are the same.
pub proof fn lemma_case_sensitive_equal_iff(a: Seq<u8>, b: Seq<u8>)
    ensures
        (CaseSensitive::order(a, b) == Order::Equal) <==> a == b,
{
    lemma_lex_equal_iff(a, b);
}

/// Under `CaseSensitive`, the first position where the strings differ decides: the string
/// with the smaller byte there sorts first, whatever the lengths.
pub proof fn lemma_case_sensitive_first_difference_decides(a: Seq<u8>, b: Seq<u8>, i: int)
    requires
        0 <= i < a.len(),
        i < b.len(),
        forall|j: int| 0 <= j < i ==> a[j] == b[j],
        a[i] != b[i],
    ensures
        CaseSensitive::order(a, b) == (if a[i] < b[i] {
            Order::Less
        } else {
            Order::Greater
        }),
{
    lemma_lex_first_difference(a, b, i);
}

/// Under `CaseSensitive`, when strings of different lengths agree on every position they
/// share, the shorter sorts first.
pub proof fn lemma_case_sensitive_length_decides_after_common_prefix(a: Seq<u8>, b: Seq<u8>)
    requires
        a.len() != b.len(),
        forall|j: int| 0 <= j < a.len() && j < b.len() ==> a[j] == b[j],
    ensures
        CaseSensitive::order(a, b) == (if a.len() < b.len() {
            Order::Less
        } else {
            Order::Greater
        }),
{
    lemma_lex_common_prefix(a, b);
}

/// Under `CaseInsensitive`, the first position where the lowercase bytes differ decides: the
/// string whose lowercase byte there is smaller sorts first, whatever the lengths.
pub proof fn lemma_case_insensitive_first_difference_decides(a: Seq<u8>, b: Seq<u8>, i: int)
    requires
        0 <= i < a.len(),
        i < b.len(),
        forall|j: int| 0 <= j < i ==> lower(a[j]) == lower(b[j]),
        lower(a[i]) != lower(b[i]),
    ensures
        CaseInsensitive::order(a, b) == (if lower(a[i]) < lower(b[i]) {
            Order::Less
        } else {
            Order::Greater
        }),
{
    lemma_lex_first_difference(lower_seq(a), lower_seq(b), i);
}

/// Under `CaseInsensitive`, when strings of different lengths agree up to case on every
/// position they share, the shorter sorts first.
pub proof fn lemma_case_insensitive_length_decides_after_common_prefix(a: Seq<u8>, b: Seq<u8>)
    requires
        a.len() != b.len(),
        forall|j: int| 0 <= j < a.len() && j < b.len() ==> lower(a[j]) == lower(b[j]),
    ensures
        CaseInsensitive::order(a, b) == (if a.len() < b.len() {
            Order::Less
        } else {
            Order::Greater
        }),
{
    lemma_lex_common_prefix(lower_seq(a), lower_seq(b));
}

/// Under `CaseInsensitive`, two strings compare equal exactly when they have the same length
/// and, at every position, the same byte or the two cases of one letter.
pub proof fn lemma_case_insensitive_equal_iff_same_up_to_case(a: Seq<u8>, b: Seq<u8>)
    ensures
        (CaseInsensitive::order(a, b) == Order::Equal) <==> (a.len() == b.len() && forall|i: int|
            0 <= i < a.len() ==> (a[i] == b[i] || (65 <= a[i] <= 90 && b[i] == a[i] + 32) || (65
                <= b[i] <= 90 && a[i] == b[i] + 32))),
{
    lemma_lex_equal_iff(lower_seq(a), lower_seq(b));
    if lower_seq(a) == lower_seq(b) {
        assert forall|i: int| 0 <= i < a.len() implies (a[i] == b[i] || (65 <= a[i] <= 90 && b[i]
            == a[i] + 32) || (65 <= b[i] <= 90 && a[i] == b[i] + 32)) by {
            assert(lower_seq(a)[i] == lower_seq(b)[i]);
        }
    }
    if a.len() == b.len() && forall|i: int|
        0 <= i < a.len() ==> (a[i] == b[i] || (65 <= a[i] <= 90 && b[i] == a[i] + 32) || (65
            <= b[i] <= 90 && a[i] == b[i] + 32)) {
        assert(lower_seq(a) =~= lower_seq(b));
    }
}

/// `CaseSensitive` feeds a hasher one call: the string's bytes, hashed as a byte slice.
pub proof fn lemma_case_sensitive_hash_writes(s: Seq<u8>)
    ensures
        CaseSensitive::hash_writes(s) == seq![s],
{
}

/// `CaseInsensitive` feeds a hasher one call per byte, in order: the byte itself, or for an
/// uppercase letter `A..=Z` the lowercase letter 32 places later.
pub proof fn lemma_case_insensitive_hash_writes(s: Seq<u8>)
    ensures
        CaseInsensitive::hash_writes(s).len() == s.len(),
        forall|i: int|
            0 <= i < s.len() ==> #[trigger] CaseInsensitive::hash_writes(s)[i] == seq![
                if 65 <= s[i] <= 90 {
                    (s[i] + 32) as u8
                } else {
                    s[i]
                },
            ],
{
}

/// Under `CaseInsensitive`, two strings compare equal exactly when their ASCII lowercase
/// forms are the same.
pub proof fn lemma_case_insensitive_equal_iff(a: Seq<u8>, b: Seq<u8>)
    ensures
        (CaseInsensitive::order(a, b) == Order::Equal) <==> lower_seq(a) == lower_seq(b),
{
    lemma_lex_equal_iff(lower_seq(a), lower_seq(b));
}

/// An ASCII string never compares equal to a byte string that holds a non-ASCII byte, under
/// either comparator.
pub proof fn lemma_ascii_never_equals_non_ascii(a: Seq<u8>, b: Seq<u8>)
    requires
        all_ascii(a),
        !all_ascii(b),
    ensures
        CaseSensitive::order(a, b) != Order::Equal,
        CaseInsensitive::order(a, b) != Order::Equal,
{
    lemma_lex_equal_iff(a, b);
    lemma_lex_equal_iff(lower_seq(a), lower_seq(b));
    let i = choose|i: int| 0 <= i < b.len() && !is_ascii_byte(#[trigger] b[i]);
    lemma_lower_keeps_ascii(b[i]);
    if lower_seq(a) == lower_seq(b) {
        assert(lower_seq(b)[i] == b[i]);
        lemma_lower_keeps_ascii(a[i]);
        assert(is_ascii_byte(a[i]));
        assert(false);
    }
}

/// A proper prefix sorts before the longer string, under either comparator.
pub proof fn lemma_proper_prefix_sorts_first(a: Seq<u8>, b: Seq<u8>)
    requires
        a.len() < b.len(),
        a == b.take(a.len() as int),
    ensures
        CaseSensitive::order(a, b) == Order::Less,
        CaseInsensitive::order(a, b) == Order::Less,
{
    lemma_lex_proper_prefix(a, b);
    assert(lower_seq(a) =~= lower_seq(b).take(a.len() as int));
    lemma_lex_proper_prefix(lower_seq(a), lower_seq(b));
}

/// Under `CaseSensitive`, a string that starts with an uppercase letter sorts before one that
/// starts with a lowercase letter.
pub proof fn lemma_uppercase_before_lowercase(a: Seq<u8>, b: Seq<u8>)
    requires
        a.len() > 0,
        b.len() > 0,
        65 <= a[0] <= 90,
        97 <= b[0] <= 122,
    ensures
        CaseSensitive::order(a, b) == Order::Less,
{
}

} // verus!
