//! Feeding hashers, with a record of what each hasher was fed.
use vstd::prelude::*;

verus! {

/// A record of the calls made into one hasher: one entry per call, holding the bytes that
/// call passed. Only the functions of this module make such calls, and each adds its entry,
/// so the record holds exactly what the hasher was fed. Records are started only inside this
/// crate.
pub struct HashLog {
    written: Ghost<Seq<Seq<u8>>>,
}

impl View for HashLog {
    type V = Seq<Seq<u8>>;

    /// The entries, one per call into the hasher, in the order of the calls.
    closed spec fn view(&self) -> Seq<Seq<u8>> {
        self.written@
    }
}

impl HashLog {
    /// An empty record.
    pub(crate) fn new() -> (r: Self)
        ensures
            r@ == Seq::<Seq<u8>>::empty(),
    {
        HashLog { written: Ghost(Seq::empty()) }
    }
}

/// `Hasher::write_u8`: feeds the byte `b` to the hasher, recorded as the entry `[b]`. What
/// the hasher does with it is left unsaid.
#[verifier::external_body]
pub(crate) fn hasher_write_u8<H: core::hash::Hasher>(state: &mut H, log: &mut HashLog, b: u8)
    ensures
        final(log)@ == old(log)@.push(seq![b]),
{
    state.write_u8(b)
}

/// `<[u8] as Hash>::hash`: feeds the slice's length and then its bytes to the hasher,
/// recorded as the entry holding those bytes. What the hasher does with them is left unsaid.
#[verifier::external_body]
pub(crate) fn hash_byte_slice<H: core::hash::Hasher>(bytes: &[u8], state: &mut H, log: &mut HashLog)
    ensures
        final(log)@ == old(log)@.push(bytes@),
{
    core::hash::Hash::hash(bytes, state)
}

} // verus!
