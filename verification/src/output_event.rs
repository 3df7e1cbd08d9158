use crate::digest::{bs58check_of, lex_less, Digest};
use crate::{Address, BlockId, ModelsError, Slot, EVENT_ID_SIZE_BYTES};
use core::cmp::Ordering;
use std::collections::VecDeque;
use vstd::prelude::*;
use vstd::std_specs::cmp::PartialOrdSpec;

verus! {

/// Identity of a single output event: a digest with byte and checksummed-text
/// codecs, total structural ordering, and container-key hashing over the
/// digest bytes.
#[derive(Clone, Copy, Debug, PartialEq, Eq, Ord, Hash)]
pub struct SCOutputEventId(pub Digest);

impl View for SCOutputEventId {
    type V = Seq<u8>;

    open spec fn view(&self) -> Seq<u8> {
        self.0@
    }
}

/// The exact-size byte encoding of an identity: the digest bytes themselves.
pub open spec fn spec_to_fixed_bytes(e: SCOutputEventId) -> [u8; EVENT_ID_SIZE_BYTES] {
    e.0.0
}

/// Decoding an exact-size byte encoding: every such byte string is a valid
/// digest, so this always succeeds.
pub open spec fn spec_from_fixed_bytes(b: [u8; EVENT_ID_SIZE_BYTES]) -> Result<
    SCOutputEventId,
    ModelsError,
> {
    Ok(SCOutputEventId(Digest(b)))
}

impl vstd::std_specs::cmp::PartialOrdSpecImpl for SCOutputEventId {
    open spec fn obeys_partial_cmp_spec() -> bool {
        true
    }

    /// Identities are totally ordered by the lexicographic order of their
    /// byte encodings.
    open spec fn partial_cmp_spec(&self, other: &Self) -> Option<Ordering> {
        if lex_less(self@, other@) {
            Some(Ordering::Less)
        } else if lex_less(other@, self@) {
            Some(Ordering::Greater)
        } else {
            Some(Ordering::Equal)
        }
    }
}

impl PartialOrd for SCOutputEventId {
    fn partial_cmp(&self, other: &Self) -> (r: Option<Ordering>) {
        Some(crate::digest::lex_cmp_bytes(&self.0.0, &other.0.0))
    }
}

/// What decoding a checksummed string must return: `Ok` exactly on the
/// canonical Base58Check encoding of some digest, carrying that digest; the
/// single hash-decode error on every other string.
pub open spec fn decodes_to(s: Seq<char>, r: Result<SCOutputEventId, ModelsError>) -> bool {
    &&& (r matches Ok(e) ==> s == bs58check_of(e@))
    &&& (r matches Err(err) ==> err == ModelsError::HashError)
    &&& (forall|b: Seq<u8>|
        b.len() == EVENT_ID_SIZE_BYTES && #[trigger] bs58check_of(b) == s ==> (r matches Ok(e)
            && e@ == b))
}

impl SCOutputEventId {
    /// Exact-size byte encoding of the identity's digest. Pure; never fails.
    /// These bytes also serve as the identity's precomputed container-key
    /// hash: looking the identity up in a map or set needs no rehash of a
    /// variable-length payload.
    pub fn to_bytes(&self) -> (r: [u8; EVENT_ID_SIZE_BYTES])
        ensures
            r == spec_to_fixed_bytes(*self),
            r@ == self@,
    {
        self.0.0
    }

    /// Exact-size byte encoding, consuming the identity.
    pub fn into_bytes(self) -> (r: [u8; EVENT_ID_SIZE_BYTES])
        ensures
            r == spec_to_fixed_bytes(self),
            r@ == self@,
    {
        self.0.0
    }

    /// Reconstructs an identity from exactly `EVENT_ID_SIZE_BYTES` bytes.
    /// Every such byte string is a valid digest, so this always succeeds and
    /// round-trips with `to_bytes`.
    pub fn from_bytes(data: &[u8; EVENT_ID_SIZE_BYTES]) -> (r: Result<
        SCOutputEventId,
        ModelsError,
    >)
        ensures
            r == spec_from_fixed_bytes(*data),
    {
        Ok(SCOutputEventId(Digest(*data)))
    }

    /// Reconstructs an identity from a byte slice: succeeds exactly when the
    /// slice holds `EVENT_ID_SIZE_BYTES` bytes, and fails with the hash-decode
    /// error on every other length.
    pub fn from_byte_slice(data: &[u8]) -> (r: Result<SCOutputEventId, ModelsError>)
        ensures
            data@.len() == EVENT_ID_SIZE_BYTES ==> (r matches Ok(e) && e@ == data@),
            data@.len() != EVENT_ID_SIZE_BYTES ==> r == Err::<SCOutputEventId, ModelsError>(
                ModelsError::HashError,
            ),
    {
        if data.len() != EVENT_ID_SIZE_BYTES {
            return Err(ModelsError::HashError);
        }
        let mut bytes = [0u8; EVENT_ID_SIZE_BYTES];
        let mut i: usize = 0;
        while i < EVENT_ID_SIZE_BYTES
            invariant
                i <= EVENT_ID_SIZE_BYTES,
                data@.len() == EVENT_ID_SIZE_BYTES,
                forall|j: int| 0 <= j < i ==> bytes@[j] == data@[j],
            decreases EVENT_ID_SIZE_BYTES - i,
        {
            bytes[i] = data[i];
            i = i + 1;
        }
        proof {
            assert(bytes@ =~= data@);
        }
        Ok(SCOutputEventId(Digest(bytes)))
    }

    /// Canonical checksummed text encoding of the identity. Deterministic and
    /// total: it never fails.
    pub fn to_bs58_check(&self) -> (r: String)
        ensures
            r@ == bs58check_of(self@),
    {
        crate::digest::bs58check_encode(self.0.0.as_slice())
    }

    /// Decodes and checksum-validates the canonical text encoding: succeeds
    /// exactly on the encoding of some digest, returning the identity over
    /// that digest, and fails with the hash-decode error on every malformed
    /// or checksum-corrupted string.
    pub fn from_bs58_check(data: &str) -> (r: Result<SCOutputEventId, ModelsError>)
        ensures
            decodes_to(data@, r),
    {
        match crate::digest::bs58check_decode(data) {
            Ok(v) => match Self::from_byte_slice(v.as_slice()) {
                Ok(e) => Ok(e),
                Err(_) => Err(ModelsError::HashError),
            },
            Err(_) => Err(ModelsError::HashError),
        }
    }

    /// Parses an identity from a string. There is only one textual grammar
    /// for identities, so this is exactly `from_bs58_check`.
    pub fn from_str(s: &str) -> (r: Result<SCOutputEventId, ModelsError>)
        ensures
            decodes_to(s@, r),
    {
        Self::from_bs58_check(s)
    }
}

/// Byte round-trip law: decoding the exact-size byte encoding of any identity
/// yields that identity back.
pub proof fn lemma_byte_round_trip(e: SCOutputEventId)
    ensures
        spec_from_fixed_bytes(spec_to_fixed_bytes(e)) == Ok::<SCOutputEventId, ModelsError>(e),
{
}

/// Text round-trip law: any result that the checksummed-string decode
/// relation allows on the encoding of an identity is that identity itself.
/// `to_bs58_check` returns `bs58check_of(e@)` and `from_bs58_check` returns a
/// result satisfying `decodes_to`, so composing the two always restores `e`.
pub proof fn lemma_text_round_trip(e: SCOutputEventId, r: Result<SCOutputEventId, ModelsError>)
    requires
        decodes_to(bs58check_of(e@), r),
    ensures
        r == Ok::<SCOutputEventId, ModelsError>(e),
{
    assert(e@.len() == EVENT_ID_SIZE_BYTES);
    assert(r matches Ok(d) && d@ == e@) by {
        assert(bs58check_of(e@) == bs58check_of(e@));
    }
    let d = r->Ok_0;
    assert(d.0.0 =~= e.0.0);
}

/// Parse-equivalence law: the decode relation pins its result, so any two
/// functions that satisfy it on the same string — `from_str` and
/// `from_bs58_check` both do — return identical results: both the same
/// identity, or both the same error.
pub proof fn lemma_parse_deterministic(
    s: Seq<char>,
    r1: Result<SCOutputEventId, ModelsError>,
    r2: Result<SCOutputEventId, ModelsError>,
)
    requires
        decodes_to(s, r1),
        decodes_to(s, r2),
    ensures
        r1 == r2,
{
    if r1 is Ok {
        let e1 = r1->Ok_0;
        assert(r2 matches Ok(e) && e@ == e1@) by {
            assert(e1@.len() == EVENT_ID_SIZE_BYTES);
            assert(bs58check_of(e1@) == s);
        }
        let e2 = r2->Ok_0;
        assert(e1.0.0 =~= e2.0.0);
    } else {
        if r2 is Ok {
            let e2 = r2->Ok_0;
            assert(e2@.len() == EVENT_ID_SIZE_BYTES);
            assert(bs58check_of(e2@) == s);
            assert(r1 matches Ok(e) && e@ == e2@);
            assert(false);
        }
    }
}

/// Ordering-consistency law: one identity is strictly below another exactly
/// when its byte encoding is lexicographically smaller; they compare equal
/// exactly when their byte encodings are identical.
pub proof fn lemma_ordering_consistency(a: SCOutputEventId, b: SCOutputEventId)
    ensures
        a.partial_cmp_spec(&b) == Some(Ordering::Less) <==> lex_less(a@, b@),
        a.partial_cmp_spec(&b) == Some(Ordering::Greater) <==> lex_less(b@, a@),
        a.partial_cmp_spec(&b) == Some(Ordering::Equal) <==> a@ == b@,
{
    if a@ == b@ {
        crate::digest::lemma_lex_irreflexive(a@, b@);
    }
    if !lex_less(a@, b@) && !lex_less(b@, a@) {
        assert(a@ =~= b@) by {
            if exists|k: int| 0 <= k < a@.len() && #[trigger] a@[k] != b@[k] {
                let k = choose|k: int| 0 <= k < a@.len() && #[trigger] a@[k] != b@[k];
                let f = choose|f: int|
                    0 <= f < a@.len() && #[trigger] a@[f] != b@[f] && (forall|j: int|
                        0 <= j < f ==> a@[j] == b@[j]);
                assert(exists|f: int|
                    0 <= f < a@.len() && #[trigger] a@[f] != b@[f] && (forall|j: int|
                        0 <= j < f ==> a@[j] == b@[j])) by {
                    lemma_first_difference(a@, b@, k);
                }
                if a@[f] < b@[f] {
                    assert(lex_less(a@, b@));
                } else {
                    assert((#[trigger] b@[f]) < a@[f]);
                    assert(lex_less(b@, a@));
                }
                assert(false);
            }
        }
    }
}

/// Below any index where two equal-length sequences differ there is a first
/// index where they differ.
proof fn lemma_first_difference(a: Seq<u8>, b: Seq<u8>, k: int)
    requires
        a.len() == b.len(),
        0 <= k < a.len(),
        a[k] != b[k],
    ensures
        exists|f: int|
            0 <= f < a.len() && #[trigger] a[f] != b[f] && (forall|j: int|
                0 <= j < f ==> a[j] == b[j]),
    decreases k,
{
    if forall|j: int| 0 <= j < k ==> a[j] == b[j] {
        assert(0 <= k < a.len() && a[k] != b[k] && (forall|j: int| 0 <= j < k ==> a[j] == b[j]));
    } else {
        let k2 = choose|k2: int| 0 <= k2 < k && #[trigger] a[k2] != b[k2];
        lemma_first_difference(a, b, k2);
    }
}

/// Causal context attached to an event: where and how it was produced.
/// Consumers never mutate a context in place; every transformation builds a
/// new value or appends to the tail of the call stack.
#[derive(Clone, Debug)]
pub struct EventExecutionContext {
    /// Logical time unit the event belongs to.
    pub slot: Slot,
    /// Block produced at that slot, absent on a miss or outside block
    /// production.
    pub block: Option<BlockId>,
    /// True when the event came from a speculative, non-committing execution.
    pub read_only: bool,
    /// Zero-based position among the events of the same slot and `read_only`
    /// domain; the producer keeps it unique within that pair.
    pub index_in_slot: u64,
    /// Nested contract-call chain, oldest first and most recent at the end.
    pub call_stack: VecDeque<Address>,
}

impl EventExecutionContext {
    /// Builds a context. The call stack is kept exactly as supplied: same
    /// addresses, same order, no reordering and no deduplication.
    pub fn new(
        slot: Slot,
        block: Option<BlockId>,
        read_only: bool,
        index_in_slot: u64,
        call_stack: VecDeque<Address>,
    ) -> (r: EventExecutionContext)
        ensures
            r.slot == slot,
            r.block == block,
            r.read_only == read_only,
            r.index_in_slot == index_in_slot,
            r.call_stack@ == call_stack@,
    {
        EventExecutionContext { slot, block, read_only, index_in_slot, call_stack }
    }

    /// Appends the most recent call to the tail of the call stack; everything
    /// already recorded keeps its place, and no other field changes.
    pub fn push_call(&mut self, address: Address)
        ensures
            final(self).call_stack@ == old(self).call_stack@.push(address),
            final(self).slot == old(self).slot,
            final(self).block == old(self).block,
            final(self).read_only == old(self).read_only,
            final(self).index_in_slot == old(self).index_in_slot,
    {
        self.call_stack.push_back(address);
    }

    /// Removes and returns the most recent call from the tail of the call
    /// stack, or `None` when the stack is empty; the rest keeps its order,
    /// and no other field changes.
    pub fn pop_call(&mut self) -> (r: Option<Address>)
        ensures
            old(self).call_stack@.len() == 0 ==> r is None && final(self).call_stack@ == old(
                self,
            ).call_stack@,
            old(self).call_stack@.len() > 0 ==> r == Some(
                old(self).call_stack@.last(),
            ) && final(self).call_stack@ == old(self).call_stack@.drop_last(),
            final(self).slot == old(self).slot,
            final(self).block == old(self).block,
            final(self).read_only == old(self).read_only,
            final(self).index_in_slot == old(self).index_in_slot,
    {
        self.call_stack.pop_back()
    }
}

/// By-product of a byte-code execution: an identity, the context that
/// produced the event, and an opaque textual payload.
#[derive(Clone, Debug)]
pub struct SCOutputEvent {
    /// Event identity, derived externally from the producing slot, the
    /// `read_only` domain and the index in the slot.
    pub id: SCOutputEventId,
    /// Causal context generated by the execution engine.
    pub context: EventExecutionContext,
    /// Opaque payload text; this crate neither parses nor validates it.
    pub data: String,
}

impl SCOutputEvent {
    /// Assembles an event from its identity, context and payload, keeping
    /// each part exactly as supplied.
    pub fn new(id: SCOutputEventId, context: EventExecutionContext, data: String) -> (r:
        SCOutputEvent)
        ensures
            r.id == id,
            r.context == context,
            r.data == data,
    {
        SCOutputEvent { id, context, data }
    }
}

} // verus!
