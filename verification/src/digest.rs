use crate::EVENT_ID_SIZE_BYTES;
use vstd::prelude::*;

verus! {

/// Fixed-size cryptographic digest backing an event identity.
///
/// The digest bytes are produced by an external hash primitive; this crate
/// never computes them. It treats a digest as an opaque fixed-length byte
/// string and defines only its encodings and its ordering.
#[derive(Clone, Copy, Debug, PartialEq, Eq, PartialOrd, Ord, Hash)]
pub struct Digest(pub [u8; EVENT_ID_SIZE_BYTES]);

impl View for Digest {
    type V = Seq<u8>;

    open spec fn view(&self) -> Seq<u8> {
        self.0@
    }
}

/// The Base58Check string that encodes a given byte string.
pub uninterp spec fn bs58check_of(b: Seq<u8>) -> Seq<char>;

/// Declares bs58's decode error type so that the decode wrapper can return it.
#[verifier::external_type_specification]
#[verifier::external_body]
pub struct ExBs58DecodeError(bs58::decode::Error);

/// Relies on `bs58::encode(..).with_check().into_string()`: Base58Check
/// encoding, a deterministic function of the input bytes alone.
#[verifier::external_body]
pub(crate) fn bs58check_encode(b: &[u8]) -> (r: String)
    ensures
        r@ == bs58check_of(b@),
{
    bs58::encode(b).with_check().into_string()
}

/// Relies on `bs58::decode(..).with_check(None).into_vec()`: decoding succeeds
/// exactly on canonical Base58Check strings, and on those it is the inverse of
/// encoding (it returns the unique byte string whose encoding is the input).
#[verifier::external_body]
pub(crate) fn bs58check_decode(s: &str) -> (r: Result<Vec<u8>, bs58::decode::Error>)
    ensures
        r matches Ok(v) ==> s@ == bs58check_of(v@) && (forall|b: Seq<u8>|
            #[trigger] bs58check_of(b) == s@ ==> v@ == b),
        r matches Err(e) ==> forall|b: Seq<u8>| #[trigger] bs58check_of(b) != s@,
{
    bs58::decode(s).with_check(None).into_vec()
}

/// Strict lexicographic order on byte strings: `a` comes before `b` when the
/// first differing byte is smaller, or when `a` is a proper prefix of `b`.
pub open spec fn lex_less(a: Seq<u8>, b: Seq<u8>) -> bool {
    ||| exists|i: int|
        {
            &&& 0 <= i < a.len()
            &&& i < b.len()
            &&& forall|j: int| 0 <= j < i ==> a[j] == b[j]
            &&& (#[trigger] a[i]) < b[i]
        }
    ||| (a.len() < b.len() && (forall|j: int| 0 <= j < a.len() ==> a[j] == b[j]))
}

/// Compares two digests' byte encodings lexicographically.
pub fn lex_cmp_bytes(a: &[u8; EVENT_ID_SIZE_BYTES], b: &[u8; EVENT_ID_SIZE_BYTES]) -> (r:
    core::cmp::Ordering)
    ensures
        r == core::cmp::Ordering::Less <==> lex_less(a@, b@),
        r == core::cmp::Ordering::Greater <==> lex_less(b@, a@),
        r == core::cmp::Ordering::Equal <==> a@ == b@,
{
    let mut i: usize = 0;
    while i < EVENT_ID_SIZE_BYTES
        invariant
            i <= EVENT_ID_SIZE_BYTES,
            forall|j: int| 0 <= j < i ==> a@[j] == b@[j],
        decreases EVENT_ID_SIZE_BYTES - i,
    {
        if a[i] < b[i] {
            proof {
                lemma_lex_less_at(a@, b@, i as int);
            }
            return core::cmp::Ordering::Less;
        }
        if a[i] > b[i] {
            proof {
                lemma_lex_less_at(b@, a@, i as int);
            }
            return core::cmp::Ordering::Greater;
        }
        i = i + 1;
    }
    proof {
        assert(a@ =~= b@);
        lemma_lex_irreflexive(a@, b@);
    }
    core::cmp::Ordering::Equal
}

/// When two equal-length byte strings agree strictly below `i` and differ at
/// `i` in `a`'s favour, `a` is lexicographically smaller and `b` is not.
proof fn lemma_lex_less_at(a: Seq<u8>, b: Seq<u8>, i: int)
    requires
        a.len() == b.len(),
        0 <= i < a.len(),
        forall|j: int| 0 <= j < i ==> a[j] == b[j],
        a[i] < b[i],
    ensures
        lex_less(a, b),
        !lex_less(b, a),
{
    assert((#[trigger] a[i]) < b[i]);
    assert forall|k: int|
        !{
            &&& 0 <= k < b.len()
            &&& k < a.len()
            &&& forall|j: int| 0 <= j < k ==> b[j] == a[j]
            &&& (#[trigger] b[k]) < a[k]
        } by {
        if 0 <= k < b.len() && k < a.len() && (forall|j: int| 0 <= j < k ==> b[j] == a[j]) {
            if k < i {
                assert(a[k] == b[k]);
            } else if k == i {
                assert(!(b[k] < a[k]));
            } else {
                assert(b[i] == a[i]);
                assert(false);
            }
        }
    }
}

/// Equal byte strings are lexicographically smaller in neither direction.
pub(crate) proof fn lemma_lex_irreflexive(a: Seq<u8>, b: Seq<u8>)
    requires
        a == b,
    ensures
        !lex_less(a, b),
        !lex_less(b, a),
{
    assert forall|k: int| !(0 <= k < a.len() && (#[trigger] a[k]) < b[k]) by {
        if 0 <= k < a.len() {
            assert(a[k] == b[k]);
        }
    }
    assert forall|k: int| !(0 <= k < b.len() && (#[trigger] b[k]) < a[k]) by {
        if 0 <= k < b.len() {
            assert(a[k] == b[k]);
        }
    }
}

} // verus!
