use vstd::prelude::*;

verus! {

/// The SHA-256 digest of a byte string, as the host hash function computes
/// it. The digest depends on the input bytes alone.
pub uninterp spec fn sha256_of(bytes: Seq<u8>) -> Seq<u8>;

/// Relies on near_sdk::env::sha256: it returns the 32-byte SHA-256 digest of
/// the input, a pure function of the input bytes.
#[verifier::external_body]
fn sha256_bytes(bytes: &Vec<u8>) -> (r: Vec<u8>)
    ensures
        r@ == sha256_of(bytes@),
        r@.len() == 32,
{
    near_sdk::env::sha256(bytes.as_slice())
}

/// The digest a board creator publishes as the commitment to a solution,
/// and the digest `reveal` checks that commitment against.
pub fn solution_digest(solution: &Vec<u8>) -> (r: Vec<u8>)
    ensures
        r@ == sha256_of(solution@),
        r@.len() == 32,
{
    sha256_bytes(solution)
}

/// Byte-for-byte equality of two byte strings.
pub fn bytes_equal(a: &Vec<u8>, b: &Vec<u8>) -> (r: bool)
    ensures
        r == (a@ == b@),
{
    if a.len() != b.len() {
        return false;
    }
    let mut i: usize = 0;
    while i < a.len()
        invariant
            i <= a.len(),
            a.len() == b.len(),
            forall|j: int| 0 <= j < i ==> a@[j] == b@[j],
        decreases a.len() - i,
    {
        if a[i] != b[i] {
            return false;
        }
        i = i + 1;
    }
    proof {
        assert(a@ =~= b@);
    }
    true
}

} // verus!
