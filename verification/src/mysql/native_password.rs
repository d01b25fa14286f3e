//! The server's side of the `mysql_native_password` authentication.
//!
//! The server stores `SHA1(SHA1(password))`. For each connection it sends a
//! random challenge, and the client answers
//! `SHA1(password) XOR SHA1(challenge || SHA1(SHA1(password)))`. The server
//! takes the mask off again, hashes what is left and compares.
//!
//! The stored value is as good as the password: whoever reads it can answer
//! any challenge. And the challenge must be fresh, or an answer could be
//! replayed.
use sha1::{Digest, Sha1};
use vstd::prelude::*;

verus! {

/// The SHA-1 digest of bytes.
pub uninterp spec fn sha1_of(data: Seq<u8>) -> [u8; 20];

/// `Sha1::digest` gives the SHA-1 digest of the bytes, which the bytes alone
/// determine.
#[verifier::external_body]
fn sha1_digest(data: &[u8]) -> (r: [u8; 20])
    ensures
        r == sha1_of(data@),
{
    Sha1::digest(data).into()
}

/// What a server stores for a password.
pub open spec fn stored_for(password: Seq<u8>) -> [u8; 20] {
    sha1_of(sha1_of(password)@)
}

/// The first twenty bytes of `a` and `b`, combined by XOR.
pub open spec fn masked(a: Seq<u8>, b: Seq<u8>) -> Seq<u8> {
    Seq::new(20, |i: int| a[i] ^ b[i])
}

/// What a client with the password answers to the challenge.
pub open spec fn answer(password: Seq<u8>, salt: Seq<u8>) -> Seq<u8> {
    masked(sha1_of(password)@, sha1_of(salt + stored_for(password)@)@)
}

/// The answer proves the password behind the stored value.
pub open spec fn proves(stored: [u8; 20], salt: Seq<u8>, response: Seq<u8>) -> bool {
    &&& response.len() == 20
    &&& sha1_of(masked(response, sha1_of(salt + stored@)@))@ == stored@
}

/// The value to store for `password`.
pub fn password_hash(password: &[u8]) -> (r: [u8; 20])
    ensures
        r == stored_for(password@),
{
    let stage1 = sha1_digest(password);
    sha1_digest(stage1.as_slice())
}

/// Checks a client's answer to the challenge `salt` against the stored value.
/// An answer of any length but twenty is refused.
pub fn verify(stored_hash: &[u8; 20], salt: &[u8], auth_response: &[u8]) -> (r: bool)
    ensures
        r == proves(*stored_hash, salt@, auth_response@),
{
    if auth_response.len() != 20 {
        return false;
    }
    let mut input: Vec<u8> = Vec::new();
    input.extend_from_slice(salt);
    input.extend_from_slice(stored_hash.as_slice());
    assert(input@ == salt@ + stored_hash@);
    let mask = sha1_digest(input.as_slice());
    let mut stage1: Vec<u8> = Vec::new();
    let mut i: usize = 0;
    while i < 20
        invariant
            i <= 20,
            auth_response@.len() == 20,
            stage1@ == masked(auth_response@, mask@).take(i as int),
        decreases 20 - i,
    {
        stage1.push(auth_response[i] ^ mask[i]);
        i += 1;
        assert(stage1@ =~= masked(auth_response@, mask@).take(i as int));
    }
    assert(stage1@ =~= masked(auth_response@, mask@));
    let candidate = sha1_digest(stage1.as_slice());
    constant_time_eq(&candidate, stored_hash)
}

proof fn lemma_differences(diff: u8, a: u8, b: u8)
    ensures
        (diff | (a ^ b)) == 0 <==> diff == 0 && a == b,
{
    assert((diff | (a ^ b)) == 0 <==> diff == 0 && a == b) by (bit_vector);
}

/// Compares two digests without stopping at the first difference.
pub fn constant_time_eq(a: &[u8; 20], b: &[u8; 20]) -> (r: bool)
    ensures
        r == (a@ == b@),
{
    let mut diff: u8 = 0;
    let mut i: usize = 0;
    while i < 20
        invariant
            i <= 20,
            diff == 0 <==> forall|j: int| 0 <= j < i ==> a@[j] == b@[j],
        decreases 20 - i,
    {
        proof {
            lemma_differences(diff, a@[i as int], b@[i as int]);
        }
        diff = diff | (a[i] ^ b[i]);
        i += 1;
    }
    assert(diff == 0 ==> a@ =~= b@);
    diff == 0
}

/// A client that knows the password is accepted, whatever the challenge.
pub proof fn law_correct_password_verifies(password: Seq<u8>, salt: Seq<u8>)
    ensures
        proves(stored_for(password), salt, answer(password, salt)),
{
    let stage1 = sha1_of(password)@;
    let mask = sha1_of(salt + stored_for(password)@)@;
    assert(masked(answer(password, salt), mask) =~= stage1) by {
        assert forall|i: int| 0 <= i < 20 implies masked(answer(password, salt), mask)[i]
            == stage1[i] by {
            let x = stage1[i];
            let m = mask[i];
            assert((x ^ m) ^ m == x) by (bit_vector);
        }
    }
}

/// An accepted answer is a preimage of the stored value, masked with the
/// digest of the challenge and that value.
pub proof fn law_accepted_answer_holds_a_preimage(
    stored: [u8; 20],
    salt: Seq<u8>,
    response: Seq<u8>,
)
    requires
        proves(stored, salt, response),
    ensures
        exists|stage1: Seq<u8>|
            stage1.len() == 20 && sha1_of(stage1)@ == stored@ && response == #[trigger] masked(
                stage1,
                sha1_of(salt + stored@)@,
            ),
{
    let mask = sha1_of(salt + stored@)@;
    let stage1 = masked(response, mask);
    assert(masked(stage1, mask) =~= response) by {
        assert forall|i: int| 0 <= i < 20 implies masked(stage1, mask)[i] == response[i] by {
            let x = response[i];
            let m = mask[i];
            assert((x ^ m) ^ m == x) by (bit_vector);
        }
    }
}

} // verus!
