//! The rules of the network, as mathematics: when a number is a proof of
//! work, when a chain is valid, and which of the chains that peers report
//! replaces the local one.

use vstd::prelude::*;
use crate::block::{block_hash, BlockView};
use crate::digest::{ends_with_zeros, fingerprint_of, DIFFICULTY};
use crate::error::PeerError;
use crate::text::decimal;

verus! {

/// The text whose fingerprint decides on a candidate proof: the decimal
/// numerals of the last proof and of the candidate, then the last hash.
pub open spec fn guess_text(last_proof: u64, proof: u64, last_hash: Seq<char>) -> Seq<char> {
    decimal(last_proof as nat) + decimal(proof as nat) + last_hash
}

/// `proof` is a proof of work after `last_proof` and `last_hash`: the
/// fingerprint of their guess text ends with `DIFFICULTY` zero digits.
pub open spec fn is_valid_proof(last_proof: u64, proof: u64, last_hash: Seq<char>) -> bool {
    ends_with_zeros(fingerprint_of(guess_text(last_proof, proof, last_hash)), DIFFICULTY as nat)
}

/// `next` may follow `previous` in a chain: it names the fingerprint of
/// `previous`, and its proof is one after the proof of `previous` and the
/// hash that `previous` names.
pub open spec fn valid_link(previous: BlockView, next: BlockView) -> bool {
    &&& next.previous_hash == block_hash(previous)
    &&& is_valid_proof(previous.proof, next.proof, previous.previous_hash)
}

/// The block at position `i` of `chain` may follow the one before it.
pub open spec fn link_holds(chain: Seq<BlockView>, i: int) -> bool {
    valid_link(chain[i - 1], chain[i])
}

/// Every block of `chain` but the first may follow the one before it. The
/// empty chain and a chain of one block are valid.
pub open spec fn is_valid_chain(chain: Seq<BlockView>) -> bool {
    forall|i: int| 0 < i < chain.len() ==> #[trigger] link_holds(chain, i)
}

/// What a peer reports of its chain: the blocks and the length it declares.
pub struct ChainView {
    pub chain: Seq<BlockView>,
    pub length: usize,
}

/// What came back from one peer.
pub type Response = Result<ChainView, PeerError>;

/// The response is a candidate for a node whose chain has `local_len`
/// blocks: it arrived, it declares more blocks than that, and its chain is
/// valid and holds a block. A response without blocks is never a candidate,
/// whatever length it declares: the chain of a node that has started is
/// never empty.
pub open spec fn qualifies(local_len: nat, response: Response) -> bool {
    match response {
        Ok(candidate) => {
            &&& candidate.length > local_len
            &&& candidate.chain.len() > 0
            &&& is_valid_chain(candidate.chain)
        },
        Err(_) => false,
    }
}

/// The length that a response declares; zero where none arrived.
pub open spec fn declared_length(response: Response) -> nat {
    match response {
        Ok(candidate) => candidate.length as nat,
        Err(_) => 0,
    }
}

/// The response at position `w` prevails: it is a candidate, no candidate
/// declares more blocks, and every candidate before it declares fewer.
pub open spec fn prevails(local_len: nat, responses: Seq<Response>, w: int) -> bool {
    &&& 0 <= w < responses.len()
    &&& qualifies(local_len, responses[w])
    &&& forall|j: int|
        0 <= j < responses.len() && qualifies(local_len, #[trigger] responses[j]) ==> {
            &&& declared_length(responses[j]) <= declared_length(responses[w])
            &&& j < w ==> declared_length(responses[j]) < declared_length(responses[w])
        }
}

/// The position of the response that prevails, where there is a candidate.
pub open spec fn winner(local_len: nat, responses: Seq<Response>) -> Option<int> {
    if exists|w: int| prevails(local_len, responses, w) {
        Some(choose|w: int| prevails(local_len, responses, w))
    } else {
        None
    }
}

/// At most one response prevails.
pub proof fn prevailing_is_unique(local_len: nat, responses: Seq<Response>, a: int, b: int)
    requires
        prevails(local_len, responses, a),
        prevails(local_len, responses, b),
    ensures
        a == b,
{
}

/// A response that prevails among the first `n - 1` responses prevails among
/// the first `n` as well, unless the one that comes in is a candidate and
/// declares more blocks.
pub proof fn prevailing_stays(local_len: nat, responses: Seq<Response>, n: int, w: int)
    requires
        0 < n <= responses.len(),
        prevails(local_len, responses.take(n - 1), w),
        !(qualifies(local_len, responses[n - 1]) && declared_length(responses[n - 1])
            > declared_length(responses[w])),
    ensures
        prevails(local_len, responses.take(n), w),
{
    let after = responses.take(n);
    assert forall|j: int|
        0 <= j < after.len() && qualifies(local_len, #[trigger] after[j]) implies {
        &&& declared_length(after[j]) <= declared_length(after[w])
        &&& j < w ==> declared_length(after[j]) < declared_length(after[w])
    } by {
        if j < n - 1 {
            assert(responses.take(n - 1)[j] == after[j]);
        }
    }
}

/// A candidate that declares more blocks than every candidate before it
/// prevails among the responses up to itself.
pub proof fn newcomer_prevails(local_len: nat, responses: Seq<Response>, n: int)
    requires
        0 < n <= responses.len(),
        qualifies(local_len, responses[n - 1]),
        forall|j: int|
            0 <= j < n - 1 && qualifies(local_len, #[trigger] responses[j]) ==> declared_length(
                responses[j],
            ) < declared_length(responses[n - 1]),
    ensures
        prevails(local_len, responses.take(n), n - 1),
{
    let after = responses.take(n);
    assert forall|j: int|
        0 <= j < after.len() && qualifies(local_len, #[trigger] after[j]) implies {
        &&& declared_length(after[j]) <= declared_length(after[n - 1])
        &&& j < n - 1 ==> declared_length(after[j]) < declared_length(after[n - 1])
    } by {
        if j < n - 1 {
            assert(after[j] == responses[j]);
        }
    }
}

/// Where a response prevails, it is the winner.
pub proof fn prevailing_wins(local_len: nat, responses: Seq<Response>, w: int)
    requires
        prevails(local_len, responses, w),
    ensures
        winner(local_len, responses) == Some(w),
{
    let chosen = choose|c: int| prevails(local_len, responses, c);
    prevailing_is_unique(local_len, responses, chosen, w);
}

/// Where no response is a candidate, there is no winner.
pub proof fn no_candidate_no_winner(local_len: nat, responses: Seq<Response>)
    requires
        forall|j: int| 0 <= j < responses.len() ==> !qualifies(local_len, #[trigger] responses[j]),
    ensures
        winner(local_len, responses) is None,
{
}

} // verus!
