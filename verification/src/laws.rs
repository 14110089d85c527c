//! What holds of the ledger whatever it is fed: the laws that bind its
//! operations to one another.

use vstd::prelude::*;
use crate::block::{block_hash, Block, BlockView, TransactionView};
use crate::blockchain::LedgerView;
use crate::consensus::{
    declared_length, is_valid_chain, is_valid_proof, link_holds, newcomer_prevails,
    prevailing_stays, prevailing_wins, prevails, qualifies, winner, Response,
};
use crate::peers::{well_formed, with_location};
use crate::timestamp::Timestamp;

verus! {

/// In a valid chain every block but the first names the fingerprint of the
/// block before it, and carries a proof of work after that block's proof and
/// the hash that that block names.
pub proof fn valid_chain_binds_neighbours(chain: Seq<BlockView>, i: int)
    requires
        is_valid_chain(chain),
        0 < i < chain.len(),
    ensures
        chain[i].previous_hash == block_hash(chain[i - 1]),
        is_valid_proof(chain[i - 1].proof, chain[i].proof, chain[i - 1].previous_hash),
{
    assert(link_holds(chain, i));
}

/// A chain is valid as soon as each two neighbours in it are bound.
pub proof fn bound_neighbours_make_valid_chain(chain: Seq<BlockView>)
    requires
        forall|i: int|
            0 < i < chain.len() ==> {
                &&& (#[trigger] chain[i]).previous_hash == block_hash(chain[i - 1])
                &&& is_valid_proof(chain[i - 1].proof, chain[i].proof, chain[i - 1].previous_hash)
            },
    ensures
        is_valid_chain(chain),
{
    assert forall|i: int| 0 < i < chain.len() implies #[trigger] link_holds(chain, i) by {
        assert(chain[i].previous_hash == block_hash(chain[i - 1]));
    }
}

/// The ledger of a node that starts holds one block, the genesis block: its
/// index is 1, its proof is 100, the hash it names is `1`, and it holds no
/// transaction. Nothing is pending and no peer is known.
pub proof fn genesis_is_fixed(at: Timestamp)
    ensures
        LedgerView::genesis(at).chain.len() == 1,
        LedgerView::genesis(at).chain[0].index == 1,
        LedgerView::genesis(at).chain[0].proof == 100,
        LedgerView::genesis(at).chain[0].previous_hash == "1"@,
        LedgerView::genesis(at).chain[0].transactions.len() == 0,
        LedgerView::genesis(at).chain[0].timestamp == at,
        LedgerView::genesis(at).pending.len() == 0,
        LedgerView::genesis(at).peers.len() == 0,
{
}

/// A block that is forged right after a transaction was added holds exactly
/// what was pending before, in its order, and then that transaction; the pool
/// is empty afterwards, and the chain before the block is as it was.
pub proof fn block_takes_what_was_pending(
    ledger: LedgerView,
    transaction: TransactionView,
    proof: u64,
    previous_hash: Seq<char>,
    at: Timestamp,
)
    ensures
        ({
            let after = ledger.with_transaction(transaction).with_block(proof, previous_hash, at);
            &&& after.pending.len() == 0
            &&& after.chain.len() == ledger.chain.len() + 1
            &&& after.chain.last().transactions == ledger.pending.push(transaction)
            &&& after.chain.drop_last() == ledger.chain
            &&& after.peers == ledger.peers
        }),
{
    let after = ledger.with_transaction(transaction).with_block(proof, previous_hash, at);
    assert(after.chain.drop_last() =~= ledger.chain);
}

/// Adding transactions touches the pool alone: they come behind what was
/// pending, in the order in which they were added.
pub proof fn transactions_queue_in_order(ledger: LedgerView, submitted: Seq<TransactionView>)
    ensures
        ledger.with_transactions(submitted).pending == ledger.pending + submitted,
        ledger.with_transactions(submitted).chain == ledger.chain,
        ledger.with_transactions(submitted).peers == ledger.peers,
    decreases submitted.len(),
{
    if submitted.len() == 0 {
        assert(ledger.pending + submitted =~= ledger.pending);
    } else {
        transactions_queue_in_order(ledger, submitted.drop_last());
        assert(ledger.pending + submitted =~= (ledger.pending + submitted.drop_last()).push(
            submitted.last(),
        ));
    }
}

/// Whatever transactions are added between the moment a search for a proof
/// starts and the moment its block is forged, the block holds each of them
/// once, behind what was pending when the search started, and none is left
/// in the pool. The search itself does not touch the ledger.
pub proof fn every_transaction_lands_once(
    ledger: LedgerView,
    submitted: Seq<TransactionView>,
    proof: u64,
    previous_hash: Seq<char>,
    at: Timestamp,
)
    ensures
        ({
            let after = ledger.with_transactions(submitted).with_block(proof, previous_hash, at);
            &&& after.chain.last().transactions == ledger.pending + submitted
            &&& after.pending.len() == 0
            &&& after.chain.drop_last() == ledger.chain
        }),
{
    transactions_queue_in_order(ledger, submitted);
    let after = ledger.with_transactions(submitted).with_block(proof, previous_hash, at);
    assert(after.chain.drop_last() =~= ledger.chain);
}

/// The fingerprint of a block is decided by what the block holds: two blocks
/// that hold the same have the same fingerprint.
pub proof fn equal_blocks_have_equal_hashes(a: Block, b: Block)
    requires
        a@ == b@,
    ensures
        block_hash(a@) == block_hash(b@),
{
}

/// A block that names the fingerprint of the last block of a valid chain, and
/// carries a proof of work after it, extends the chain to a valid chain.
pub proof fn mined_block_extends_valid_chain(ledger: LedgerView, proof: u64, at: Timestamp)
    requires
        ledger.chain.len() > 0,
        is_valid_chain(ledger.chain),
        is_valid_proof(ledger.chain.last().proof, proof, ledger.chain.last().previous_hash),
    ensures
        is_valid_chain(ledger.with_block(proof, block_hash(ledger.chain.last()), at).chain),
{
    let extended = ledger.with_block(proof, block_hash(ledger.chain.last()), at).chain;
    assert forall|i: int| 0 < i < extended.len() implies #[trigger] link_holds(extended, i) by {
        if i < ledger.chain.len() {
            assert(link_holds(ledger.chain, i));
        }
    }
}

/// To register a location a second time changes nothing.
pub proof fn registering_twice_changes_nothing(peers: Seq<Seq<char>>, location: Seq<char>)
    ensures
        with_location(with_location(peers, location), location) == with_location(peers, location),
{
    if location.len() > 0 && !peers.contains(location) {
        let once = peers.push(location);
        assert(once[peers.len() as int] == location);
    }
}

/// The registry holds what it held and the location that was offered: as a
/// set, it is the set before with that location in it.
pub proof fn registry_is_a_set(peers: Seq<Seq<char>>, location: Seq<char>)
    requires
        location.len() > 0,
    ensures
        with_location(peers, location).to_set() == peers.to_set().insert(location),
{
    let after = with_location(peers, location);
    assert forall|l: Seq<char>| after.to_set().contains(l) <==> peers.to_set().insert(
        location,
    ).contains(l) by {
        if !peers.contains(location) {
            if after.contains(l) {
                let i = choose|i: int| 0 <= i < after.len() && after[i] == l;
                if i < peers.len() {
                    assert(peers[i] == l);
                }
            }
            if peers.contains(l) {
                let i = choose|i: int| 0 <= i < peers.len() && peers[i] == l;
                assert(after[i] == l);
            }
            if l == location {
                assert(after[peers.len() as int] == l);
            }
        }
    }
    assert(after.to_set() =~= peers.to_set().insert(location));
}

/// A registry in which every location is held once and none is empty stays
/// so, whatever is offered to it.
pub proof fn registry_stays_well_formed(peers: Seq<Seq<char>>, location: Seq<char>)
    requires
        well_formed(peers),
    ensures
        well_formed(with_location(peers, location)),
{
}

/// Walks the first `n` responses and finds the one that prevails among them,
/// if one of them is a candidate.
proof fn prevailing_among_first(local_len: nat, responses: Seq<Response>, n: nat) -> (found:
    Option<int>)
    requires
        n <= responses.len(),
    ensures
        match found {
            Some(w) => prevails(local_len, responses.take(n as int), w),
            None => forall|j: int| 0 <= j < n ==> !qualifies(local_len, #[trigger] responses[j]),
        },
    decreases n,
{
    if n == 0 {
        None
    } else {
        let earlier = prevailing_among_first(local_len, responses, (n - 1) as nat);
        let newcomer = responses[n - 1];
        match earlier {
            Some(w) => {
                let before = responses.take(n - 1);
                if qualifies(local_len, newcomer) && declared_length(newcomer) > declared_length(
                    responses[w],
                ) {
                    assert forall|j: int|
                        0 <= j < n - 1 && qualifies(
                            local_len,
                            #[trigger] responses[j],
                        ) implies declared_length(responses[j]) < declared_length(newcomer) by {
                        assert(before[j] == responses[j]);
                    }
                    newcomer_prevails(local_len, responses, n as int);
                    Some(n - 1)
                } else {
                    prevailing_stays(local_len, responses, n as int, w);
                    Some(w)
                }
            },
            None => {
                if qualifies(local_len, newcomer) {
                    newcomer_prevails(local_len, responses, n as int);
                    Some(n - 1)
                } else {
                    None
                }
            },
        }
    }
}

/// There is a winner exactly where a response is a candidate. The winner is
/// a candidate, no candidate declares more blocks than it, and every
/// candidate before it declares fewer. So the order of the responses decides
/// only among the candidates that declare the same, greatest number.
pub proof fn winner_is_first_longest_candidate(local_len: nat, responses: Seq<Response>)
    ensures
        winner(local_len, responses) is Some <==> exists|j: int|
            0 <= j < responses.len() && qualifies(local_len, #[trigger] responses[j]),
        winner(local_len, responses) matches Some(w) ==> prevails(local_len, responses, w),
{
    let found = prevailing_among_first(local_len, responses, responses.len());
    assert(responses.take(responses.len() as int) == responses);
    match found {
        Some(w) => {
            prevailing_wins(local_len, responses, w);
        },
        None => {},
    }
}

/// Reconciliation touches the chain alone, and only to replace it by the
/// chain of a candidate: a valid chain, with a block in it, whose declared
/// length exceeds the length of the local chain. Where no response is a
/// candidate the ledger is as it was; a response that did not arrive is none.
pub proof fn resolution_adopts_only_a_candidate(ledger: LedgerView, responses: Seq<Response>)
    ensures
        ({
            let after = ledger.resolved(responses);
            &&& after.pending == ledger.pending
            &&& after.peers == ledger.peers
            &&& match winner(ledger.chain.len(), responses) {
                Some(w) => {
                    &&& 0 <= w < responses.len()
                    &&& responses[w] matches Ok(candidate)
                    &&& after.chain == candidate.chain
                    &&& is_valid_chain(after.chain)
                    &&& after.chain.len() > 0
                    &&& candidate.length > ledger.chain.len()
                },
                None => after == ledger,
            }
        }),
{
    winner_is_first_longest_candidate(ledger.chain.len(), responses);
}

/// The chain of a node that has started is never empty: no operation on a
/// ledger with a block in its chain leaves the chain empty.
pub proof fn chain_is_never_emptied(
    ledger: LedgerView,
    transaction: TransactionView,
    proof: u64,
    previous_hash: Seq<char>,
    at: Timestamp,
    location: Seq<char>,
    responses: Seq<Response>,
)
    requires
        ledger.chain.len() > 0,
    ensures
        LedgerView::genesis(at).chain.len() > 0,
        ledger.with_transaction(transaction).chain.len() > 0,
        ledger.with_block(proof, previous_hash, at).chain.len() > 0,
        ledger.with_peer(location).chain.len() > 0,
        ledger.resolved(responses).chain.len() > 0,
{
    resolution_adopts_only_a_candidate(ledger, responses);
}

} // verus!
