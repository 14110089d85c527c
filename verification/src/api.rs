//! What the node exchanges with its clients and peers, and what each request
//! does to the ledger. Transport and encoding are left to the caller, and so
//! is the lock that guards the ledger: every function here is one critical
//! section, and the search for a proof of work lies between two of them.

use vstd::prelude::*;
use vstd::string::*;
use crate::block::{
    block_views, clone_blocks, transaction_views, Block, Transaction, TransactionView,
};
use crate::blockchain::{registration_outcome, response_views, Blockchain, LedgerView};
use crate::consensus::{winner, ChainView};
use crate::error::PeerError;
use crate::peers::{clone_strings, texts, url_location, Location};
use crate::text::{decimal, push_decimal};

verus! {

/// The answer to a mining request: the block that was forged.
#[derive(Debug)]
pub struct MiningRespose {
    pub message: String,
    pub index: u64,
    pub transactions: Vec<Transaction>,
    pub proof: u64,
    pub previous_hash: String,
}

/// A request to add a transaction to the pool.
#[derive(Debug)]
pub struct TransactionRequest {
    pub sender: String,
    pub recipient: String,
    pub amount: i64,
}

/// An answer that is one sentence.
#[derive(Debug)]
pub struct MessageResponse {
    pub message: String,
}

/// The chain of a node as it is served to peers: the blocks and their number.
#[derive(Debug)]
pub struct Chain {
    pub chain: Vec<Block>,
    pub length: usize,
}

/// A request to register peers by their addresses.
#[derive(Debug)]
pub struct RegisterRequest {
    pub nodes: Vec<String>,
}

/// The answer to a registration: every peer that the node now knows.
#[derive(Debug)]
pub struct RegisterResponse {
    pub message: String,
    pub total_nodes: Vec<String>,
}

/// The answer to a reconciliation: what was decided, and the chain after it.
#[derive(Debug)]
pub struct ResolveResponse {
    pub message: String,
    pub chain: Vec<Block>,
}

impl View for Chain {
    type V = ChainView;

    open spec fn view(&self) -> ChainView {
        ChainView { chain: block_views(self.chain@), length: self.length }
    }
}

/// The transaction that rewards the node `recipient` for a block: one unit
/// from the sender `0`.
pub open spec fn reward(recipient: Seq<char>) -> TransactionView {
    TransactionView { sender: "0"@, recipient, amount: 1 }
}

/// The address is accepted at registration: it names a host and has a network
/// location.
pub open spec fn acceptable(address: Seq<char>) -> bool {
    registration_outcome(url_location(address).0, url_location(address).1) is Ok
}

/// The ledger after the network locations of the addresses were offered to
/// its registry, one after the other.
pub open spec fn with_addresses(ledger: LedgerView, addresses: Seq<Seq<char>>) -> LedgerView
    decreases addresses.len(),
{
    if addresses.len() == 0 {
        ledger
    } else {
        with_addresses(ledger, addresses.drop_last()).with_peer(url_location(addresses.last()).0)
    }
}

/// Adds the transaction of the request to the pool, and says which block is
/// expected to take it.
pub fn new_transaction(state: &mut Blockchain, req: &TransactionRequest) -> (response:
    MessageResponse)
    requires
        old(state)@.chain.len() < u64::MAX,
    ensures
        final(state)@ == old(state)@.with_transaction(
            TransactionView { sender: req.sender@, recipient: req.recipient@, amount: req.amount },
        ),
        response.message@ == "Transaction will be added to Block "@ + decimal(
            old(state)@.next_index(),
        ),
{
    let index = state.new_transaction(req.sender.as_str(), req.recipient.as_str(), req.amount);
    let mut message = String::from_str("Transaction will be added to Block ");
    push_decimal(&mut message, index);
    MessageResponse { message }
}

/// Forges the block for which `proof` was found: rewards the node, then
/// appends a block that takes the reward and all that was pending and names
/// `previous_hash`. The proof is searched, and the hash of the last block
/// taken, before this call and outside the lock that guards the ledger.
pub fn mine(state: &mut Blockchain, node_identifier: &str, proof: u64, previous_hash: &str) -> (response:
    MiningRespose)
    requires
        old(state)@.chain.len() < u64::MAX,
    ensures
        final(state)@ == old(state)@.with_transaction(reward(node_identifier@)).with_block(
            proof,
            previous_hash@,
            final(state)@.chain.last().timestamp,
        ),
        response.message@ == "New Block Forged"@,
        response.index == old(state)@.next_index(),
        transaction_views(response.transactions@) == old(state)@.pending.push(
            reward(node_identifier@),
        ),
        response.proof == proof,
        response.previous_hash@ == previous_hash@,
{
    state.new_transaction("0", node_identifier, 1);
    let block = state.new_block(proof, Some(previous_hash));
    MiningRespose {
        message: String::from_str("New Block Forged"),
        index: block.index,
        transactions: block.transactions,
        proof,
        previous_hash: String::from_str(previous_hash),
    }
}

/// The chain of the node and its length, as peers are served them.
pub fn chain(state: &Blockchain) -> (response: Chain)
    ensures
        response@.chain == state@.chain,
        response.length == state@.chain.len(),
{
    let blocks = state.chain();
    Chain { chain: clone_blocks(blocks), length: blocks.len() }
}

/// Registers the peers that the request names. The request is refused as a
/// whole, and the ledger left as it was, where it names no peer or where one
/// of its addresses is not acceptable; else the network location of each
/// address is offered to the registry, in the order of the request.
pub fn register_node(state: &mut Blockchain, req: &RegisterRequest) -> (outcome: Result<
    RegisterResponse,
    MessageResponse,
>)
    ensures
        outcome is Ok <==> req.nodes@.len() > 0 && forall|i: int|
            0 <= i < req.nodes@.len() ==> acceptable(#[trigger] req.nodes@[i]@),
        match outcome {
            Ok(response) => {
                &&& final(state)@ == with_addresses(old(state)@, texts(req.nodes@))
                &&& response.message@ == "New nodes have been added"@
                &&& texts(response.total_nodes@) == final(state)@.peers
            },
            Err(response) => {
                &&& final(state)@ == old(state)@
                &&& response.message@ == "Error: Please supply a valid list of nodes"@
            },
        },
{
    let ghost addresses = texts(req.nodes@);
    let count: usize = req.nodes.len();
    if count == 0 {
        return Err(
            MessageResponse {
                message: String::from_str("Error: Please supply a valid list of nodes"),
            },
        );
    }
    let mut i: usize = 0;
    while i < count
        invariant
            count == req.nodes.len(),
            i <= count,
            forall|j: int| 0 <= j < i ==> acceptable(#[trigger] req.nodes@[j]@),
        decreases count - i,
    {
        let location = Location::parse(req.nodes[i].as_str());
        if location.hostname.is_none() || location.netloc.as_str().unicode_len() == 0 {
            return Err(
                MessageResponse {
                    message: String::from_str("Error: Please supply a valid list of nodes"),
                },
            );
        }
        i += 1;
    }
    let mut k: usize = 0;
    while k < count
        invariant
            count == req.nodes.len(),
            addresses == texts(req.nodes@),
            k <= count,
            forall|j: int| 0 <= j < count ==> acceptable(#[trigger] req.nodes@[j]@),
            state@ == with_addresses(old(state)@, addresses.take(k as int)),
        decreases count - k,
    {
        let _ = state.register_node(req.nodes[k].as_str());
        assert(addresses.take(k + 1).drop_last() == addresses.take(k as int));
        k += 1;
    }
    assert(addresses.take(count as int) == addresses);
    Ok(
        RegisterResponse {
            message: String::from_str("New nodes have been added"),
            total_nodes: clone_strings(state.nodes().locations()),
        },
    )
}

/// Reconciles the chain with the responses of the peers, and reports what
/// was decided together with the chain after it.
pub fn resolve_nodes(state: &mut Blockchain, responses: Vec<Result<Chain, PeerError>>) -> (response:
    ResolveResponse)
    ensures
        final(state)@ == old(state)@.resolved(response_views(responses@)),
        response.message@ == if winner(old(state)@.chain.len(), response_views(responses@))
            is Some {
            "Our chain was replaced"@
        } else {
            "Our chain is authorative"@
        },
        block_views(response.chain@) == final(state)@.chain,
{
    let replaced = state.resolve_conflicts(responses);
    let message = if replaced {
        String::from_str("Our chain was replaced")
    } else {
        String::from_str("Our chain is authorative")
    };
    ResolveResponse { message, chain: clone_blocks(state.chain()) }
}

} // verus!
