//! The ledger of one node: its chain, its pool of pending transactions and
//! its registry of peers.

use vstd::prelude::*;
use vstd::string::*;
use crate::api::Chain;
use crate::block::{
    block_hash, block_views, transaction_views, Block, BlockView, Transaction, TransactionView,
};
use crate::consensus::{
    declared_length, is_valid_chain, is_valid_proof, link_holds, newcomer_prevails,
    no_candidate_no_winner, prevailing_stays, prevailing_wins, prevails, qualifies, winner,
    Response,
};
use crate::digest::{fingerprint, meets_difficulty};
use crate::error::{PeerError, ValidationError};
use crate::peers::{texts, url_location, with_location, Location, PeerSet};
use crate::text::push_decimal;
use crate::timestamp::Timestamp;

verus! {

/// The proof that the first block of a chain carries.
pub const GENESIS_PROOF: u64 = 100;

/// The hash that the first block of a chain names as its predecessor's.
pub open spec fn genesis_previous_hash() -> Seq<char> {
    "1"@
}

/// The hash that a block names where none was given for it.
pub open spec fn default_previous_hash() -> Seq<char> {
    "0"@
}

/// The hash that a new block names: the given one, or the default.
pub open spec fn previous_hash_or_default(given: Option<Seq<char>>) -> Seq<char> {
    match given {
        Some(hash) => hash,
        None => default_previous_hash(),
    }
}

/// The ledger of one node.
#[derive(Debug)]
pub struct Blockchain {
    chain: Vec<Block>,
    current_transactions: Vec<Transaction>,
    nodes: PeerSet,
}

/// What a ledger holds.
pub struct LedgerView {
    pub chain: Seq<BlockView>,
    pub pending: Seq<TransactionView>,
    pub peers: Seq<Seq<char>>,
}

impl LedgerView {
    /// The ledger of a node that has not started: nothing in it.
    pub open spec fn empty() -> LedgerView {
        LedgerView { chain: Seq::empty(), pending: Seq::empty(), peers: Seq::empty() }
    }

    /// The index of the block that comes next: one more than the length of
    /// the chain.
    pub open spec fn next_index(self) -> nat {
        self.chain.len() + 1
    }

    /// The ledger with one more pending transaction.
    pub open spec fn with_transaction(self, transaction: TransactionView) -> LedgerView {
        LedgerView { pending: self.pending.push(transaction), ..self }
    }

    /// The ledger with more pending transactions, added in their order.
    pub open spec fn with_transactions(self, transactions: Seq<TransactionView>) -> LedgerView
        decreases transactions.len(),
    {
        if transactions.len() == 0 {
            self
        } else {
            self.with_transactions(transactions.drop_last()).with_transaction(transactions.last())
        }
    }

    /// The block that is forged at the instant `at`: it takes the next index
    /// and all that is pending.
    pub open spec fn forged(self, proof: u64, previous_hash: Seq<char>, at: Timestamp) -> BlockView {
        BlockView {
            index: self.next_index() as u64,
            timestamp: at,
            transactions: self.pending,
            proof,
            previous_hash,
        }
    }

    /// The ledger after a block was forged: the block ends the chain and
    /// nothing is pending.
    pub open spec fn with_block(
        self,
        proof: u64,
        previous_hash: Seq<char>,
        at: Timestamp,
    ) -> LedgerView {
        LedgerView {
            chain: self.chain.push(self.forged(proof, previous_hash, at)),
            pending: Seq::empty(),
            peers: self.peers,
        }
    }

    /// The ledger of a node that started at the instant `at`: the genesis
    /// block alone.
    pub open spec fn genesis(at: Timestamp) -> LedgerView {
        LedgerView::empty().with_block(GENESIS_PROOF, genesis_previous_hash(), at)
    }

    /// The ledger after a peer location was offered to its registry.
    pub open spec fn with_peer(self, location: Seq<char>) -> LedgerView {
        LedgerView { peers: with_location(self.peers, location), ..self }
    }

    /// The ledger after the responses of the peers were weighed: the chain
    /// of the winner replaces the local one, where there is a winner.
    pub open spec fn resolved(self, responses: Seq<Response>) -> LedgerView {
        match winner(self.chain.len(), responses) {
            Some(w) => LedgerView { chain: responses[w]->Ok_0.chain, ..self },
            None => self,
        }
    }
}

/// The views of a list of responses, in its order.
pub open spec fn response_views(responses: Seq<Result<Chain, PeerError>>) -> Seq<Response> {
    Seq::new(
        responses.len(),
        |i: int|
            match responses[i] {
                Ok(candidate) => Ok(candidate@),
                Err(e) => Err(e),
            },
    )
}

impl View for Blockchain {
    type V = LedgerView;

    closed spec fn view(&self) -> LedgerView {
        LedgerView {
            chain: block_views(self.chain@),
            pending: transaction_views(self.current_transactions@),
            peers: self.nodes@,
        }
    }
}

impl Default for Blockchain {
    /// The ledger of a node that has not started.
    fn default() -> (ledger: Blockchain)
        ensures
            ledger@ == LedgerView::empty(),
    {
        let ledger = Blockchain {
            chain: Vec::new(),
            current_transactions: Vec::new(),
            nodes: PeerSet::new(),
        };
        assert(ledger@.chain =~= Seq::<BlockView>::empty());
        assert(ledger@.pending =~= Seq::<TransactionView>::empty());
        ledger
    }
}

impl Blockchain {
    /// The blocks of the chain, the oldest first.
    pub fn chain(&self) -> (blocks: &Vec<Block>)
        ensures
            block_views(blocks@) == self@.chain,
    {
        &self.chain
    }

    /// The transactions that wait for the next block, the oldest first.
    pub fn pending(&self) -> (transactions: &Vec<Transaction>)
        ensures
            transaction_views(transactions@) == self@.pending,
    {
        &self.current_transactions
    }

    /// The registry of peers.
    pub fn nodes(&self) -> (peers: &PeerSet)
        ensures
            peers@ == self@.peers,
    {
        &self.nodes
    }

    /// A ledger that holds the genesis block, forged now. Which instant the
    /// block carries is not stated: it is read from the clock.
    pub fn new() -> (ledger: Blockchain)
        ensures
            ledger@ == LedgerView::genesis(ledger@.chain[0].timestamp),
    {
        Blockchain::new_at(Timestamp::now())
    }

    /// A ledger that holds the genesis block, forged at the instant `at`.
    pub fn new_at(at: Timestamp) -> (ledger: Blockchain)
        ensures
            ledger@ == LedgerView::genesis(at),
    {
        let mut ledger = Blockchain::default();
        ledger.new_block_at(GENESIS_PROOF, Some("1"), at);
        ledger
    }

    /// Forges a block now and appends it to the chain; see `new_block_at`.
    /// Which instant the block carries is not stated: it is read from the
    /// clock.
    pub fn new_block(&mut self, proof: u64, previous_hash: Option<&str>) -> (block: Block)
        requires
            old(self)@.chain.len() < u64::MAX,
        ensures
            final(self)@ == old(self)@.with_block(
                proof,
                previous_hash_or_default(option_text(previous_hash)),
                block@.timestamp,
            ),
            block@ == final(self)@.chain.last(),
    {
        self.new_block_at(proof, previous_hash, Timestamp::now())
    }

    /// Forges a block at the instant `at` and appends it to the chain. The
    /// block takes the next index, the given proof, the given hash or the
    /// default, and every pending transaction; the pool is empty afterwards.
    /// A copy of the block is returned. The index of the block has to fit
    /// into 64 bits.
    pub fn new_block_at(&mut self, proof: u64, previous_hash: Option<&str>, at: Timestamp) -> (block:
        Block)
        requires
            old(self)@.chain.len() < u64::MAX,
        ensures
            final(self)@ == old(self)@.with_block(
                proof,
                previous_hash_or_default(option_text(previous_hash)),
                at,
            ),
            block@ == final(self)@.chain.last(),
    {
        let mut transactions: Vec<Transaction> = Vec::new();
        core::mem::swap(&mut transactions, &mut self.current_transactions);
        let previous_hash = match previous_hash {
            Some(hash) => String::from_str(hash),
            None => String::from_str("0"),
        };
        let block = Block {
            index: self.chain.len() as u64 + 1,
            timestamp: at,
            transactions,
            proof,
            previous_hash,
        };
        let copy = block.clone();
        self.chain.push(block);
        proof {
            assert(self@.chain =~= old(self)@.chain.push(copy@));
            assert(self@.pending =~= Seq::<TransactionView>::empty());
        }
        copy
    }

    /// The last block of the chain; none where the chain is empty.
    pub fn last_block(&self) -> (last: Option<&Block>)
        ensures
            last is None <==> self@.chain.len() == 0,
            last matches Some(block) ==> block@ == self@.chain.last(),
    {
        if self.chain.len() == 0 {
            None
        } else {
            Some(&self.chain[self.chain.len() - 1])
        }
    }

    /// The fingerprint of a block: the SHA-256 digest of its canonical text.
    pub fn hash(block: &Block) -> (digest: String)
        ensures
            digest@ == block_hash(block@),
    {
        let text = block.canonical_text();
        fingerprint(text.as_str())
    }

    /// Tells whether `proof` is a proof of work after `last_proof` and
    /// `last_hash`.
    pub fn valid_proof(last_proof: u64, proof: u64, last_hash: &str) -> (valid: bool)
        ensures
            valid == is_valid_proof(last_proof, proof, last_hash@),
    {
        let mut guess = String::new();
        push_decimal(&mut guess, last_proof);
        push_decimal(&mut guess, proof);
        guess.append(last_hash);
        let digest = fingerprint(guess.as_str());
        meets_difficulty(digest.as_str())
    }

    /// Searches the proof of work that lets a block follow `last_block`: the
    /// least number that is a proof after the proof of `last_block` and the
    /// hash that it names. There is none only where no 64-bit number is one.
    /// The search reads the block and nothing of the ledger; it can run while
    /// the ledger serves others.
    pub fn proof_of_work(last_block: &Block) -> (found: Option<u64>)
        ensures
            match found {
                Some(proof) => {
                    &&& is_valid_proof(last_block.proof, proof, last_block.previous_hash@)
                    &&& forall|lesser: u64|
                        lesser < proof ==> !#[trigger] is_valid_proof(
                            last_block.proof,
                            lesser,
                            last_block.previous_hash@,
                        )
                },
                None => forall|any: u64|
                    !#[trigger] is_valid_proof(last_block.proof, any, last_block.previous_hash@),
            },
    {
        match Blockchain::proof_of_work_below(last_block, u64::MAX) {
            Some(proof) => Some(proof),
            None => {
                if Blockchain::valid_proof(
                    last_block.proof,
                    u64::MAX,
                    last_block.previous_hash.as_str(),
                ) {
                    Some(u64::MAX)
                } else {
                    None
                }
            },
        }
    }

    /// Searches the proof of work below `limit`: the least number that is a
    /// proof after the proof of `last_block` and the hash that it names,
    /// where one lies below `limit`. A search that has to end, as in a trial
    /// run, is run with a limit.
    pub fn proof_of_work_below(last_block: &Block, limit: u64) -> (found: Option<u64>)
        ensures
            match found {
                Some(proof) => {
                    &&& proof < limit
                    &&& is_valid_proof(last_block.proof, proof, last_block.previous_hash@)
                    &&& forall|lesser: u64|
                        lesser < proof ==> !#[trigger] is_valid_proof(
                            last_block.proof,
                            lesser,
                            last_block.previous_hash@,
                        )
                },
                None => forall|lesser: u64|
                    lesser < limit ==> !#[trigger] is_valid_proof(
                        last_block.proof,
                        lesser,
                        last_block.previous_hash@,
                    ),
            },
    {
        let mut proof: u64 = 0;
        while proof < limit
            invariant
                proof <= limit,
                forall|lesser: u64|
                    lesser < proof ==> !#[trigger] is_valid_proof(
                        last_block.proof,
                        lesser,
                        last_block.previous_hash@,
                    ),
            decreases limit - proof,
        {
            if Blockchain::valid_proof(last_block.proof, proof, last_block.previous_hash.as_str()) {
                return Some(proof);
            }
            proof += 1;
        }
        None
    }

    /// Adds a transaction to the pool and says which block is expected to
    /// take it: the next one. Senders, recipients and amounts are taken as
    /// they come, and a transaction that is added twice is held twice. The
    /// index of the next block has to fit into 64 bits.
    pub fn new_transaction(&mut self, sender: &str, recipient: &str, amount: i64) -> (index: u64)
        requires
            old(self)@.chain.len() < u64::MAX,
        ensures
            final(self)@ == old(self)@.with_transaction(
                TransactionView { sender: sender@, recipient: recipient@, amount },
            ),
            index == old(self)@.next_index(),
    {
        let transaction = Transaction {
            sender: String::from_str(sender),
            recipient: String::from_str(recipient),
            amount,
        };
        self.current_transactions.push(transaction);
        proof {
            assert(self@.pending =~= old(self)@.pending.push(transaction@));
        }
        self.chain.len() as u64 + 1
    }

    /// Registers the peer that a URL-like address names. The address is
    /// taken apart and its network location offered to the registry; see
    /// `register_location` for what is refused.
    pub fn register_node(&mut self, address: &str) -> (outcome: Result<(), ValidationError>)
        ensures
            outcome == registration_outcome(url_location(address@).0, url_location(address@).1),
            final(self)@ == old(self)@.registered(
                url_location(address@).0,
                url_location(address@).1,
            ),
    {
        let location = Location::parse(address);
        self.register_location(location)
    }

    /// Registers a peer by the parts of its address. An address without a
    /// host is refused, and so is one with an empty network location; the
    /// ledger is then unchanged. A location that is registered already is
    /// accepted and changes nothing.
    pub fn register_location(&mut self, location: Location) -> (outcome: Result<
        (),
        ValidationError,
    >)
        ensures
            outcome == registration_outcome(location.netloc@, option_string_text(location.hostname)),
            final(self)@ == old(self)@.registered(
                location.netloc@,
                option_string_text(location.hostname),
            ),
    {
        match location.hostname {
            None => Err(ValidationError::MissingHost),
            Some(_) => {
                let outcome = self.nodes.insert(location.netloc);
                outcome
            },
        }
    }

    /// Where the chain of each peer is asked for, in the order of the
    /// registry. What came back from each, in the same order, is what
    /// `resolve_conflicts` weighs.
    pub fn chain_urls(&self) -> (urls: Vec<String>)
        ensures
            urls@.len() == self@.peers.len(),
            forall|i: int| 0 <= i < urls@.len() ==> (#[trigger] urls@[i])@ == chain_url(self@.peers[i]),
    {
        let locations = self.nodes.locations();
        let mut urls: Vec<String> = Vec::new();
        let mut i: usize = 0;
        while i < locations.len()
            invariant
                i <= locations.len(),
                texts(locations@) == self@.peers,
                urls@.len() == i,
                forall|j: int| 0 <= j < i ==> (#[trigger] urls@[j])@ == chain_url(self@.peers[j]),
            decreases locations.len() - i,
        {
            let mut url = String::from_str("http://");
            url.append(locations[i].as_str());
            url.append("/chain");
            urls.push(url);
            i += 1;
        }
        urls
    }

    /// Tells whether a chain is valid: whether each of its blocks but the
    /// first names the fingerprint of the block before it and carries a proof
    /// of work after that block.
    pub fn valid_chain(chain: &[Block]) -> (valid: bool)
        ensures
            valid == is_valid_chain(block_views(chain@)),
    {
        let ghost views = block_views(chain@);
        let mut i: usize = 1;
        while i < chain.len()
            invariant
                1 <= i,
                views == block_views(chain@),
                forall|k: int| 0 < k < i && k < chain.len() ==> #[trigger] link_holds(views, k),
            decreases chain.len() - i,
        {
            let last_block = &chain[i - 1];
            let block = &chain[i];
            let expected = Blockchain::hash(last_block);
            if !(block.previous_hash == expected) {
                assert(!link_holds(views, i as int));
                return false;
            }
            if !Blockchain::valid_proof(
                last_block.proof,
                block.proof,
                last_block.previous_hash.as_str(),
            ) {
                assert(!link_holds(views, i as int));
                return false;
            }
            i += 1;
        }
        true
    }

    /// Reconciles the chain with what the peers reported, by the rule of the
    /// longest valid chain. The responses are weighed in their order; one
    /// that did not arrive is passed over. A response is a candidate where it
    /// declares more blocks than the local chain has and its chain is valid
    /// and not empty; among the candidates the first that declares the most
    /// blocks wins, and its chain replaces the local one. Says whether the
    /// chain was replaced.
    pub fn resolve_conflicts(&mut self, responses: Vec<Result<Chain, PeerError>>) -> (replaced:
        bool)
        ensures
            final(self)@ == old(self)@.resolved(response_views(responses@)),
            replaced == (winner(old(self)@.chain.len(), response_views(responses@)) is Some),
    {
        let mut responses = responses;
        let ghost views = response_views(responses@);
        let ghost local_len = self@.chain.len();
        let mut max_length: usize = self.chain.len();
        let mut best: Option<usize> = None;
        let mut i: usize = 0;
        while i < responses.len()
            invariant
                i <= responses.len(),
                views == response_views(responses@),
                local_len <= max_length,
                match best {
                    None => {
                        &&& max_length == local_len
                        &&& forall|j: int| 0 <= j < i ==> !qualifies(local_len, #[trigger] views[j])
                    },
                    Some(w) => {
                        &&& w < i
                        &&& prevails(local_len, views.take(i as int), w as int)
                        &&& max_length == declared_length(views[w as int])
                    },
                },
            decreases responses.len() - i,
        {
            match &responses[i] {
                Ok(candidate) => {
                    if candidate.length > max_length && candidate.chain.len() > 0
                        && Blockchain::valid_chain(candidate.chain.as_slice()) {
                        proof {
                            assert forall|j: int|
                                0 <= j < i && qualifies(
                                    local_len,
                                    #[trigger] views[j],
                                ) implies declared_length(views[j]) < declared_length(
                                views[i as int],
                            ) by {
                                assert(views.take(i as int)[j] == views[j]);
                            }
                            newcomer_prevails(local_len, views, i + 1);
                        }
                        max_length = candidate.length;
                        best = Some(i);
                    } else {
                        proof {
                            if let Some(w) = best {
                                prevailing_stays(local_len, views, i + 1, w as int);
                            }
                        }
                    }
                },
                Err(_) => {
                    proof {
                        if let Some(w) = best {
                            prevailing_stays(local_len, views, i + 1, w as int);
                        }
                    }
                },
            }
            i += 1;
        }
        proof {
            assert(views.take(i as int) == views);
        }
        match best {
            Some(w) => {
                proof {
                    prevailing_wins(local_len, views, w as int);
                }
                let taken = responses.swap_remove(w);
                match taken {
                    Ok(candidate) => {
                        self.chain = candidate.chain;
                        true
                    },
                    Err(_) => false,
                }
            },
            None => {
                proof {
                    no_candidate_no_winner(local_len, views);
                }
                false
            },
        }
    }
}

/// The address at which the peer at `location` serves its chain.
pub open spec fn chain_url(location: Seq<char>) -> Seq<char> {
    "http://"@ + location + "/chain"@
}

/// The text of an optional string slice.
pub open spec fn option_text(given: Option<&str>) -> Option<Seq<char>> {
    match given {
        Some(text) => Some(text@),
        None => None,
    }
}

/// The text of an optional string.
pub open spec fn option_string_text(given: Option<String>) -> Option<Seq<char>> {
    match given {
        Some(text) => Some(text@),
        None => None,
    }
}

/// What a registration answers for the parts of an address: an address
/// without a host is refused, and so is one with an empty network location.
pub open spec fn registration_outcome(netloc: Seq<char>, hostname: Option<Seq<char>>) -> Result<
    (),
    ValidationError,
> {
    if hostname is None {
        Err(ValidationError::MissingHost)
    } else if netloc.len() == 0 {
        Err(ValidationError::EmptyLocation)
    } else {
        Ok(())
    }
}

impl LedgerView {
    /// The ledger after the parts of an address were offered for
    /// registration: unchanged where they are refused.
    pub open spec fn registered(self, netloc: Seq<char>, hostname: Option<Seq<char>>) -> LedgerView {
        if registration_outcome(netloc, hostname) is Ok {
            self.with_peer(netloc)
        } else {
            self
        }
    }
}

} // verus!
