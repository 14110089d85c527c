use blockchain::block::{Block, Transaction};
use blockchain::blockchain::{Blockchain, GENESIS_PROOF};
use blockchain::timestamp::Timestamp;

fn transfer_of(sender: &str, recipient: &str, amount: i64) -> Transaction {
    Transaction { sender: String::from(sender), recipient: String::from(recipient), amount }
}

fn mine_next(ledger: &mut Blockchain) -> Block {
    let last = ledger.last_block().unwrap().clone();
    let proof = Blockchain::proof_of_work(&last).unwrap();
    let previous_hash = Blockchain::hash(&last);
    ledger.new_block(proof, Some(&previous_hash))
}

#[test]
fn genesis_block_has_fixed_index_proof_and_previous_hash() {
    let ledger = Blockchain::new();
    assert_eq!(ledger.chain().len(), 1);
    let genesis = &ledger.chain()[0];
    assert_eq!(genesis.index, 1);
    assert_eq!(genesis.proof, 100);
    assert_eq!(GENESIS_PROOF, 100);
    assert_eq!(genesis.previous_hash, "1");
    assert!(genesis.transactions.is_empty());
    assert!(ledger.pending().is_empty());
    assert_eq!(ledger.nodes().len(), 0);
}

#[test]
fn genesis_block_is_forged_at_the_given_instant() {
    let at = Timestamp::new(1565872496, 0).unwrap();
    let ledger = Blockchain::new_at(at);
    assert_eq!(ledger.chain().len(), 1);
    assert_eq!(
        ledger.chain()[0],
        Block {
            index: 1,
            timestamp: at,
            transactions: vec![],
            proof: 100,
            previous_hash: String::from("1"),
        }
    );
}

#[test]
fn ledger_that_has_not_started_is_empty() {
    let ledger = Blockchain::default();
    assert!(ledger.chain().is_empty());
    assert!(ledger.pending().is_empty());
    assert_eq!(ledger.nodes().len(), 0);
    assert!(ledger.last_block().is_none());
}

#[test]
fn last_block_is_the_end_of_the_chain() {
    let mut ledger = Blockchain::new();
    assert_eq!(ledger.last_block().unwrap().index, 1);
    ledger.new_block(5, Some("x"));
    assert_eq!(ledger.last_block().unwrap().index, 2);
    assert_eq!(ledger.last_block().unwrap().proof, 5);
    assert_eq!(ledger.last_block().unwrap(), &ledger.chain()[1]);
}

#[test]
fn new_transaction_names_the_next_block() {
    let mut ledger = Blockchain::new();
    assert_eq!(ledger.new_transaction("alice", "bob", 5), 2);
    assert_eq!(ledger.new_transaction("bob", "carol", -3), 2);
    ledger.new_block(1, None);
    assert_eq!(ledger.new_transaction("carol", "dave", 0), 3);
}

#[test]
fn new_transaction_accepts_any_values_and_repeats() {
    let mut ledger = Blockchain::new();
    ledger.new_transaction("", "", i64::MIN);
    ledger.new_transaction("alice", "bob", 5);
    ledger.new_transaction("alice", "bob", 5);
    assert_eq!(
        ledger.pending(),
        &vec![
            transfer_of("", "", i64::MIN),
            transfer_of("alice", "bob", 5),
            transfer_of("alice", "bob", 5)
        ]
    );
    assert_eq!(ledger.chain().len(), 1);
}

#[test]
fn new_block_takes_the_pool_in_order_and_empties_it() {
    let mut ledger = Blockchain::new();
    ledger.new_transaction("alice", "bob", 5);
    ledger.new_transaction("bob", "carol", 7);
    ledger.new_transaction("carol", "alice", 9);
    let at = Timestamp::new(1565872496, 5_000_000).unwrap();
    let block = ledger.new_block_at(12345, Some("feed"), at);
    assert!(ledger.pending().is_empty());
    assert_eq!(
        block,
        Block {
            index: 2,
            timestamp: at,
            transactions: vec![
                transfer_of("alice", "bob", 5),
                transfer_of("bob", "carol", 7),
                transfer_of("carol", "alice", 9)
            ],
            proof: 12345,
            previous_hash: String::from("feed"),
        }
    );
    assert_eq!(ledger.chain().len(), 2);
    assert_eq!(ledger.chain()[1], block);
}

#[test]
fn new_block_without_a_hash_names_the_default() {
    let mut ledger = Blockchain::new();
    let block = ledger.new_block(1, None);
    assert_eq!(block.previous_hash, "0");
    assert!(block.transactions.is_empty());
}

#[test]
fn new_block_leaves_earlier_blocks_and_peers_alone() {
    let mut ledger = Blockchain::new();
    ledger.register_node("http://192.168.0.5:5000").unwrap();
    let genesis = ledger.chain()[0].clone();
    ledger.new_transaction("alice", "bob", 5);
    ledger.new_block(1, Some("a"));
    ledger.new_block(2, Some("b"));
    assert_eq!(ledger.chain().len(), 3);
    assert_eq!(ledger.chain()[0], genesis);
    assert_eq!(ledger.chain()[1].transactions, vec![transfer_of("alice", "bob", 5)]);
    assert!(ledger.chain()[2].transactions.is_empty());
    assert_eq!(ledger.chain()[2].index, 3);
    assert_eq!(ledger.nodes().len(), 1);
}

#[test]
fn new_block_is_stamped_with_the_present() {
    let before = Timestamp::now();
    let mut ledger = Blockchain::new();
    let block = ledger.new_block(1, None);
    let after = Timestamp::now();
    assert!(before.seconds() <= ledger.chain()[0].timestamp.seconds());
    assert!(ledger.chain()[0].timestamp.seconds() <= block.timestamp.seconds());
    assert!(block.timestamp.seconds() <= after.seconds());
}

#[test]
fn valid_proof_is_decided_by_the_digest_of_the_guess() {
    assert!(Blockchain::valid_proof(100, 24101, "1"));
    assert!(!Blockchain::valid_proof(100, 24100, "1"));
    assert!(!Blockchain::valid_proof(100, 0, "1"));
    assert!(!Blockchain::valid_proof(101, 24101, "1"));
    assert!(!Blockchain::valid_proof(100, 24101, "2"));
    assert!(Blockchain::valid_proof(0, 5735, ""));
}

#[test]
fn valid_proof_agrees_with_the_digest_of_the_concatenation() {
    let last_hash = "02490e64f84bd46e4da736fec1e96c34d3721741361fb5cfc04450c8478625d2";
    for proof in 0u64..300 {
        let guess = format!("{}{}{}", 100, proof, last_hash);
        let digest = crypto_hash::hex_digest(crypto_hash::Algorithm::SHA256, guess.as_bytes());
        assert_eq!(Blockchain::valid_proof(100, proof, last_hash), digest.ends_with("000"));
    }
}

#[test]
fn proof_of_work_finds_the_least_proof() {
    let genesis = Block {
        index: 1,
        timestamp: Timestamp::new(0, 0).unwrap(),
        transactions: vec![],
        proof: 100,
        previous_hash: String::from("1"),
    };
    assert_eq!(Blockchain::proof_of_work(&genesis), Some(24101));
    let other = Block {
        index: 9,
        timestamp: Timestamp::new(77, 0).unwrap(),
        transactions: vec![transfer_of("a", "b", 1)],
        proof: 0,
        previous_hash: String::new(),
    };
    assert_eq!(Blockchain::proof_of_work(&other), Some(5735));
}

#[test]
fn bounded_search_stops_at_its_limit() {
    let genesis = Block {
        index: 1,
        timestamp: Timestamp::new(0, 0).unwrap(),
        transactions: vec![],
        proof: 100,
        previous_hash: String::from("1"),
    };
    assert_eq!(Blockchain::proof_of_work_below(&genesis, 0), None);
    assert_eq!(Blockchain::proof_of_work_below(&genesis, 1000), None);
    assert_eq!(Blockchain::proof_of_work_below(&genesis, 24101), None);
    assert_eq!(Blockchain::proof_of_work_below(&genesis, 24102), Some(24101));
    assert_eq!(Blockchain::proof_of_work_below(&genesis, u64::MAX), Some(24101));
}

#[test]
fn proof_of_work_result_is_a_valid_proof() {
    let mut ledger = Blockchain::new();
    for _ in 0..3 {
        let last = ledger.last_block().unwrap().clone();
        let proof = Blockchain::proof_of_work(&last).unwrap();
        assert!(Blockchain::valid_proof(last.proof, proof, &last.previous_hash));
        let previous_hash = Blockchain::hash(&last);
        ledger.new_block(proof, Some(&previous_hash));
    }
    assert_eq!(ledger.chain().len(), 4);
}

#[test]
fn transactions_added_during_a_search_land_in_the_block_once() {
    let mut ledger = Blockchain::new();
    ledger.new_transaction("early", "bird", 1);
    let last = ledger.last_block().unwrap().clone();
    ledger.new_transaction("during", "search", 2);
    let proof = Blockchain::proof_of_work(&last).unwrap();
    ledger.new_transaction("after", "search", 3);
    let previous_hash = Blockchain::hash(&last);
    let block = ledger.new_block(proof, Some(&previous_hash));
    assert_eq!(
        block.transactions,
        vec![
            transfer_of("early", "bird", 1),
            transfer_of("during", "search", 2),
            transfer_of("after", "search", 3)
        ]
    );
    assert!(ledger.pending().is_empty());
    assert!(Blockchain::valid_chain(ledger.chain()));
    ledger.new_transaction("late", "comer", 4);
    assert_eq!(ledger.pending(), &vec![transfer_of("late", "comer", 4)]);
    let next = mine_next(&mut ledger);
    assert_eq!(next.transactions, vec![transfer_of("late", "comer", 4)]);
}

#[test]
fn chain_urls_follow_the_registry() {
    let mut ledger = Blockchain::new();
    assert!(ledger.chain_urls().is_empty());
    ledger.register_node("http://192.168.0.5:5000").unwrap();
    ledger.register_node("http://example.com").unwrap();
    assert_eq!(
        ledger.chain_urls(),
        vec![
            String::from("http://192.168.0.5:5000/chain"),
            String::from("http://example.com/chain")
        ]
    );
}
