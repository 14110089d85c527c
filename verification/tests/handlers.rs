use blockchain::api::{
    chain, mine, new_transaction, register_node, resolve_nodes, Chain, RegisterRequest,
    TransactionRequest,
};
use blockchain::block::{clone_blocks, Transaction};
use blockchain::blockchain::Blockchain;
use blockchain::error::PeerError;

fn forge(state: &mut Blockchain, node: &str) -> blockchain::api::MiningRespose {
    let last = state.last_block().unwrap().clone();
    let proof = Blockchain::proof_of_work(&last).unwrap();
    let previous_hash = Blockchain::hash(&last);
    mine(state, node, proof, &previous_hash)
}

fn addresses(list: &[&str]) -> RegisterRequest {
    RegisterRequest { nodes: list.iter().map(|a| String::from(*a)).collect() }
}

#[test]
fn transaction_request_is_queued_and_answered() {
    let mut state = Blockchain::new();
    let request = TransactionRequest {
        sender: String::from("alice"),
        recipient: String::from("bob"),
        amount: 5,
    };
    let response = new_transaction(&mut state, &request);
    assert_eq!(response.message, "Transaction will be added to Block 2");
    assert_eq!(
        state.pending(),
        &vec![Transaction {
            sender: String::from("alice"),
            recipient: String::from("bob"),
            amount: 5
        }]
    );
    state.new_block(1, None);
    let response = new_transaction(&mut state, &request);
    assert_eq!(response.message, "Transaction will be added to Block 3");
}

#[test]
fn mining_rewards_the_node_and_forges_a_block() {
    let mut state = Blockchain::new();
    state.new_transaction("alice", "bob", 5);
    let genesis_hash = Blockchain::hash(&state.chain()[0]);
    let response = forge(&mut state, "node-1");
    assert_eq!(response.message, "New Block Forged");
    assert_eq!(response.index, 2);
    assert_eq!(response.proof, 24101);
    assert_eq!(response.previous_hash, genesis_hash);
    assert_eq!(
        response.transactions,
        vec![
            Transaction {
                sender: String::from("alice"),
                recipient: String::from("bob"),
                amount: 5
            },
            Transaction {
                sender: String::from("0"),
                recipient: String::from("node-1"),
                amount: 1
            }
        ]
    );
    assert!(state.pending().is_empty());
    assert_eq!(state.chain().len(), 2);
    assert_eq!(state.chain()[1].transactions, response.transactions);
    assert_eq!(state.chain()[1].previous_hash, genesis_hash);
    assert!(Blockchain::valid_chain(state.chain()));
}

#[test]
fn mining_again_and_again_keeps_the_chain_valid() {
    let mut state = Blockchain::new();
    for expected in 2..5u64 {
        let response = forge(&mut state, "node-1");
        assert_eq!(response.index, expected);
        assert_eq!(response.transactions.len(), 1);
    }
    assert!(Blockchain::valid_chain(state.chain()));
}

#[test]
fn mining_with_a_stale_hash_still_appends() {
    let mut state = Blockchain::new();
    let response = mine(&mut state, "node-1", 1, "stale");
    assert_eq!(response.index, 2);
    assert_eq!(response.previous_hash, "stale");
    assert_eq!(state.chain().len(), 2);
    assert!(!Blockchain::valid_chain(state.chain()));
}

#[test]
fn chain_is_served_with_its_length() {
    let mut state = Blockchain::new();
    forge(&mut state, "node-1");
    let response = chain(&state);
    assert_eq!(response.length, 2);
    assert_eq!(&response.chain, state.chain());
}

#[test]
fn registration_answers_with_every_known_peer() {
    let mut state = Blockchain::new();
    state.register_node("http://10.0.0.1:5000").unwrap();
    let request = addresses(&["http://192.168.0.5:5000", "http://10.0.0.1:5000", "http://c.example"]);
    let response = register_node(&mut state, &request).unwrap();
    assert_eq!(response.message, "New nodes have been added");
    assert_eq!(
        response.total_nodes,
        vec![
            String::from("10.0.0.1:5000"),
            String::from("192.168.0.5:5000"),
            String::from("c.example")
        ]
    );
    assert_eq!(state.nodes().locations(), &response.total_nodes);
}

#[test]
fn registration_without_addresses_is_refused() {
    let mut state = Blockchain::new();
    let refusal = register_node(&mut state, &addresses(&[])).unwrap_err();
    assert_eq!(refusal.message, "Error: Please supply a valid list of nodes");
    assert_eq!(state.nodes().len(), 0);
}

#[test]
fn registration_with_one_bad_address_registers_none() {
    let mut state = Blockchain::new();
    state.register_node("http://10.0.0.1:5000").unwrap();
    let request = addresses(&["http://192.168.0.5:5000", "192.168.0.6:5000", "http://c.example"]);
    let refusal = register_node(&mut state, &request).unwrap_err();
    assert_eq!(refusal.message, "Error: Please supply a valid list of nodes");
    assert_eq!(state.nodes().locations(), &vec![String::from("10.0.0.1:5000")]);
    let refusal = register_node(&mut state, &addresses(&["http://:5000"])).unwrap_err();
    assert_eq!(refusal.message, "Error: Please supply a valid list of nodes");
    assert_eq!(state.nodes().len(), 1);
}

#[test]
fn reconciliation_says_which_chain_stands() {
    let mut peer = Blockchain::new();
    forge(&mut peer, "peer");
    forge(&mut peer, "peer");
    let mut state = Blockchain::new();
    let before = clone_blocks(state.chain());

    let response = resolve_nodes(&mut state, vec![Err(PeerError::Unreachable)]);
    assert_eq!(response.message, "Our chain is authorative");
    assert_eq!(response.chain, before);

    let report = Ok(Chain { chain: clone_blocks(peer.chain()), length: 3 });
    let response = resolve_nodes(&mut state, vec![report]);
    assert_eq!(response.message, "Our chain was replaced");
    assert_eq!(&response.chain, peer.chain());
    assert_eq!(state.chain(), peer.chain());
}
