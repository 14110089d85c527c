//! Transactions and blocks, their mathematical views, and the canonical text
//! of a block, which is what its fingerprint is taken of.
//!
//! The canonical text is a compact JSON object with the members `index`,
//! `timestamp`, `transactions`, `proof` and `previous_hash`, in this order and
//! without white space. A transaction is an object with the members `sender`,
//! `recipient` and `amount`, in this order. Integers are decimal numerals, the
//! timestamp is the RFC 3339 text of the instant, and strings are JSON string
//! literals with the shortest escapes. Peers compare fingerprints, so every
//! node of a network has to write exactly this text.

use vstd::prelude::*;
use vstd::string::*;
use crate::digest::fingerprint_of;
use crate::text::{
    json_string, push_decimal, push_json_string, push_signed_decimal, signed_decimal, decimal,
};
use crate::timestamp::Timestamp;

verus! {

/// A transfer of an amount from a sender to a recipient.
#[derive(Debug, PartialEq, Eq)]
pub struct Transaction {
    pub sender: String,
    pub recipient: String,
    pub amount: i64,
}

/// What a transaction holds.
pub struct TransactionView {
    pub sender: Seq<char>,
    pub recipient: Seq<char>,
    pub amount: i64,
}

impl View for Transaction {
    type V = TransactionView;

    open spec fn view(&self) -> TransactionView {
        TransactionView {
            sender: self.sender@,
            recipient: self.recipient@,
            amount: self.amount,
        }
    }
}

impl Clone for Transaction {
    fn clone(&self) -> (copy: Transaction)
        ensures
            copy@ == self@,
    {
        Transaction {
            sender: self.sender.clone(),
            recipient: self.recipient.clone(),
            amount: self.amount,
        }
    }
}

/// The views of the transactions of a list, in its order.
pub open spec fn transaction_views(transactions: Seq<Transaction>) -> Seq<TransactionView> {
    Seq::new(transactions.len(), |i: int| transactions[i]@)
}

/// Copies a list of transactions.
pub fn clone_transactions(transactions: &Vec<Transaction>) -> (copy: Vec<Transaction>)
    ensures
        transaction_views(copy@) == transaction_views(transactions@),
{
    let mut copy: Vec<Transaction> = Vec::new();
    let mut i: usize = 0;
    while i < transactions.len()
        invariant
            i <= transactions.len(),
            copy.len() == i,
            forall|j: int| 0 <= j < i ==> copy@[j]@ == transactions@[j]@,
        decreases transactions.len() - i,
    {
        copy.push(transactions[i].clone());
        i += 1;
    }
    copy
}

/// A batch of transactions bound to its place in the chain and, by a
/// fingerprint, to the block before it.
#[derive(Debug, PartialEq, Eq)]
pub struct Block {
    pub index: u64,
    pub timestamp: Timestamp,
    pub transactions: Vec<Transaction>,
    pub proof: u64,
    pub previous_hash: String,
}

/// What a block holds.
pub struct BlockView {
    pub index: u64,
    pub timestamp: Timestamp,
    pub transactions: Seq<TransactionView>,
    pub proof: u64,
    pub previous_hash: Seq<char>,
}

impl View for Block {
    type V = BlockView;

    open spec fn view(&self) -> BlockView {
        BlockView {
            index: self.index,
            timestamp: self.timestamp,
            transactions: transaction_views(self.transactions@),
            proof: self.proof,
            previous_hash: self.previous_hash@,
        }
    }
}

impl Clone for Block {
    fn clone(&self) -> (copy: Block)
        ensures
            copy@ == self@,
    {
        Block {
            index: self.index,
            timestamp: self.timestamp,
            transactions: clone_transactions(&self.transactions),
            proof: self.proof,
            previous_hash: self.previous_hash.clone(),
        }
    }
}

/// The views of the blocks of a list, in its order.
pub open spec fn block_views(blocks: Seq<Block>) -> Seq<BlockView> {
    Seq::new(blocks.len(), |i: int| blocks[i]@)
}

/// Copies a list of blocks.
pub fn clone_blocks(blocks: &Vec<Block>) -> (copy: Vec<Block>)
    ensures
        block_views(copy@) == block_views(blocks@),
{
    let mut copy: Vec<Block> = Vec::new();
    let mut i: usize = 0;
    while i < blocks.len()
        invariant
            i <= blocks.len(),
            copy.len() == i,
            forall|j: int| 0 <= j < i ==> copy@[j]@ == blocks@[j]@,
        decreases blocks.len() - i,
    {
        copy.push(blocks[i].clone());
        i += 1;
    }
    copy
}

/// The canonical text of a transaction.
pub open spec fn transaction_text(t: TransactionView) -> Seq<char> {
    "{\"sender\":"@ + json_string(t.sender) + ",\"recipient\":"@ + json_string(t.recipient)
        + ",\"amount\":"@ + signed_decimal(t.amount as int) + "}"@
}

/// The canonical texts of the transactions of a list, with a comma between
/// each two.
pub open spec fn transaction_list_text(transactions: Seq<TransactionView>) -> Seq<char>
    decreases transactions.len(),
{
    if transactions.len() == 0 {
        Seq::empty()
    } else if transactions.len() == 1 {
        transaction_text(transactions[0])
    } else {
        transaction_list_text(transactions.drop_last()) + ","@ + transaction_text(
            transactions.last(),
        )
    }
}

/// The canonical text of a block.
pub open spec fn block_text(b: BlockView) -> Seq<char> {
    "{\"index\":"@ + decimal(b.index as nat) + ",\"timestamp\":\""@ + b.timestamp.text()
        + "\",\"transactions\":["@ + transaction_list_text(b.transactions) + "],\"proof\":"@
        + decimal(b.proof as nat) + ",\"previous_hash\":"@ + json_string(b.previous_hash) + "}"@
}

/// The fingerprint of a block: the SHA-256 digest of its canonical text.
pub open spec fn block_hash(b: BlockView) -> Seq<char> {
    fingerprint_of(block_text(b))
}

impl Transaction {
    /// Appends the canonical text of the transaction to `out`.
    pub fn push_text(&self, out: &mut String)
        ensures
            final(out)@ == old(out)@ + transaction_text(self@),
    {
        out.append("{\"sender\":");
        push_json_string(out, self.sender.as_str());
        out.append(",\"recipient\":");
        push_json_string(out, self.recipient.as_str());
        out.append(",\"amount\":");
        push_signed_decimal(out, self.amount);
        out.append("}");
    }
}

impl Block {
    /// The canonical text of the block.
    pub fn canonical_text(&self) -> (text: String)
        ensures
            text@ == block_text(self@),
    {
        let mut out = String::new();
        out.append("{\"index\":");
        push_decimal(&mut out, self.index);
        out.append(",\"timestamp\":\"");
        self.timestamp.push_text(&mut out);
        out.append("\",\"transactions\":[");
        let ghost start = out@;
        let ghost views = transaction_views(self.transactions@);
        let mut i: usize = 0;
        while i < self.transactions.len()
            invariant
                i <= self.transactions.len(),
                views == transaction_views(self.transactions@),
                out@ == start + transaction_list_text(views.take(i as int)),
            decreases self.transactions.len() - i,
        {
            if i > 0 {
                out.append(",");
            }
            self.transactions[i].push_text(&mut out);
            assert(views.take(i + 1).drop_last() == views.take(i as int));
            i += 1;
        }
        assert(views.take(i as int) == views);
        out.append("],\"proof\":");
        push_decimal(&mut out, self.proof);
        out.append(",\"previous_hash\":");
        push_json_string(&mut out, self.previous_hash.as_str());
        out.append("}");
        out
    }
}

} // verus!
