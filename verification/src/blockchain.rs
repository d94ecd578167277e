//! The ledger: transactions, blocks, the chain with its pending buffer, and
//! the proof-of-work puzzle that gates new blocks.

use crate::digest::{hex_chars, hex_encode, sha256, sha256_digest, DIGEST_LEN};
use crate::encoding::{
    decimal, json_string, push_decimal, push_json_string, push_text, text_bytes, text_vec,
};
use vstd::prelude::*;
use vstd::string::*;
use vstd::utf8::*;

verus! {

/// Candidates tried by one proof-of-work search before it gives up.
pub const MAX_ATTEMPTS: u64 = 1_000_000;

/// Wall-clock limit of one proof-of-work search, in nanoseconds (30 s).
pub const SEARCH_TIMEOUT_NANOS: u128 = 30_000_000_000;

/// A transfer of an amount from one identifier to another.
#[derive(Clone, Debug)]
pub struct Transaction {
    pub sender: String,
    pub receiver: String,
    pub amount: u64,
}

/// A sealed block of the chain.
#[derive(Clone, Debug)]
pub struct Block {
    pub index: usize,
    pub timestamp: String,
    pub proof: u64,
    pub previous_hash: String,
    pub transactions: Vec<Transaction>,
}

/// The chain of sealed blocks and the transactions that wait for the next one.
#[derive(Clone, Debug)]
pub struct Blockchain {
    pub chain: Vec<Block>,
    pub pending_transactions: Vec<Transaction>,
}

/// What a proof-of-work search does after it has tried one candidate.
#[derive(Clone, Copy, Debug, PartialEq, Eq, Structural)]
pub enum SearchStep {
    /// The candidate solves the puzzle: the search returns it.
    Found,
    /// The candidate was the last that the attempt cap allows: the search
    /// returns it, unsolved.
    Exhausted,
    /// The time limit has passed: the search returns the candidate, unsolved.
    TimedOut,
    /// The search goes on with the next candidate.
    Continue,
}

/// How a proof-of-work search ended.
#[derive(Clone, Copy, Debug)]
pub struct SearchOutcome {
    /// The last candidate that was tried.
    pub proof: u64,
    /// How many candidates were tried.
    pub attempts: u64,
    /// Time spent when the search ended, in nanoseconds.
    pub elapsed_nanos: u128,
    /// Why the search ended; never `Continue`.
    pub end: SearchStep,
}

/// What a transaction is, as plain values.
pub struct TransactionView {
    pub sender: Seq<char>,
    pub receiver: Seq<char>,
    pub amount: u64,
}

/// What a block is, as plain values.
pub struct BlockView {
    pub index: nat,
    pub timestamp: Seq<char>,
    pub proof: u64,
    pub previous_hash: Seq<char>,
    pub transactions: Seq<TransactionView>,
}

/// What a ledger is, as plain values.
pub struct LedgerView {
    pub chain: Seq<BlockView>,
    pub pending: Seq<TransactionView>,
}

impl View for Transaction {
    type V = TransactionView;

    open spec fn view(&self) -> TransactionView {
        TransactionView { sender: self.sender@, receiver: self.receiver@, amount: self.amount }
    }
}

/// The views of a sequence of transactions, in order.
pub open spec fn transaction_views(txs: Seq<Transaction>) -> Seq<TransactionView> {
    Seq::new(txs.len(), |i: int| txs[i]@)
}

impl View for Block {
    type V = BlockView;

    open spec fn view(&self) -> BlockView {
        BlockView {
            index: self.index as nat,
            timestamp: self.timestamp@,
            proof: self.proof,
            previous_hash: self.previous_hash@,
            transactions: transaction_views(self.transactions@),
        }
    }
}

/// The views of a sequence of blocks, in order.
pub open spec fn block_views(blocks: Seq<Block>) -> Seq<BlockView> {
    Seq::new(blocks.len(), |i: int| blocks[i]@)
}

impl View for Blockchain {
    type V = LedgerView;

    open spec fn view(&self) -> LedgerView {
        LedgerView {
            chain: block_views(self.chain@),
            pending: transaction_views(self.pending_transactions@),
        }
    }
}

/// Canonical encoding of one transaction.
pub open spec fn transaction_encoding(t: TransactionView) -> Seq<u8> {
    text_bytes("{\"sender\":") + json_string(t.sender) + text_bytes(",\"receiver\":")
        + json_string(t.receiver) + text_bytes(",\"amount\":") + decimal(t.amount as nat)
        + text_bytes("}")
}

/// Canonical encodings of transactions, separated by commas.
pub open spec fn transactions_joined(txs: Seq<TransactionView>) -> Seq<u8>
    decreases txs.len(),
{
    if txs.len() == 0 {
        Seq::empty()
    } else if txs.len() == 1 {
        transaction_encoding(txs[0])
    } else {
        transactions_joined(txs.drop_last()) + text_bytes(",") + transaction_encoding(txs.last())
    }
}

/// Canonical encoding of a block: every field, in declaration order.
pub open spec fn block_encoding(b: BlockView) -> Seq<u8> {
    text_bytes("{\"index\":") + decimal(b.index) + text_bytes(",\"timestamp\":") + json_string(
        b.timestamp,
    ) + text_bytes(",\"proof\":") + decimal(b.proof as nat) + text_bytes(",\"previous_hash\":")
        + json_string(b.previous_hash) + text_bytes(",\"transactions\":[") + transactions_joined(
        b.transactions,
    ) + text_bytes("]}")
}

/// Canonical encodings of blocks, separated by commas.
pub open spec fn blocks_joined(blocks: Seq<BlockView>) -> Seq<u8>
    decreases blocks.len(),
{
    if blocks.len() == 0 {
        Seq::empty()
    } else if blocks.len() == 1 {
        block_encoding(blocks[0])
    } else {
        blocks_joined(blocks.drop_last()) + text_bytes(",") + block_encoding(blocks.last())
    }
}

/// Canonical encoding of a whole ledger: the chain, then the pending buffer.
pub open spec fn ledger_encoding(ledger: LedgerView) -> Seq<u8> {
    text_bytes("{\"chain\":[") + blocks_joined(ledger.chain) + text_bytes(
        "],\"pending_transactions\":[",
    ) + transactions_joined(ledger.pending) + text_bytes("]}")
}

/// A block's hash: the hexadecimal text of the digest of its encoding.
pub open spec fn block_hash(b: BlockView) -> Seq<char> {
    hex_chars(sha256(block_encoding(b)))
}

/// The bytes that are digested to test `proof` against the block `tip`.
pub open spec fn puzzle_input(tip: BlockView, proof: u64) -> Seq<u8> {
    decimal(tip.proof as nat) + encode_utf8(block_hash(tip)) + decimal(proof as nat)
}

/// Whether the first `count` bytes of `bytes` exist and are all zero.
pub open spec fn leading_zero_bytes(bytes: Seq<u8>, count: nat) -> bool {
    &&& count <= bytes.len()
    &&& forall|i: int| 0 <= i < count ==> bytes[i] == 0
}

/// Whether `proof` solves the puzzle that `tip` poses at this difficulty.
pub open spec fn proof_valid(tip: BlockView, proof: u64, difficulty: nat) -> bool {
    leading_zero_bytes(sha256(puzzle_input(tip, proof)), difficulty)
}

/// Whether every block sits at its own index and names the hash of the block
/// before it.
pub open spec fn chain_linked(chain: Seq<BlockView>) -> bool {
    forall|i: int| 0 <= i < chain.len() ==> #[trigger] linked_at(chain, i)
}

/// Whether the block at position `i` sits at its own index and, unless it is
/// the first, names the hash of the block before it.
pub open spec fn linked_at(chain: Seq<BlockView>, i: int) -> bool {
    &&& chain[i].index == i
    &&& (i > 0 ==> chain[i].previous_hash == block_hash(chain[i - 1]))
}

/// The ledger after a block with these values is sealed: the block takes the
/// whole pending buffer and the next index.
pub open spec fn sealed(
    ledger: LedgerView,
    timestamp: Seq<char>,
    proof: u64,
    previous_hash: Seq<char>,
) -> LedgerView {
    LedgerView {
        chain: ledger.chain.push(
            BlockView {
                index: ledger.chain.len(),
                timestamp,
                proof,
                previous_hash,
                transactions: ledger.pending,
            },
        ),
        pending: Seq::empty(),
    }
}

/// The step that follows a candidate: success first, then the attempt cap,
/// then the time limit.
pub open spec fn next_step(valid: bool, candidate: u64, elapsed_nanos: u128) -> SearchStep {
    if valid {
        SearchStep::Found
    } else if candidate + 1 >= MAX_ATTEMPTS {
        SearchStep::Exhausted
    } else if elapsed_nanos > SEARCH_TIMEOUT_NANOS {
        SearchStep::TimedOut
    } else {
        SearchStep::Continue
    }
}

/// Decides how a search goes on after `candidate` has been tested, given
/// whether it solved the puzzle and the time spent so far.
pub fn search_step(valid: bool, candidate: u64, elapsed_nanos: u128) -> (step: SearchStep)
    ensures
        step == next_step(valid, candidate, elapsed_nanos),
{
    if valid {
        SearchStep::Found
    } else if candidate >= MAX_ATTEMPTS - 1 {
        SearchStep::Exhausted
    } else if elapsed_nanos > SEARCH_TIMEOUT_NANOS {
        SearchStep::TimedOut
    } else {
        SearchStep::Continue
    }
}

/// Trusted: `chrono::Utc::now` followed by `DateTime::to_rfc3339`. The text
/// depends on the clock, so nothing is claimed of it.
#[verifier::external_body]
pub(crate) fn current_timestamp() -> (stamp: String) {
    chrono::Utc::now().to_rfc3339()
}

/// Trusted declaration of `std::time::Instant`, a point on the monotonic clock.
#[verifier::external_type_specification]
#[verifier::external_body]
pub struct ExInstant(std::time::Instant);

/// Trusted: `std::time::Instant::now`.
#[verifier::external_body]
pub(crate) fn clock_start() -> (start: std::time::Instant) {
    std::time::Instant::now()
}

/// Trusted: `std::time::Instant::elapsed`. The span depends on the clock, so
/// nothing is claimed of it.
#[verifier::external_body]
pub(crate) fn elapsed_since(start: &std::time::Instant) -> (span: std::time::Duration) {
    start.elapsed()
}

/// Trusted: `std::time::Duration::as_nanos`, the span in whole nanoseconds.
/// Nothing is claimed of the number.
#[verifier::external_body]
pub(crate) fn span_nanos(span: &std::time::Duration) -> (nanos: u128) {
    span.as_nanos()
}

impl Transaction {
    /// The canonical encoding of this transaction.
    pub fn encode(&self) -> (out: Vec<u8>)
        ensures
            out@ == transaction_encoding(self@),
    {
        let mut out = text_vec("{\"sender\":");
        push_json_string(&mut out, self.sender.as_str());
        push_text(&mut out, ",\"receiver\":");
        push_json_string(&mut out, self.receiver.as_str());
        push_text(&mut out, ",\"amount\":");
        push_decimal(&mut out, self.amount);
        push_text(&mut out, "}");
        out
    }
}

/// The canonical encodings of `txs`, separated by commas.
pub fn encode_transactions(txs: &Vec<Transaction>) -> (out: Vec<u8>)
    ensures
        out@ == transactions_joined(transaction_views(txs@)),
{
    let ghost views = transaction_views(txs@);
    let mut out: Vec<u8> = Vec::new();
    let mut i: usize = 0;
    while i < txs.len()
        invariant
            0 <= i <= txs.len(),
            views == transaction_views(txs@),
            out@ == transactions_joined(views.take(i as int)),
        decreases txs.len() - i,
    {
        if i > 0 {
            push_text(&mut out, ",");
        }
        let mut piece = txs[i].encode();
        out.append(&mut piece);
        proof {
            let next = views.take(i as int + 1);
            assert(next.drop_last() =~= views.take(i as int));
            assert(next.last() == txs@[i as int]@);
            if i == 0 {
                assert(next[0] == next.last());
                assert(out@ =~= transaction_encoding(next[0]));
            }
        }
        i += 1;
    }
    assert(views.take(txs.len() as int) =~= views);
    out
}

impl Block {
    /// The canonical encoding of this block.
    pub fn encode(&self) -> (out: Vec<u8>)
        ensures
            out@ == block_encoding(self@),
    {
        let mut out = text_vec("{\"index\":");
        push_decimal(&mut out, self.index as u64);
        push_text(&mut out, ",\"timestamp\":");
        push_json_string(&mut out, self.timestamp.as_str());
        push_text(&mut out, ",\"proof\":");
        push_decimal(&mut out, self.proof);
        push_text(&mut out, ",\"previous_hash\":");
        push_json_string(&mut out, self.previous_hash.as_str());
        push_text(&mut out, ",\"transactions\":[");
        let mut transactions = encode_transactions(&self.transactions);
        out.append(&mut transactions);
        push_text(&mut out, "]}");
        out
    }

    /// The block's hash: the SHA-256 digest of its canonical encoding, as
    /// lower-case hexadecimal text. It is derived anew on every call.
    pub fn hash(&self) -> (text: String)
        ensures
            text@ == block_hash(self@),
    {
        let encoded = self.encode();
        let digest = sha256_digest(&encoded);
        hex_encode(&digest)
    }
}

/// The canonical encodings of `blocks`, separated by commas.
pub fn encode_blocks(blocks: &Vec<Block>) -> (out: Vec<u8>)
    ensures
        out@ == blocks_joined(block_views(blocks@)),
{
    let ghost views = block_views(blocks@);
    let mut out: Vec<u8> = Vec::new();
    let mut i: usize = 0;
    while i < blocks.len()
        invariant
            0 <= i <= blocks.len(),
            views == block_views(blocks@),
            out@ == blocks_joined(views.take(i as int)),
        decreases blocks.len() - i,
    {
        if i > 0 {
            push_text(&mut out, ",");
        }
        let mut piece = blocks[i].encode();
        out.append(&mut piece);
        proof {
            let next = views.take(i as int + 1);
            assert(next.drop_last() =~= views.take(i as int));
            assert(next.last() == blocks@[i as int]@);
            if i == 0 {
                assert(next[0] == next.last());
                assert(out@ =~= block_encoding(next[0]));
            }
        }
        i += 1;
    }
    assert(views.take(blocks.len() as int) =~= views);
    out
}

impl Blockchain {
    /// The snapshot of the ledger: its canonical encoding, chain and pending
    /// buffer both.
    pub fn encode(&self) -> (out: Vec<u8>)
        ensures
            out@ == ledger_encoding(self@),
    {
        let mut out = text_vec("{\"chain\":[");
        let mut chain = encode_blocks(&self.chain);
        out.append(&mut chain);
        push_text(&mut out, "],\"pending_transactions\":[");
        let mut pending = encode_transactions(&self.pending_transactions);
        out.append(&mut pending);
        push_text(&mut out, "]}");
        out
    }

    /// Whether the ledger has been seeded: its chain holds at least a genesis
    /// block.
    pub open spec fn wf(&self) -> bool {
        self.chain@.len() > 0
    }

    /// A fresh ledger: a genesis block with proof 0, the sentinel `"0"` as
    /// previous hash and no transactions, and an empty pending buffer.
    pub fn new() -> (ledger: Blockchain)
        ensures
            ledger.wf(),
            ledger@.pending == Seq::<TransactionView>::empty(),
            ledger@.chain.len() == 1,
            ledger@.chain[0].index == 0,
            ledger@.chain[0].proof == 0,
            ledger@.chain[0].previous_hash == "0"@,
            ledger@.chain[0].transactions == Seq::<TransactionView>::empty(),
            chain_linked(ledger@.chain),
    {
        let mut blockchain = Blockchain { chain: Vec::new(), pending_transactions: Vec::new() };
        assert(blockchain@.chain =~= Seq::<BlockView>::empty());
        assert(blockchain@.pending =~= Seq::<TransactionView>::empty());
        blockchain.add_block(0, "0".to_owned());
        blockchain
    }

    /// Seals a block stamped `timestamp`: it gets the next index, the given
    /// proof and previous hash, and the whole pending buffer, which is left
    /// empty.
    pub fn seal_block(&mut self, timestamp: String, proof: u64, previous_hash: String)
        ensures
            final(self)@ == sealed(old(self)@, timestamp@, proof, previous_hash@),
    {
        let mut transactions: Vec<Transaction> = Vec::new();
        std::mem::swap(&mut transactions, &mut self.pending_transactions);
        let block = Block {
            index: self.chain.len(),
            timestamp,
            proof,
            previous_hash,
            transactions,
        };
        self.chain.push(block);
        assert(final(self)@.chain =~= sealed(
            old(self)@,
            timestamp@,
            proof,
            previous_hash@,
        ).chain);
        assert(final(self)@.pending =~= Seq::<TransactionView>::empty());
    }

    /// Seals a block stamped with the current time. All but the timestamp of
    /// the new block is determined by the arguments and the ledger.
    pub fn add_block(&mut self, proof: u64, previous_hash: String)
        ensures
            final(self)@ == sealed(
                old(self)@,
                final(self)@.chain.last().timestamp,
                proof,
                previous_hash@,
            ),
    {
        let timestamp = current_timestamp();
        self.seal_block(timestamp, proof, previous_hash);
    }

    /// Appends a transaction to the pending buffer. Nothing is checked of it.
    pub fn add_transaction(&mut self, sender: String, receiver: String, amount: u64)
        ensures
            final(self)@.chain == old(self)@.chain,
            final(self)@.pending == old(self)@.pending.push(
                TransactionView { sender: sender@, receiver: receiver@, amount },
            ),
    {
        self.pending_transactions.push(Transaction { sender, receiver, amount });
        assert(final(self)@.pending =~= old(self)@.pending.push(
            TransactionView { sender: sender@, receiver: receiver@, amount },
        ));
    }

    /// The last block of the chain, if there is one.
    pub fn last_block(&self) -> (tip: Option<&Block>)
        ensures
            self.chain@.len() == 0 ==> tip.is_none(),
            self.chain@.len() > 0 ==> tip == Some(&self.chain@.last()),
    {
        if self.chain.len() == 0 {
            None
        } else {
            Some(&self.chain[self.chain.len() - 1])
        }
    }

    /// Whether `proof` solves the puzzle posed by `last_block`: the digest of
    /// the block's proof, the block's hash and `proof`, written one after the
    /// other, starts with `difficulty` zero bytes.
    pub fn valid_proof(&self, last_block: &Block, proof: u64, difficulty: usize) -> (valid: bool)
        requires
            difficulty <= DIGEST_LEN,
        ensures
            valid == proof_valid(last_block@, proof, difficulty as nat),
    {
        let mut guess: Vec<u8> = Vec::new();
        push_decimal(&mut guess, last_block.proof);
        let hash = last_block.hash();
        let mut hash_bytes = hash.as_str().as_bytes_vec();
        guess.append(&mut hash_bytes);
        push_decimal(&mut guess, proof);
        assert(guess@ =~= puzzle_input(last_block@, proof));
        let digest = sha256_digest(&guess);
        let mut i: usize = 0;
        while i < difficulty
            invariant
                0 <= i <= difficulty <= digest@.len(),
                digest@ == sha256(puzzle_input(last_block@, proof)),
                forall|j: int| 0 <= j < i ==> digest@[j] == 0,
            decreases difficulty - i,
        {
            if digest[i] != 0 {
                return false;
            }
            i += 1;
        }
        true
    }

    /// Searches for the smallest proof that solves the puzzle posed by
    /// `last_block`, trying 0, 1, 2, ... in turn. The search ends at the first
    /// valid proof, after `MAX_ATTEMPTS` candidates, or once the time limit
    /// has passed. The outcome holds the last candidate tried and says which
    /// of the three happened: only `Found` means that the proof is valid.
    pub fn search(&self, last_block: &Block, difficulty: usize) -> (outcome: SearchOutcome)
        requires
            difficulty <= DIGEST_LEN,
        ensures
            outcome.proof < MAX_ATTEMPTS,
            outcome.attempts == outcome.proof + 1,
            forall|q: u64| q < outcome.proof ==> !proof_valid(last_block@, q, difficulty as nat),
            outcome.end != SearchStep::Continue,
            outcome.end == next_step(
                proof_valid(last_block@, outcome.proof, difficulty as nat),
                outcome.proof,
                outcome.elapsed_nanos,
            ),
    {
        let start = clock_start();
        let mut proof: u64 = 0;
        loop
            invariant
                difficulty <= DIGEST_LEN,
                proof < MAX_ATTEMPTS,
                forall|q: u64| q < proof ==> !proof_valid(last_block@, q, difficulty as nat),
            decreases MAX_ATTEMPTS - proof,
        {
            let valid = self.valid_proof(last_block, proof, difficulty);
            let span = elapsed_since(&start);
            let elapsed = span_nanos(&span);
            let step = search_step(valid, proof, elapsed);
            match step {
                SearchStep::Continue => {
                    proof += 1;
                },
                _ => {
                    return SearchOutcome {
                        proof,
                        attempts: proof + 1,
                        elapsed_nanos: elapsed,
                        end: step,
                    };
                },
            }
        }
    }

    /// The proof that `search` ends with. Where the search gave up, at the
    /// attempt cap or the time limit, this is the last candidate it tried,
    /// which does not solve the puzzle.
    pub fn proof_of_work(&self, last_block: &Block, difficulty: usize) -> (proof: u64)
        requires
            difficulty <= DIGEST_LEN,
        ensures
            proof < MAX_ATTEMPTS,
            forall|q: u64| q < proof ==> !proof_valid(last_block@, q, difficulty as nat),
    {
        self.search(last_block, difficulty).proof
    }

    /// Mines a block on top of the current tip: searches for a proof, then
    /// seals a block that names the tip's hash and takes the pending buffer.
    pub fn mine_block(&mut self, difficulty: usize)
        requires
            old(self).wf(),
            difficulty <= DIGEST_LEN,
        ensures
            final(self)@ == sealed(
                old(self)@,
                final(self)@.chain.last().timestamp,
                final(self)@.chain.last().proof,
                block_hash(old(self)@.chain.last()),
            ),
            final(self)@.chain.last().proof < MAX_ATTEMPTS,
            forall|q: u64|
                q < final(self)@.chain.last().proof ==> !proof_valid(
                    old(self)@.chain.last(),
                    q,
                    difficulty as nat,
                ),
            chain_linked(old(self)@.chain) ==> chain_linked(final(self)@.chain),
    {
        let last_block = &self.chain[self.chain.len() - 1];
        let proof = self.proof_of_work(last_block, difficulty);
        let previous_hash = last_block.hash();
        self.add_block(proof, previous_hash);
        proof {
            if chain_linked(old(self)@.chain) {
                lemma_seal_keeps_links(
                    old(self)@,
                    final(self)@.chain.last().timestamp,
                    proof,
                );
            }
        }
    }

    /// Checks the whole chain: every block sits at its own index and names the
    /// hash of the block before it.
    pub fn is_valid_chain(&self) -> (valid: bool)
        ensures
            valid == chain_linked(self@.chain),
    {
        let mut i: usize = 0;
        while i < self.chain.len()
            invariant
                0 <= i <= self.chain@.len(),
                forall|k: int| 0 <= k < i ==> #[trigger] linked_at(self@.chain, k),
            decreases self.chain@.len() - i,
        {
            if self.chain[i].index != i {
                assert(!linked_at(self@.chain, i as int));
                return false;
            }
            if i > 0 {
                let expected = self.chain[i - 1].hash();
                if self.chain[i].previous_hash != expected {
                    assert(!linked_at(self@.chain, i as int));
                    return false;
                }
            }
            assert(linked_at(self@.chain, i as int));
            i += 1;
        }
        true
    }
}

/// Sealing a block that names the hash of the tip keeps a linked chain linked.
pub proof fn lemma_seal_keeps_links(ledger: LedgerView, timestamp: Seq<char>, proof: u64)
    requires
        ledger.chain.len() > 0,
        chain_linked(ledger.chain),
    ensures
        chain_linked(sealed(ledger, timestamp, proof, block_hash(ledger.chain.last())).chain),
{
    let after = sealed(ledger, timestamp, proof, block_hash(ledger.chain.last())).chain;
    assert forall|i: int| 0 <= i < after.len() implies #[trigger] linked_at(after, i) by {
        if i < ledger.chain.len() {
            assert(linked_at(ledger.chain, i));
        }
    }
}

/// In a linked chain every block after the first names the hash of the block
/// before it, and every block sits at its own index.
pub proof fn lemma_linked_chain_hashes(chain: Seq<BlockView>, i: int)
    requires
        chain_linked(chain),
        0 < i < chain.len(),
    ensures
        chain[i].previous_hash == block_hash(chain[i - 1]),
        chain[i].index == i,
{
    assert(linked_at(chain, i));
}

/// The step after a candidate is `Found` exactly when the candidate solves
/// the puzzle, `Exhausted` only at the attempt cap, and `TimedOut` only past
/// the time limit.
pub proof fn lemma_search_step_reasons(valid: bool, candidate: u64, elapsed_nanos: u128)
    ensures
        next_step(valid, candidate, elapsed_nanos) == SearchStep::Found <==> valid,
        next_step(valid, candidate, elapsed_nanos) == SearchStep::Exhausted ==> candidate + 1
            >= MAX_ATTEMPTS,
        next_step(valid, candidate, elapsed_nanos) == SearchStep::TimedOut ==> elapsed_nanos
            > SEARCH_TIMEOUT_NANOS,
{
}

/// At difficulty 0 every proof solves every puzzle.
pub proof fn lemma_zero_difficulty_accepts_all(tip: BlockView, proof: u64)
    ensures
        proof_valid(tip, proof, 0),
{
}

/// A proof solves the puzzle exactly when the digest of the puzzle input has
/// at least `difficulty` bytes and the first `difficulty` of them are zero.
pub proof fn lemma_proof_valid_iff_zero_prefix(tip: BlockView, proof: u64, difficulty: nat)
    ensures
        proof_valid(tip, proof, difficulty) <==> {
            let digest = sha256(puzzle_input(tip, proof));
            difficulty <= digest.len() && digest.take(difficulty as int) =~= Seq::new(
                difficulty,
                |i: int| 0u8,
            )
        },
{
    let digest = sha256(puzzle_input(tip, proof));
    if difficulty <= digest.len() {
        let zeros = Seq::new(difficulty, |i: int| 0u8);
        if digest.take(difficulty as int) =~= zeros {
            assert forall|i: int| 0 <= i < difficulty implies digest[i] == 0 by {
                assert(digest.take(difficulty as int)[i] == zeros[i]);
            }
        }
    }
}

} // verus!
