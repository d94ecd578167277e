//! What a node does with the messages of its peers. The network itself is
//! not here: a caller reads a message from a connection, hands it to
//! `handle_message` together with the ledger, and carries out the reply.

use crate::blockchain::{
    block_encoding, block_hash, chain_linked, ledger_encoding, linked_at, transaction_encoding,
    Block, BlockView, Blockchain, LedgerView, Transaction,
};
use crate::encoding::{push_text, text_bytes, text_vec};
use crate::peers::PeerSet;
use vstd::prelude::*;

verus! {

/// A message between peers.
#[derive(Clone, Debug)]
pub enum Message {
    /// A newly sealed block.
    NewBlock(Block),
    /// A newly submitted transaction.
    NewTransaction(Transaction),
    /// A request for the receiver's whole ledger.
    RequestChain,
    /// A whole ledger.
    SendChain(Blockchain),
}

/// What the node owes its peers after a message has been applied.
#[derive(Clone, Copy, Debug, PartialEq, Eq, Structural)]
pub enum Reply {
    /// Nothing is sent.
    Nothing,
    /// The message that was applied is sent on to every peer.
    Relay,
    /// The node's own ledger is sent to every peer.
    ShareChain,
}

/// What one read on a peer connection gave.
#[derive(Clone, Copy, Debug, PartialEq, Eq, Structural)]
pub enum ReadEvent {
    /// The read returned this many bytes; none means the peer has closed.
    Bytes(usize),
    /// The read failed.
    Failed,
}

/// The state of a peer connection.
#[derive(Clone, Copy, Debug, PartialEq, Eq, Structural)]
pub enum ConnectionState {
    /// The peer is in the peer set and the next read is awaited.
    Receiving,
    /// The connection is over and the peer has left the peer set.
    Disconnected,
}

/// Whether an announced block extends the ledger: it claims the next index
/// and names the hash of the current tip.
pub open spec fn accepts_block(ledger: LedgerView, block: BlockView) -> bool {
    &&& ledger.chain.len() > 0
    &&& block.index == ledger.chain.len()
    &&& block.previous_hash == block_hash(ledger.chain.last())
}

/// The ledger after a message has been applied.
pub open spec fn applied(ledger: LedgerView, message: Message) -> LedgerView {
    match message {
        Message::NewBlock(block) => if accepts_block(ledger, block@) {
            LedgerView { chain: ledger.chain.push(block@), pending: ledger.pending }
        } else {
            ledger
        },
        Message::NewTransaction(transaction) => LedgerView {
            chain: ledger.chain,
            pending: ledger.pending.push(transaction@),
        },
        Message::RequestChain => ledger,
        Message::SendChain(remote) => if remote@.chain.len() > ledger.chain.len() {
            remote@
        } else {
            ledger
        },
    }
}

/// The reply that a message calls for.
pub open spec fn reply_to(ledger: LedgerView, message: Message) -> Reply {
    match message {
        Message::NewBlock(block) => if accepts_block(ledger, block@) {
            Reply::Relay
        } else {
            Reply::Nothing
        },
        Message::NewTransaction(_) => Reply::Relay,
        Message::RequestChain => Reply::ShareChain,
        Message::SendChain(_) => Reply::Nothing,
    }
}

/// Applies a peer's message to the ledger and says what to send in turn.
///
/// An announced block is appended only if it extends the tip, and is dropped
/// otherwise. A transaction is always appended to the pending buffer. A
/// received ledger replaces the local one only if its chain is strictly
/// longer; nothing else of it is checked.
pub fn handle_message(ledger: &mut Blockchain, message: Message) -> (reply: Reply)
    requires
        message is NewBlock ==> old(ledger).wf(),
    ensures
        final(ledger)@ == applied(old(ledger)@, message),
        reply == reply_to(old(ledger)@, message),
        old(ledger).wf() ==> final(ledger).wf(),
{
    match message {
        Message::NewBlock(block) => {
            let tip_hash = ledger.chain[ledger.chain.len() - 1].hash();
            if block.index == ledger.chain.len() && block.previous_hash == tip_hash {
                ledger.chain.push(block);
                assert(final(ledger)@.chain =~= old(ledger)@.chain.push(block@));
                Reply::Relay
            } else {
                Reply::Nothing
            }
        },
        Message::NewTransaction(transaction) => {
            ledger.pending_transactions.push(transaction);
            assert(final(ledger)@.pending =~= old(ledger)@.pending.push(transaction@));
            Reply::Relay
        },
        Message::RequestChain => Reply::ShareChain,
        Message::SendChain(remote) => {
            if remote.chain.len() > ledger.chain.len() {
                *ledger = remote;
            }
            Reply::Nothing
        },
    }
}

/// The state that a read leaves a connection in: data keeps it receiving;
/// an empty read or a failure ends it.
pub open spec fn state_after(event: ReadEvent) -> ConnectionState {
    match event {
        ReadEvent::Bytes(n) => if n > 0 {
            ConnectionState::Receiving
        } else {
            ConnectionState::Disconnected
        },
        ReadEvent::Failed => ConnectionState::Disconnected,
    }
}

/// Settles one read on the connection of the peer at `address`. While data
/// arrives the connection goes on receiving, the peer set is untouched, and
/// the caller parses and applies what it read. When the connection ends the
/// peer leaves the peer set.
pub fn after_read(
    peers: &mut PeerSet,
    address: &String,
    event: ReadEvent,
) -> (next: ConnectionState)
    requires
        old(peers).wf(),
    ensures
        final(peers).wf(),
        next == state_after(event),
        next == ConnectionState::Receiving ==> final(peers)@ == old(peers)@,
        next == ConnectionState::Disconnected ==> final(peers)@ == old(peers)@.remove(address@),
{
    let receiving = match event {
        ReadEvent::Bytes(n) => n > 0,
        ReadEvent::Failed => false,
    };
    if receiving {
        ConnectionState::Receiving
    } else {
        peers.remove(address);
        ConnectionState::Disconnected
    }
}

/// A received ledger is adopted exactly when its chain is strictly longer
/// than the local one; otherwise, ties included, the local ledger stays.
pub proof fn lemma_longest_chain_wins(local: LedgerView, remote: Blockchain)
    ensures
        remote@.chain.len() > local.chain.len() ==> applied(local, Message::SendChain(remote))
            == remote@,
        remote@.chain.len() <= local.chain.len() ==> applied(local, Message::SendChain(remote))
            == local,
{
}

/// Unless a whole ledger is adopted, the chain before a message is a prefix
/// of the chain after it; in every case the chain does not get shorter.
pub proof fn lemma_chain_never_shrinks(ledger: LedgerView, message: Message)
    ensures
        applied(ledger, message).chain.len() >= ledger.chain.len(),
        !(message is SendChain) ==> applied(ledger, message).chain.take(
            ledger.chain.len() as int,
        ) == ledger.chain,
{
    if !(message is SendChain) {
        assert(applied(ledger, message).chain.take(ledger.chain.len() as int) =~= ledger.chain);
    }
}

/// An announced block, accepted or not, leaves a linked chain linked.
pub proof fn lemma_new_block_keeps_links(ledger: LedgerView, block: Block)
    requires
        chain_linked(ledger.chain),
    ensures
        chain_linked(applied(ledger, Message::NewBlock(block)).chain),
{
    let after = applied(ledger, Message::NewBlock(block)).chain;
    assert forall|i: int| 0 <= i < after.len() implies #[trigger] linked_at(after, i) by {
        if i < ledger.chain.len() {
            assert(linked_at(ledger.chain, i));
        }
    }
}

/// The wire form of a message: a JSON value tagged with the variant's name.
pub open spec fn message_encoding(message: Message) -> Seq<u8> {
    match message {
        Message::NewBlock(block) => text_bytes("{\"NewBlock\":") + block_encoding(block@)
            + text_bytes("}"),
        Message::NewTransaction(transaction) => text_bytes("{\"NewTransaction\":")
            + transaction_encoding(transaction@) + text_bytes("}"),
        Message::RequestChain => text_bytes("\"RequestChain\""),
        Message::SendChain(ledger) => text_bytes("{\"SendChain\":") + ledger_encoding(ledger@)
            + text_bytes("}"),
    }
}

impl Message {
    /// The bytes that carry this message to a peer.
    pub fn encode(&self) -> (out: Vec<u8>)
        ensures
            out@ == message_encoding(*self),
    {
        match self {
            Message::NewBlock(block) => {
                let mut out = text_vec("{\"NewBlock\":");
                let mut body = block.encode();
                out.append(&mut body);
                push_text(&mut out, "}");
                out
            },
            Message::NewTransaction(transaction) => {
                let mut out = text_vec("{\"NewTransaction\":");
                let mut body = transaction.encode();
                out.append(&mut body);
                push_text(&mut out, "}");
                out
            },
            Message::RequestChain => text_vec("\"RequestChain\""),
            Message::SendChain(ledger) => {
                let mut out = text_vec("{\"SendChain\":");
                let mut body = ledger.encode();
                out.append(&mut body);
                push_text(&mut out, "}");
                out
            },
        }
    }
}

} // verus!
