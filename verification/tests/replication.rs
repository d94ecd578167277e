use chain_core::blockchain::{Block, Blockchain, Transaction};
use chain_core::peers::PeerSet;
use chain_core::replication::{after_read, handle_message, ConnectionState, Message, ReadEvent, Reply};

fn mined(blocks: usize) -> Blockchain {
    let mut ledger = Blockchain::new();
    for i in 0..blocks {
        ledger.add_transaction("A".to_string(), "B".to_string(), i as u64);
        ledger.mine_block(1);
    }
    ledger
}

fn hashes(ledger: &Blockchain) -> Vec<String> {
    ledger.chain.iter().map(|b| b.hash()).collect()
}

#[test]
fn longer_chain_replaces_local() {
    let mut local = mined(2);
    let remote = mined(4);
    assert_eq!(local.chain.len(), 3);
    assert_eq!(remote.chain.len(), 5);
    let reply = handle_message(&mut local, Message::SendChain(remote.clone()));
    assert_eq!(reply, Reply::Nothing);
    assert_eq!(local.chain.len(), 5);
    assert_eq!(hashes(&local), hashes(&remote));
    assert_eq!(local.encode(), remote.encode());
}

#[test]
fn shorter_chain_is_ignored() {
    let mut local = mined(2);
    let before = local.encode();
    let remote = mined(1);
    assert_eq!(remote.chain.len(), 2);
    let reply = handle_message(&mut local, Message::SendChain(remote));
    assert_eq!(reply, Reply::Nothing);
    assert_eq!(local.encode(), before);
}

#[test]
fn equal_length_chain_is_ignored() {
    let mut local = mined(2);
    let before = local.encode();
    let mut remote = mined(2);
    remote.chain[2].proof = 12345;
    assert_eq!(remote.chain.len(), local.chain.len());
    let reply = handle_message(&mut local, Message::SendChain(remote));
    assert_eq!(reply, Reply::Nothing);
    assert_eq!(local.encode(), before);
}

#[test]
fn longer_chain_is_adopted_unchecked() {
    let mut local = Blockchain::new();
    let mut remote = mined(1);
    remote.chain[1].previous_hash = "bogus".to_string();
    remote.pending_transactions.push(Transaction {
        sender: "X".to_string(),
        receiver: "Y".to_string(),
        amount: 1,
    });
    handle_message(&mut local, Message::SendChain(remote.clone()));
    assert_eq!(local.encode(), remote.encode());
    assert!(!local.is_valid_chain());
}

#[test]
fn fresh_node_adopts_mined_chain() {
    let x = mined(2);
    let mut y = Blockchain::new();
    handle_message(&mut y, Message::SendChain(x.clone()));
    assert_eq!(y.chain.len(), x.chain.len());
    assert_eq!(hashes(&y), hashes(&x));
}

#[test]
fn new_block_extending_tip_is_appended_and_relayed() {
    let mut miner = mined(1);
    let mut follower = miner.clone();
    miner.mine_block(1);
    let block = miner.chain[2].clone();
    let reply = handle_message(&mut follower, Message::NewBlock(block));
    assert_eq!(reply, Reply::Relay);
    assert_eq!(follower.chain.len(), 3);
    assert_eq!(hashes(&follower), hashes(&miner));
    assert!(follower.is_valid_chain());
}

#[test]
fn new_block_is_not_sealed_with_pending() {
    let mut miner = mined(1);
    let mut follower = miner.clone();
    follower.add_transaction("P".to_string(), "Q".to_string(), 1);
    miner.mine_block(0);
    handle_message(&mut follower, Message::NewBlock(miner.chain[2].clone()));
    assert_eq!(follower.chain.len(), 3);
    assert_eq!(follower.pending_transactions.len(), 1);
}

#[test]
fn stale_block_is_dropped() {
    let mut miner = mined(1);
    let mut follower = miner.clone();
    miner.mine_block(1);
    let block = miner.chain[2].clone();
    assert_eq!(handle_message(&mut follower, Message::NewBlock(block.clone())), Reply::Relay);
    let before = follower.encode();
    assert_eq!(handle_message(&mut follower, Message::NewBlock(block)), Reply::Nothing);
    assert_eq!(follower.encode(), before);
}

#[test]
fn block_with_wrong_previous_hash_is_dropped() {
    let mut ledger = mined(1);
    let before = ledger.encode();
    let block = Block {
        index: 2,
        timestamp: "t".to_string(),
        proof: 0,
        previous_hash: "not the tip".to_string(),
        transactions: vec![],
    };
    assert_eq!(handle_message(&mut ledger, Message::NewBlock(block)), Reply::Nothing);
    assert_eq!(ledger.encode(), before);
}

#[test]
fn block_with_wrong_index_is_dropped() {
    let mut ledger = mined(1);
    let before = ledger.encode();
    let tip_hash = ledger.chain[1].hash();
    let block = Block {
        index: 3,
        timestamp: "t".to_string(),
        proof: 0,
        previous_hash: tip_hash,
        transactions: vec![],
    };
    assert_eq!(handle_message(&mut ledger, Message::NewBlock(block)), Reply::Nothing);
    assert_eq!(ledger.encode(), before);
}

#[test]
fn transaction_received_twice_is_applied_twice() {
    let mut ledger = Blockchain::new();
    let t = Transaction { sender: "A".to_string(), receiver: "B".to_string(), amount: 10 };
    assert_eq!(handle_message(&mut ledger, Message::NewTransaction(t.clone())), Reply::Relay);
    assert_eq!(handle_message(&mut ledger, Message::NewTransaction(t)), Reply::Relay);
    assert_eq!(ledger.pending_transactions.len(), 2);
    assert_eq!(ledger.pending_transactions[0].amount, 10);
    assert_eq!(ledger.pending_transactions[1].sender, "A");
    assert_eq!(ledger.chain.len(), 1);
}

#[test]
fn request_chain_shares_the_ledger_unchanged() {
    let mut ledger = mined(1);
    let before = ledger.encode();
    assert_eq!(handle_message(&mut ledger, Message::RequestChain), Reply::ShareChain);
    assert_eq!(ledger.encode(), before);
}

#[test]
fn connection_ends_on_empty_read_or_failure() {
    let peer = "127.0.0.1:4030".to_string();
    let other = "127.0.0.1:4031".to_string();
    for event in [ReadEvent::Bytes(0), ReadEvent::Failed] {
        let mut peers = PeerSet::new();
        peers.insert(peer.clone());
        peers.insert(other.clone());
        assert_eq!(after_read(&mut peers, &peer, event), ConnectionState::Disconnected);
        assert!(!peers.contains(&peer));
        assert!(peers.contains(&other));
    }
}

#[test]
fn connection_goes_on_while_data_arrives() {
    let peer = "127.0.0.1:4030".to_string();
    for n in [1usize, 17, 1024] {
        let mut peers = PeerSet::new();
        peers.insert(peer.clone());
        assert_eq!(after_read(&mut peers, &peer, ReadEvent::Bytes(n)), ConnectionState::Receiving);
        assert!(peers.contains(&peer));
        assert_eq!(peers.addresses(), vec![peer.clone()]);
    }
}

#[test]
fn peer_set_holds_each_address_once() {
    let mut peers = PeerSet::new();
    assert!(peers.addresses().is_empty());
    assert!(peers.insert("a:1".to_string()));
    assert!(peers.insert("b:2".to_string()));
    assert!(!peers.insert("a:1".to_string()));
    let mut listed = peers.addresses();
    listed.sort();
    assert_eq!(listed, vec!["a:1".to_string(), "b:2".to_string()]);
    assert!(peers.contains(&"b:2".to_string()));
    assert!(!peers.contains(&"c:3".to_string()));
}

#[test]
fn peer_set_remove() {
    let mut peers = PeerSet::new();
    peers.insert("a:1".to_string());
    peers.insert("b:2".to_string());
    peers.insert("c:3".to_string());
    assert!(peers.remove(&"b:2".to_string()));
    assert!(!peers.remove(&"b:2".to_string()));
    assert!(!peers.remove(&"z:9".to_string()));
    let mut listed = peers.addresses();
    listed.sort();
    assert_eq!(listed, vec!["a:1".to_string(), "c:3".to_string()]);
}
