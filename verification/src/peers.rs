//! The set of peers a node knows, by address. Addresses are text; the set
//! keeps each at most once and has no order that callers may rely on.

use vstd::prelude::*;

verus! {

/// The texts of a sequence of addresses, in order.
pub open spec fn address_views(addresses: Seq<String>) -> Seq<Seq<char>> {
    Seq::new(addresses.len(), |i: int| addresses[i]@)
}

/// The known peers.
#[derive(Clone, Debug)]
pub struct PeerSet {
    addresses: Vec<String>,
}

impl View for PeerSet {
    type V = Set<Seq<char>>;

    closed spec fn view(&self) -> Set<Seq<char>> {
        address_views(self.addresses@).to_set()
    }
}

impl PeerSet {
    /// Whether no address is held twice.
    pub closed spec fn wf(&self) -> bool {
        address_views(self.addresses@).no_duplicates()
    }

    /// The empty set.
    pub fn new() -> (peers: PeerSet)
        ensures
            peers.wf(),
            peers@ == Set::<Seq<char>>::empty(),
    {
        let peers = PeerSet { addresses: Vec::new() };
        assert(peers@ =~= Set::<Seq<char>>::empty());
        peers
    }

    /// Where `address` is held, if it is.
    fn position(&self, address: &String) -> (found: Option<usize>)
        ensures
            match found {
                Some(i) => i < self.addresses@.len() && self.addresses@[i as int]@ == address@,
                None => !address_views(self.addresses@).contains(address@),
            },
    {
        let mut i: usize = 0;
        while i < self.addresses.len()
            invariant
                0 <= i <= self.addresses@.len(),
                forall|k: int| 0 <= k < i ==> self.addresses@[k]@ != address@,
            decreases self.addresses@.len() - i,
        {
            if self.addresses[i] == *address {
                return Some(i);
            }
            i += 1;
        }
        None
    }

    /// Whether `address` is a known peer.
    pub fn contains(&self, address: &String) -> (known: bool)
        ensures
            known == self@.contains(address@),
    {
        let found = self.position(address);
        proof {
            if let Some(i) = found {
                assert(address_views(self.addresses@)[i as int] == address@);
            }
        }
        found.is_some()
    }

    /// Registers a peer. Returns whether it was new.
    pub fn insert(&mut self, address: String) -> (added: bool)
        requires
            old(self).wf(),
        ensures
            final(self).wf(),
            final(self)@ == old(self)@.insert(address@),
            added == !old(self)@.contains(address@),
    {
        let ghost before = address_views(self.addresses@);
        match self.position(&address) {
            Some(i) => {
                assert(before[i as int] == address@);
                assert(self@ =~= old(self)@.insert(address@));
                false
            },
            None => {
                self.addresses.push(address);
                proof {
                    let after = address_views(self.addresses@);
                    assert(after =~= before.push(address@));
                    assert forall|a: Seq<char>| after.contains(a) <==> (before.contains(a) || a
                        == address@) by {
                        if before.contains(a) {
                            let i = choose|i: int| 0 <= i < before.len() && before[i] == a;
                            assert(after[i] == a);
                        }
                        if a == address@ {
                            assert(after[before.len() as int] == a);
                        }
                    }
                    assert(final(self)@ =~= old(self)@.insert(address@));
                }
                true
            },
        }
    }

    /// Forgets a peer. Returns whether it was known.
    pub fn remove(&mut self, address: &String) -> (removed: bool)
        requires
            old(self).wf(),
        ensures
            final(self).wf(),
            final(self)@ == old(self)@.remove(address@),
            removed == old(self)@.contains(address@),
    {
        let ghost before = address_views(self.addresses@);
        match self.position(address) {
            Some(i) => {
                assert(before[i as int] == address@);
                self.addresses.remove(i);
                proof {
                    let after = address_views(self.addresses@);
                    assert(after =~= before.remove(i as int));
                    assert forall|k: int| 0 <= k < after.len() implies after[k] == before[if k
                        < i {
                        k
                    } else {
                        k + 1
                    }] by {}
                    assert forall|a: Seq<char>| after.contains(a) <==> (before.contains(a) && a
                        != address@) by {
                        if before.contains(a) && a != address@ {
                            let j = choose|j: int| 0 <= j < before.len() && before[j] == a;
                            if j < i {
                                assert(after[j] == a);
                            } else {
                                assert(after[j - 1] == a);
                            }
                        }
                    }
                    assert(final(self)@ =~= old(self)@.remove(address@));
                }
                true
            },
            None => {
                assert(self@ =~= old(self)@.remove(address@));
                false
            },
        }
    }

    /// The known peers as a list, each once.
    pub fn addresses(&self) -> (list: Vec<String>)
        requires
            self.wf(),
        ensures
            address_views(list@).no_duplicates(),
            address_views(list@).to_set() == self@,
    {
        let mut list: Vec<String> = Vec::new();
        let mut i: usize = 0;
        while i < self.addresses.len()
            invariant
                0 <= i <= self.addresses@.len(),
                list@.len() == i,
                forall|k: int| 0 <= k < i ==> list@[k]@ == self.addresses@[k]@,
            decreases self.addresses@.len() - i,
        {
            list.push(self.addresses[i].clone());
            i += 1;
        }
        assert(address_views(list@) =~= address_views(self.addresses@));
        list
    }
}

} // verus!
