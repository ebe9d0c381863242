use crate::block::{lemma_push_contains, string_views, BlockData};
use vstd::prelude::*;

verus! {

/// A found-address record: the address, the derivation path's text and the
/// mnemonic that reach it.
#[derive(Clone, Debug)]
pub struct FoundAddress {
    pub address: String,
    pub derivation_path: String,
    pub mnemonic: String,
}

impl View for FoundAddress {
    type V = (Seq<char>, Seq<char>, Seq<char>);

    open spec fn view(&self) -> (Seq<char>, Seq<char>, Seq<char>) {
        (self.address@, self.derivation_path@, self.mnemonic@)
    }
}

impl FoundAddress {
    /// A copy of the record.
    pub fn clone_record(&self) -> (r: FoundAddress)
        ensures
            r@ == self@,
    {
        FoundAddress {
            address: self.address.clone(),
            derivation_path: self.derivation_path.clone(),
            mnemonic: self.mnemonic.clone(),
        }
    }
}

/// What a corpus store holds: the addresses seen on chain, the heights of the
/// blocks indexed, and the found-address records.
pub struct CorpusModel {
    pub addresses: Set<Seq<char>>,
    pub blocks: Set<u64>,
    pub found: Set<(Seq<char>, Seq<char>, Seq<char>)>,
}

/// The store after committing a block: when its marker is absent, the marker
/// and the block's addresses are added together; otherwise nothing changes.
pub open spec fn commit_block(m: CorpusModel, height: u64, addresses: Seq<Seq<char>>) -> CorpusModel {
    if m.blocks.contains(height) {
        m
    } else {
        CorpusModel {
            addresses: m.addresses.union(addresses.to_set()),
            blocks: m.blocks.insert(height),
            found: m.found,
        }
    }
}

/// The store after recording a found address; a triple already there is kept once.
pub open spec fn record_found(m: CorpusModel, f: (Seq<char>, Seq<char>, Seq<char>)) -> CorpusModel {
    CorpusModel { addresses: m.addresses, blocks: m.blocks, found: m.found.insert(f) }
}

/// The rows that recording `f` adds: one for a new triple, none otherwise.
pub open spec fn found_rows_added(m: CorpusModel, f: (Seq<char>, Seq<char>, Seq<char>)) -> nat {
    if m.found.contains(f) {
        0
    } else {
        1
    }
}

/// Recording the same found-address triple twice adds exactly one row: the
/// first recording adds it, and the second changes nothing.
pub proof fn lemma_found_recorded_once(m: CorpusModel, f: (Seq<char>, Seq<char>, Seq<char>))
    requires
        !m.found.contains(f),
    ensures
        found_rows_added(m, f) + found_rows_added(record_found(m, f), f) == 1,
        record_found(record_found(m, f), f) == record_found(m, f),
        record_found(m, f).found.contains(f),
{
    assert(m.found.insert(f).insert(f) =~= m.found.insert(f));
}

/// Right after a block commits, every one of its addresses is in the store,
/// and so is its marker.
pub proof fn lemma_committed_addresses_present(
    m: CorpusModel,
    height: u64,
    addresses: Seq<Seq<char>>,
    a: Seq<char>,
)
    requires
        !m.blocks.contains(height),
        addresses.contains(a),
    ensures
        commit_block(m, height, addresses).addresses.contains(a),
        commit_block(m, height, addresses).blocks.contains(height),
{
}

/// An append-only corpus store held in memory.
pub struct MemoryRepo {
    addresses: Vec<String>,
    blocks: Vec<u64>,
    found: Vec<FoundAddress>,
}

impl View for MemoryRepo {
    type V = CorpusModel;

    closed spec fn view(&self) -> CorpusModel {
        CorpusModel {
            addresses: string_views(self.addresses@).to_set(),
            blocks: self.blocks@.to_set(),
            found: self.found@.map_values(|f: FoundAddress| f@).to_set(),
        }
    }
}

impl MemoryRepo {
    /// No address, height or record is held twice.
    pub closed spec fn wf(&self) -> bool {
        &&& string_views(self.addresses@).no_duplicates()
        &&& self.blocks@.no_duplicates()
        &&& self.found@.map_values(|f: FoundAddress| f@).no_duplicates()
    }

    /// The number of distinct addresses held.
    pub closed spec fn address_count(&self) -> nat {
        self.addresses@.len()
    }

    /// An empty store.
    pub fn new() -> (r: MemoryRepo)
        ensures
            r@.addresses == Set::<Seq<char>>::empty(),
            r@.blocks == Set::<u64>::empty(),
            r@.found == Set::<(Seq<char>, Seq<char>, Seq<char>)>::empty(),
            r.address_count() == 0,
            r.wf(),
    {
        let r = MemoryRepo { addresses: Vec::new(), blocks: Vec::new(), found: Vec::new() };
        proof {
            assert(string_views(r.addresses@).to_set() =~= Set::<Seq<char>>::empty());
            assert(r.blocks@.to_set() =~= Set::<u64>::empty());
            assert(r.found@.map_values(|f: FoundAddress| f@).to_set() =~= Set::<
                (Seq<char>, Seq<char>, Seq<char>),
            >::empty());
        }
        r
    }

    /// Whether the address has been committed.
    pub fn address_exists(&self, address: &str) -> (r: bool)
        ensures
            r == self@.addresses.contains(address@),
    {
        let wanted = address.to_string();
        let mut i: usize = 0;
        while i < self.addresses.len()
            invariant
                i <= self.addresses@.len(),
                wanted@ == address@,
                forall|j: int| 0 <= j < i ==> self.addresses@[j]@ != address@,
            decreases self.addresses@.len() - i,
        {
            if self.addresses[i] == wanted {
                proof {
                    assert(string_views(self.addresses@)[i as int] == address@);
                }
                return true;
            }
            i = i + 1;
        }
        proof {
            if string_views(self.addresses@).contains(address@) {
                let j = choose|j: int|
                    0 <= j < string_views(self.addresses@).len() && string_views(self.addresses@)[j]
                        == address@;
                assert(self.addresses@[j]@ == address@);
            }
        }
        false
    }

    /// Whether the block's marker has been committed.
    pub fn block_exists(&self, block_number: u64) -> (r: bool)
        ensures
            r == self@.blocks.contains(block_number),
    {
        let mut i: usize = 0;
        while i < self.blocks.len()
            invariant
                i <= self.blocks@.len(),
                forall|j: int| 0 <= j < i ==> self.blocks@[j] != block_number,
            decreases self.blocks@.len() - i,
        {
            if self.blocks[i] == block_number {
                return true;
            }
            i = i + 1;
        }
        false
    }

    /// Commits a block's marker together with its addresses, skipping the
    /// addresses already held. Returns how many addresses were new, or `None`
    /// (and changes nothing) when the marker was already there.
    pub fn insert_block_data(&mut self, block_data: &BlockData) -> (r: Option<usize>)
        requires
            old(self).wf(),
        ensures
            final(self).wf(),
            final(self)@ == commit_block(old(self)@, block_data.block_number, string_views(block_data.addresses@)),
            r is Some <==> !old(self)@.blocks.contains(block_data.block_number),
            r matches Some(n) ==> final(self).address_count() == old(self).address_count() + n,
    {
        if self.block_exists(block_data.block_number) {
            return None;
        }
        let ghost old_addresses = string_views(self.addresses@);
        let ghost incoming = string_views(block_data.addresses@);
        let mut added: usize = 0;
        let mut i: usize = 0;
        while i < block_data.addresses.len()
            invariant
                i <= incoming.len(),
                incoming == string_views(block_data.addresses@),
                string_views(self.addresses@).no_duplicates(),
                self.blocks@.no_duplicates(),
                self.found@.map_values(|f: FoundAddress| f@).no_duplicates(),
                self.blocks@ == old(self).blocks@,
                self.found@ == old(self).found@,
                !self.blocks@.contains(block_data.block_number),
                string_views(self.addresses@).to_set() == old_addresses.to_set().union(
                    incoming.subrange(0, i as int).to_set(),
                ),
                self.addresses@.len() == old(self).addresses@.len() + added,
                added <= i,
            decreases incoming.len() - i,
        {
            let a = &block_data.addresses[i];
            let present = self.address_exists(a.as_str());
            let ghost before = string_views(self.addresses@);
            if !present {
                self.addresses.push(a.clone());
                added = added + 1;
                proof {
                    assert(string_views(self.addresses@) =~= before.push(a@));
                    assert forall|x: int, y: int|
                        0 <= x < y < before.len() + 1 implies before.push(a@)[x] != before.push(a@)[y] by {
                        if y == before.len() {
                            assert(before[x] == before.push(a@)[x]);
                        }
                    }
                }
            }
            proof {
                let prefix = incoming.subrange(0, i as int);
                assert(incoming.subrange(0, i as int + 1) =~= prefix.push(a@));
                if present {
                    assert(old_addresses.to_set().union(prefix.to_set()).contains(a@));
                }
                assert forall|s: Seq<char>|
                    string_views(self.addresses@).to_set().contains(s) <==> old_addresses.to_set().union(
                        incoming.subrange(0, i as int + 1).to_set(),
                    ).contains(s) by {
                    lemma_push_contains(before, a@, s);
                    lemma_push_contains(prefix, a@, s);
                    assert(old_addresses.to_set().union(prefix.to_set()).contains(s) <==> before.contains(s));
                }
                assert(string_views(self.addresses@).to_set() =~= old_addresses.to_set().union(
                    incoming.subrange(0, i as int + 1).to_set(),
                ));
            }
            i = i + 1;
        }
        let ghost before_blocks = self.blocks@;
        self.blocks.push(block_data.block_number);
        proof {
            assert(incoming.subrange(0, incoming.len() as int) =~= incoming);
            assert forall|x: int, y: int|
                0 <= x < y < self.blocks@.len() implies self.blocks@[x] != self.blocks@[y] by {
                if y == before_blocks.len() {
                    assert(before_blocks.contains(before_blocks[x]));
                }
            }
            assert(self.blocks@.to_set() =~= old(self)@.blocks.insert(block_data.block_number)) by {
                assert forall|h: u64| self.blocks@.contains(h) <==> #[trigger] before_blocks.contains(h) || h == block_data.block_number by {
                    if self.blocks@.contains(h) && h != block_data.block_number {
                        let k = choose|k: int| 0 <= k < self.blocks@.len() && self.blocks@[k] == h;
                        assert(before_blocks[k] == h);
                    }
                    if before_blocks.contains(h) {
                        let k = choose|k: int| 0 <= k < before_blocks.len() && before_blocks[k] == h;
                        assert(self.blocks@[k] == h);
                    }
                    assert(self.blocks@[before_blocks.len() as int] == block_data.block_number);
                }
            }
            assert(self@.found == old(self)@.found);
            assert(self@.addresses == old(self)@.addresses.union(incoming.to_set()));
        }
        Some(added)
    }

    /// Records a found address unless the same triple is already recorded;
    /// returns the number of rows added (1 or 0).
    pub fn insert_found_address(&mut self, found_address: FoundAddress) -> (r: usize)
        requires
            old(self).wf(),
        ensures
            final(self).wf(),
            final(self)@ == record_found(old(self)@, found_address@),
            r == found_rows_added(old(self)@, found_address@),
    {
        let ghost views = self.found@.map_values(|f: FoundAddress| f@);
        let mut i: usize = 0;
        while i < self.found.len()
            invariant
                i <= self.found@.len(),
                views == self.found@.map_values(|f: FoundAddress| f@),
                forall|j: int| 0 <= j < i ==> views[j] != found_address@,
                self.wf(),
            decreases self.found@.len() - i,
        {
            let f = &self.found[i];
            if f.address == found_address.address && f.derivation_path == found_address.derivation_path
                && f.mnemonic == found_address.mnemonic {
                proof {
                    assert(views[i as int] == found_address@);
                    assert(self@.found.insert(found_address@) =~= self@.found);
                }
                return 0;
            }
            i = i + 1;
        }
        proof {
            if views.contains(found_address@) {
                let j = choose|j: int| 0 <= j < views.len() && views[j] == found_address@;
                assert(false);
            }
        }
        let ghost fv = found_address@;
        self.found.push(found_address);
        proof {
            let now = self.found@.map_values(|f: FoundAddress| f@);
            assert(now =~= views.push(fv));
            assert forall|x: int, y: int| 0 <= x < y < now.len() implies now[x] != now[y] by {
                if y == views.len() {
                    assert(views.contains(views[x]));
                }
            }
            assert(now.to_set() =~= views.to_set().insert(fv)) by {
                assert forall|t: (Seq<char>, Seq<char>, Seq<char>)| now.contains(t) <==> #[trigger] views.contains(t) || t == fv by {
                    if now.contains(t) && t != fv {
                        let k = choose|k: int| 0 <= k < now.len() && now[k] == t;
                        assert(views[k] == t);
                    }
                    if views.contains(t) {
                        let k = choose|k: int| 0 <= k < views.len() && views[k] == t;
                        assert(now[k] == t);
                    }
                    assert(now[views.len() as int] == fv);
                }
            }
        }
        1
    }
}

} // verus!
