//! The chain state store: for each destination chain its RPC services and
//! the nonce of the next transaction.
//!
//! A job reads the nonce, submits, and commits. The commit is a
//! compare-and-advance: it takes the nonce that the job used and advances
//! the counter only if that is still the current one, so that of two jobs
//! that read the same nonce at most one commits.

use crate::rpc::RpcServices;
use crate::word::{u256_checked_add, word_modulus, Word};
use vstd::prelude::*;

verus! {

/// Why the store refused an operation.
#[derive(Clone, Copy, Debug, PartialEq, Eq, Structural)]
pub enum StoreError {
    /// The store has no entry for the chain.
    NotFound,
    /// The store already has an entry for the chain.
    DuplicateChain,
    /// The nonce to commit is not the current one.
    StaleNonce,
    /// The counter is at its maximum.
    NonceExhausted,
}

/// The state of one destination chain.
#[derive(Clone, Debug, PartialEq, Eq)]
pub struct ChainEntry {
    pub chain_id: Word,
    pub rpc_services: RpcServices,
    pub next_nonce: Word,
}

/// What an entry says of its chain.
pub struct ChainModel {
    pub rpc_services: RpcServices,
    pub next_nonce: nat,
}

impl ChainEntry {
    /// What the entry says of its chain.
    pub open spec fn model(&self) -> ChainModel {
        ChainModel { rpc_services: self.rpc_services, next_nonce: self.next_nonce@ }
    }
}

/// The store after the commit of nonce `used` on chain `id`, or why the
/// commit is refused.
pub open spec fn commit_model(chains: Map<nat, ChainModel>, id: nat, used: nat) -> Result<
    Map<nat, ChainModel>,
    StoreError,
> {
    if !chains.dom().contains(id) {
        Err(StoreError::NotFound)
    } else if chains[id].next_nonce != used {
        Err(StoreError::StaleNonce)
    } else if used + 1 >= word_modulus() {
        Err(StoreError::NonceExhausted)
    } else {
        Ok(
            chains.insert(
                id,
                ChainModel { rpc_services: chains[id].rpc_services, next_nonce: used + 1 },
            ),
        )
    }
}

/// The chain state store. No chain has two entries.
#[derive(Debug)]
pub struct ChainStore {
    entries: Vec<ChainEntry>,
}

/// True when `i` is the position of chain `id` among the entries.
pub open spec fn is_entry_of(entries: Seq<ChainEntry>, i: int, id: nat) -> bool {
    0 <= i < entries.len() && entries[i].chain_id@ == id
}

/// True when no chain has two entries.
pub open spec fn distinct_chains(entries: Seq<ChainEntry>) -> bool {
    forall|i: int, j: int|
        0 <= i < entries.len() && 0 <= j < entries.len() && i != j ==> #[trigger] entries[i].chain_id@
            != #[trigger] entries[j].chain_id@
}

/// The map from chain id to chain state that the entries stand for.
pub open spec fn chains_of(entries: Seq<ChainEntry>) -> Map<nat, ChainModel> {
    Map::new(
        |id: nat| exists|i: int| is_entry_of(entries, i, id),
        |id: nat| entries[choose|i: int| is_entry_of(entries, i, id)].model(),
    )
}

/// Where no chain has two entries, the map holds each entry under its chain.
pub proof fn lemma_chains_of_entry(entries: Seq<ChainEntry>, i: int)
    requires
        distinct_chains(entries),
        0 <= i < entries.len(),
    ensures
        chains_of(entries).dom().contains(entries[i].chain_id@),
        chains_of(entries)[entries[i].chain_id@] == entries[i].model(),
{
    let id = entries[i].chain_id@;
    assert(is_entry_of(entries, i, id));
    let j = choose|j: int| is_entry_of(entries, j, id);
    assert(j == i);
}

impl View for ChainStore {
    type V = Map<nat, ChainModel>;

    closed spec fn view(&self) -> Map<nat, ChainModel> {
        chains_of(self.entries@)
    }
}

impl ChainStore {
    /// True when no chain has two entries. Every store that this module
    /// hands out is well formed, and every operation keeps it so.
    pub closed spec fn wf(&self) -> bool {
        distinct_chains(self.entries@)
    }

    /// A store without chains.
    pub fn new() -> (store: ChainStore)
        ensures
            store.wf(),
            store@ == Map::<nat, ChainModel>::empty(),
    {
        let store = ChainStore { entries: Vec::new() };
        assert(store@ =~= Map::<nat, ChainModel>::empty());
        store
    }

    /// The position of the chain's entry, if it has one.
    fn find(&self, chain_id: Word) -> (r: Option<usize>)
        requires
            self.wf(),
        ensures
            match r {
                Some(i) => is_entry_of(self.entries@, i as int, chain_id@),
                None => forall|i: int| !is_entry_of(self.entries@, i, chain_id@),
            },
    {
        let mut i: usize = 0;
        while i < self.entries.len()
            invariant
                i <= self.entries@.len(),
                forall|k: int| 0 <= k < i ==> !is_entry_of(self.entries@, k, chain_id@),
            decreases self.entries@.len() - i,
        {
            if self.entries[i].chain_id == chain_id {
                return Some(i);
            }
            proof {
                self.entries@[i as int].chain_id.lemma_view_injective(chain_id);
            }
            i += 1;
        }
        None
    }

    /// Adds a chain with its services and the nonce of its next transaction.
    /// A chain that the store already has is refused, and the store stays as
    /// it is.
    pub fn insert_chain(&mut self, chain_id: Word, rpc_services: RpcServices, next_nonce: Word) -> (r:
        Result<(), StoreError>)
        requires
            old(self).wf(),
        ensures
            final(self).wf(),
            old(self)@.dom().contains(chain_id@) ==> r == Err::<(), StoreError>(
                StoreError::DuplicateChain,
            ) && final(self)@ == old(self)@,
            !old(self)@.dom().contains(chain_id@) ==> r == Ok::<(), StoreError>(()) && final(self)@
                == old(self)@.insert(
                chain_id@,
                ChainModel { rpc_services, next_nonce: next_nonce@ },
            ),
    {
        match self.find(chain_id) {
            Some(_) => Err(StoreError::DuplicateChain),
            None => {
                let ghost before = self.entries@;
                self.entries.push(ChainEntry { chain_id, rpc_services, next_nonce });
                proof {
                    let after = self.entries@;
                    let last = before.len() as int;
                    let added = ChainModel { rpc_services, next_nonce: next_nonce@ };
                    assert forall|k: int| 0 <= k < last implies after[k] == before[k]
                        && before[k].chain_id@ != chain_id@ by {
                        assert(!is_entry_of(before, k, chain_id@));
                    }
                    assert(distinct_chains(after));
                    assert forall|id: nat|
                        chains_of(after).dom().contains(id) == chains_of(before).insert(
                            chain_id@,
                            added,
                        ).dom().contains(id) by {
                        if chains_of(after).dom().contains(id) {
                            let i = choose|i: int| is_entry_of(after, i, id);
                            if i < last {
                                assert(is_entry_of(before, i, id));
                            }
                        }
                        if chains_of(before).dom().contains(id) {
                            let i = choose|i: int| is_entry_of(before, i, id);
                            assert(is_entry_of(after, i, id));
                        }
                        if id == chain_id@ {
                            assert(is_entry_of(after, last, id));
                        }
                    }
                    assert forall|id: nat|
                        chains_of(after).dom().contains(id) implies chains_of(after)[id]
                        == chains_of(before).insert(chain_id@, added)[id] by {
                        let i = choose|i: int| is_entry_of(after, i, id);
                        lemma_chains_of_entry(after, i);
                        if i < last {
                            lemma_chains_of_entry(before, i);
                        }
                    }
                    assert(chains_of(after) =~= chains_of(before).insert(chain_id@, added));
                }
                Ok(())
            },
        }
    }

    /// The entry of a chain.
    pub fn get_chain(&self, chain_id: Word) -> (r: Result<&ChainEntry, StoreError>)
        requires
            self.wf(),
        ensures
            match r {
                Ok(entry) => self@.dom().contains(chain_id@) && entry.chain_id == chain_id
                    && entry.model() == self@[chain_id@],
                Err(e) => !self@.dom().contains(chain_id@) && e == StoreError::NotFound,
            },
    {
        match self.find(chain_id) {
            Some(i) => {
                proof {
                    lemma_chains_of_entry(self.entries@, i as int);
                    self.entries@[i as int].chain_id.lemma_view_injective(chain_id);
                }
                Ok(&self.entries[i])
            },
            None => Err(StoreError::NotFound),
        }
    }

    /// The nonce of the chain's next transaction.
    pub fn peek_nonce(&self, chain_id: Word) -> (r: Result<Word, StoreError>)
        requires
            self.wf(),
        ensures
            match r {
                Ok(nonce) => self@.dom().contains(chain_id@) && nonce@
                    == self@[chain_id@].next_nonce,
                Err(e) => !self@.dom().contains(chain_id@) && e == StoreError::NotFound,
            },
    {
        match self.get_chain(chain_id) {
            Ok(entry) => Ok(entry.next_nonce),
            Err(e) => Err(e),
        }
    }

    /// Records that the transaction with nonce `used_nonce` went out on the
    /// chain: the next nonce becomes `used_nonce + 1`, provided `used_nonce`
    /// is the current one. Otherwise the store stays as it is.
    pub fn commit_nonce(&mut self, chain_id: Word, used_nonce: Word) -> (r: Result<(), StoreError>)
        requires
            old(self).wf(),
        ensures
            final(self).wf(),
            match r {
                Ok(_) => commit_model(old(self)@, chain_id@, used_nonce@) == Ok::<
                    Map<nat, ChainModel>,
                    StoreError,
                >(final(self)@),
                Err(e) => commit_model(old(self)@, chain_id@, used_nonce@) == Err::<
                    Map<nat, ChainModel>,
                    StoreError,
                >(e) && final(self)@ == old(self)@,
            },
    {
        let i = match self.find(chain_id) {
            Some(i) => i,
            None => {
                return Err(StoreError::NotFound);
            },
        };
        proof {
            lemma_chains_of_entry(self.entries@, i as int);
            self.entries@[i as int].next_nonce.lemma_view_injective(used_nonce);
        }
        if self.entries[i].next_nonce != used_nonce {
            return Err(StoreError::StaleNonce);
        }
        let next = match u256_checked_add(used_nonce, Word::from_u64(1)) {
            Some(next) => next,
            None => {
                return Err(StoreError::NonceExhausted);
            },
        };
        let ghost before = self.entries@;
        self.entries[i].next_nonce = next;
        proof {
            let after = self.entries@;
            lemma_chains_of_entry(before, i as int);
            let updated = ChainModel {
                rpc_services: before[i as int].rpc_services,
                next_nonce: used_nonce@ + 1,
            };
            assert forall|k: int| 0 <= k < before.len() implies after[k].chain_id
                == before[k].chain_id && (k != i ==> after[k] == before[k]) by {}
            assert(distinct_chains(after));
            assert forall|id: nat|
                chains_of(after).dom().contains(id) == chains_of(before).insert(
                    chain_id@,
                    updated,
                ).dom().contains(id) by {
                if chains_of(after).dom().contains(id) {
                    let k = choose|k: int| is_entry_of(after, k, id);
                    assert(is_entry_of(before, k, id));
                }
                if chains_of(before).dom().contains(id) {
                    let k = choose|k: int| is_entry_of(before, k, id);
                    assert(is_entry_of(after, k, id));
                }
            }
            assert forall|id: nat|
                chains_of(after).dom().contains(id) implies chains_of(after)[id] == chains_of(
                before,
            ).insert(chain_id@, updated)[id] by {
                let k = choose|k: int| is_entry_of(after, k, id);
                lemma_chains_of_entry(after, k);
                lemma_chains_of_entry(before, k);
            }
            assert(chains_of(after) =~= chains_of(before).insert(chain_id@, updated));
        }
        Ok(())
    }
}

/// The store after a run of commits, each given by its chain and the nonce
/// that was used, in the order in which they were made; `None` if one of
/// them is refused.
pub open spec fn commit_all(chains: Map<nat, ChainModel>, commits: Seq<(nat, nat)>) -> Option<
    Map<nat, ChainModel>,
>
    decreases commits.len(),
{
    if commits.len() == 0 {
        Some(chains)
    } else {
        match commit_all(chains, commits.drop_last()) {
            None => None,
            Some(before) => match commit_model(before, commits.last().0, commits.last().1) {
                Ok(after) => Some(after),
                Err(_) => None,
            },
        }
    }
}

/// The number of commits on chain `id` in a run.
pub open spec fn commits_on(commits: Seq<(nat, nat)>, id: nat) -> nat
    decreases commits.len(),
{
    if commits.len() == 0 {
        0
    } else {
        commits_on(commits.drop_last(), id) + if commits.last().0 == id {
            1nat
        } else {
            0nat
        }
    }
}

/// A commit on one chain leaves every other chain as it was.
pub proof fn lemma_commit_leaves_other_chains(
    chains: Map<nat, ChainModel>,
    id: nat,
    used: nat,
    other: nat,
)
    requires
        other != id,
        commit_model(chains, id, used) is Ok,
    ensures
        commit_model(chains, id, used)->Ok_0.dom().contains(other) == chains.dom().contains(other),
        chains.dom().contains(other) ==> commit_model(chains, id, used)->Ok_0[other]
            == chains[other],
{
}

/// A commit that is accepted advances the chain's nonce by exactly one and
/// keeps its services.
pub proof fn lemma_commit_advances_by_one(chains: Map<nat, ChainModel>, id: nat, used: nat)
    requires
        commit_model(chains, id, used) is Ok,
    ensures
        chains.dom().contains(id),
        used == chains[id].next_nonce,
        commit_model(chains, id, used)->Ok_0.dom() == chains.dom(),
        commit_model(chains, id, used)->Ok_0[id].next_nonce == chains[id].next_nonce + 1,
        commit_model(chains, id, used)->Ok_0[id].rpc_services == chains[id].rpc_services,
{
    assert(chains.insert(
        id,
        ChainModel { rpc_services: chains[id].rpc_services, next_nonce: used + 1 },
    ).dom() =~= chains.dom());
}

/// After a run of accepted commits, in whatever order the chains took
/// turns, the store has the chains it had, and the nonce of each has
/// advanced by the number of commits on that chain.
pub proof fn lemma_nonce_counts_commits(
    chains: Map<nat, ChainModel>,
    commits: Seq<(nat, nat)>,
    id: nat,
)
    requires
        commit_all(chains, commits) is Some,
    ensures
        commit_all(chains, commits)->0.dom() == chains.dom(),
        chains.dom().contains(id) ==> commit_all(chains, commits)->0[id].next_nonce
            == chains[id].next_nonce + commits_on(commits, id),
        chains.dom().contains(id) ==> commit_all(chains, commits)->0[id].rpc_services
            == chains[id].rpc_services,
    decreases commits.len(),
{
    if commits.len() > 0 {
        let earlier = commits.drop_last();
        let before = commit_all(chains, earlier)->0;
        lemma_nonce_counts_commits(chains, earlier, id);
        lemma_commit_advances_by_one(before, commits.last().0, commits.last().1);
        if commits.last().0 != id {
            lemma_commit_leaves_other_chains(before, commits.last().0, commits.last().1, id);
        }
    }
}

/// Every beginning of an accepted run of commits is an accepted run.
pub proof fn lemma_commit_all_prefix(
    chains: Map<nat, ChainModel>,
    commits: Seq<(nat, nat)>,
    n: int,
)
    requires
        commit_all(chains, commits) is Some,
        0 <= n <= commits.len(),
    ensures
        commit_all(chains, commits.take(n)) is Some,
    decreases commits.len(),
{
    if n == commits.len() {
        assert(commits.take(n) =~= commits);
    } else {
        lemma_commit_all_prefix(chains, commits.drop_last(), n);
        assert(commits.drop_last().take(n) =~= commits.take(n));
    }
}

/// A longer beginning of a run holds at least as many commits on a chain.
pub proof fn lemma_commits_on_prefix(commits: Seq<(nat, nat)>, id: nat, m: int, n: int)
    requires
        0 <= m <= n <= commits.len(),
    ensures
        commits_on(commits.take(m), id) <= commits_on(commits.take(n), id),
    decreases n - m,
{
    if m < n {
        lemma_commits_on_prefix(commits, id, m, n - 1);
        assert(commits.take(n).drop_last() =~= commits.take(n - 1));
    }
}

/// In an accepted run, each commit carried the nonce that its chain had at
/// the start plus the number of earlier commits on that chain.
pub proof fn lemma_commit_carries_next_nonce(
    chains: Map<nat, ChainModel>,
    commits: Seq<(nat, nat)>,
    i: int,
)
    requires
        commit_all(chains, commits) is Some,
        0 <= i < commits.len(),
    ensures
        chains.dom().contains(commits[i].0),
        commits[i].1 == chains[commits[i].0].next_nonce + commits_on(
            commits.take(i),
            commits[i].0,
        ),
{
    let run = commits.take(i + 1);
    lemma_commit_all_prefix(chains, commits, i + 1);
    assert(run.drop_last() =~= commits.take(i));
    assert(run.last() == commits[i]);
    let before = commit_all(chains, commits.take(i))->0;
    lemma_nonce_counts_commits(chains, commits.take(i), commits[i].0);
    lemma_commit_advances_by_one(before, commits[i].0, commits[i].1);
}

/// In an accepted run, no two commits on one chain carried the same nonce:
/// the later one carried the greater nonce.
pub proof fn lemma_commit_nonces_distinct(
    chains: Map<nat, ChainModel>,
    commits: Seq<(nat, nat)>,
    i: int,
    j: int,
)
    requires
        commit_all(chains, commits) is Some,
        0 <= i < j < commits.len(),
        commits[i].0 == commits[j].0,
    ensures
        commits[i].1 < commits[j].1,
{
    let id = commits[i].0;
    lemma_commit_carries_next_nonce(chains, commits, i);
    lemma_commit_carries_next_nonce(chains, commits, j);
    lemma_commits_on_prefix(commits, id, i + 1, j);
    assert(commits.take(i + 1).drop_last() =~= commits.take(i));
    assert(commits.take(i + 1).last() == commits[i]);
}

} // verus!
