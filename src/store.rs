use vstd::prelude::*;

use crate::pubkey::Pubkey;

verus! {

/// The persisted record of one agent.
#[derive(Debug)]
pub struct AgentAccount {
    /// The registrant's key; fixed at creation.
    pub owner: Pubkey,
    /// Display name, at most `MAX_TEXT_BYTES` bytes.
    pub name: String,
    /// External profile handle, at most `MAX_TEXT_BYTES` bytes.
    pub github: String,
    pub reputation_score: u64,
    pub is_verified: bool,
}

/// An account of the store: the record and what the host keeps beside it.
#[derive(Debug)]
pub struct StoredAgent {
    /// The storage address of the account.
    pub address: Pubkey,
    pub account: AgentAccount,
    /// The stake held in custody by the account.
    pub lamports: u64,
    /// The bytes allocated to the account at creation.
    pub space: usize,
}

/// The accounts of one program, keyed by address.
#[derive(Debug)]
pub struct AgentStore {
    /// The program whose id seeds every agent address.
    pub program_id: Pubkey,
    pub accounts: Vec<StoredAgent>,
}

/// The map from address to account that a sequence of accounts describes.
pub open spec fn accounts_map(s: Seq<StoredAgent>) -> Map<Seq<u8>, StoredAgent>
    decreases s.len(),
{
    if s.len() == 0 {
        Map::empty()
    } else {
        accounts_map(s.drop_last()).insert(s.last().address@, s.last())
    }
}

/// No two accounts of `s` share an address.
pub open spec fn addresses_distinct(s: Seq<StoredAgent>) -> bool {
    forall|i: int, j: int|
        0 <= i < s.len() && 0 <= j < s.len() && i != j ==> s[i].address@ != s[j].address@
}

proof fn lemma_accounts_map(s: Seq<StoredAgent>)
    requires
        addresses_distinct(s),
    ensures
        forall|a: Seq<u8>|
            accounts_map(s).contains_key(a) <==> exists|i: int|
                0 <= i < s.len() && (#[trigger] s[i]).address@ == a,
        forall|i: int| 0 <= i < s.len() ==> accounts_map(s)[(#[trigger] s[i]).address@] == s[i],
    decreases s.len(),
{
    if s.len() > 0 {
        let t = s.drop_last();
        assert(addresses_distinct(t));
        lemma_accounts_map(t);
        assert(accounts_map(s) == accounts_map(t).insert(s.last().address@, s.last()));
        assert forall|a: Seq<u8>|
            accounts_map(s).contains_key(a) <==> exists|i: int|
                0 <= i < s.len() && (#[trigger] s[i]).address@ == a by {
            if accounts_map(s).contains_key(a) && a != s.last().address@ {
                assert(accounts_map(t).contains_key(a));
                let i = choose|i: int| 0 <= i < t.len() && (#[trigger] t[i]).address@ == a;
                assert(s[i] == t[i]);
            }
            if exists|i: int| 0 <= i < s.len() && (#[trigger] s[i]).address@ == a {
                let i = choose|i: int| 0 <= i < s.len() && (#[trigger] s[i]).address@ == a;
                if i < s.len() - 1 {
                    assert(t[i] == s[i]);
                }
            }
        }
        assert forall|i: int| 0 <= i < s.len() implies accounts_map(s)[(#[trigger] s[i]).address@]
            == s[i] by {
            if i < s.len() - 1 {
                assert(t[i] == s[i]);
            }
        }
    }
}

proof fn lemma_accounts_map_push(s: Seq<StoredAgent>, e: StoredAgent)
    ensures
        accounts_map(s.push(e)) == accounts_map(s).insert(e.address@, e),
{
    assert(s.push(e).drop_last() =~= s);
}

proof fn lemma_accounts_map_update(s: Seq<StoredAgent>, i: int, e: StoredAgent)
    requires
        addresses_distinct(s),
        0 <= i < s.len(),
        e.address@ == s[i].address@,
    ensures
        addresses_distinct(s.update(i, e)),
        accounts_map(s.update(i, e)) == accounts_map(s).insert(e.address@, e),
{
    let u = s.update(i, e);
    assert(addresses_distinct(u));
    lemma_accounts_map(s);
    lemma_accounts_map(u);
    assert forall|a: Seq<u8>| #[trigger] accounts_map(u).contains_key(a) implies accounts_map(
        s,
    ).insert(e.address@, e).contains_key(a) by {
        let j = choose|j: int| 0 <= j < u.len() && (#[trigger] u[j]).address@ == a;
        if j != i {
            assert(u[j] == s[j]);
        }
    }
    assert forall|a: Seq<u8>| #[trigger]
        accounts_map(s).insert(e.address@, e).contains_key(a) implies accounts_map(u).contains_key(a)
        && accounts_map(u)[a] == accounts_map(s).insert(e.address@, e)[a] by {
        if a == e.address@ {
            assert(u[i] == e);
        } else {
            let j = choose|j: int| 0 <= j < s.len() && (#[trigger] s[j]).address@ == a;
            assert(u[j] == s[j]);
        }
    }
    assert(accounts_map(u) =~= accounts_map(s).insert(e.address@, e));
}

impl AgentStore {
    /// The accounts of the store, keyed by address.
    pub open spec fn records(&self) -> Map<Seq<u8>, StoredAgent> {
        accounts_map(self.accounts@)
    }

    /// Well-formed: one account per address.
    pub open spec fn wf(&self) -> bool {
        addresses_distinct(self.accounts@)
    }

    /// An empty store for the program `program_id`.
    pub fn new(program_id: Pubkey) -> (r: AgentStore)
        ensures
            r.wf(),
            r.program_id == program_id,
            r.records() == Map::<Seq<u8>, StoredAgent>::empty(),
    {
        AgentStore { program_id, accounts: Vec::new() }
    }

    /// The position of the account at `address`, if there is one.
    pub(crate) fn find(&self, address: &Pubkey) -> (r: Option<usize>)
        requires
            self.wf(),
        ensures
            match r {
                Some(i) => i < self.accounts@.len() && self.accounts@[i as int].address@ == address@
                    && self.records().contains_key(address@) && self.records()[address@]
                    == self.accounts@[i as int],
                None => !self.records().contains_key(address@),
            },
    {
        proof {
            lemma_accounts_map(self.accounts@);
        }
        let mut i: usize = 0;
        while i < self.accounts.len()
            invariant
                self.wf(),
                0 <= i <= self.accounts@.len(),
                forall|j: int| 0 <= j < i ==> (#[trigger] self.accounts@[j]).address@ != address@,
            decreases self.accounts@.len() - i,
        {
            if self.accounts[i].address.eq(address) {
                proof {
                    lemma_accounts_map(self.accounts@);
                    let k = i as int;
                    assert(self.accounts@[k].address@ == address@);
                    assert(self.records()[self.accounts@[k].address@] == self.accounts@[k]);
                }
                return Some(i);
            }
            i = i + 1;
        }
        None
    }

    /// The account at `address`, if there is one.
    pub fn get(&self, address: &Pubkey) -> (r: Option<&StoredAgent>)
        requires
            self.wf(),
        ensures
            match r {
                Some(e) => self.records().contains_key(address@) && *e == self.records()[address@],
                None => !self.records().contains_key(address@),
            },
    {
        match self.find(address) {
            Some(i) => Some(&self.accounts[i]),
            None => None,
        }
    }

    /// Adds `e` at an address where no account lives yet.
    pub(crate) fn insert_new(&mut self, e: StoredAgent)
        requires
            old(self).wf(),
            !old(self).records().contains_key(e.address@),
        ensures
            final(self).wf(),
            final(self).program_id == old(self).program_id,
            final(self).records() == old(self).records().insert(e.address@, e),
    {
        proof {
            lemma_accounts_map(self.accounts@);
            lemma_accounts_map_push(self.accounts@, e);
            assert forall|i: int| 0 <= i < self.accounts@.len() implies (#[trigger] self.accounts@[i]).address@
                != e.address@ by {
                assert(self.records().contains_key(self.accounts@[i].address@));
            }
        }
        self.accounts.push(e);
    }

    /// Sets the reputation score of the account at position `i`.
    pub(crate) fn set_score(&mut self, i: usize, score: u64)
        requires
            old(self).wf(),
            i < old(self).accounts@.len(),
        ensures
            final(self).wf(),
            final(self).program_id == old(self).program_id,
            final(self).records() == old(self).records().insert(
                old(self).accounts@[i as int].address@,
                (StoredAgent {
                    account: AgentAccount { reputation_score: score, ..old(self).accounts@[i as int].account },
                    ..old(self).accounts@[i as int]
                }),
            ),
    {
        let ghost before = self.accounts@;
        self.accounts[i].account.reputation_score = score;
        proof {
            lemma_accounts_map_update(before, i as int, self.accounts@[i as int]);
            assert(self.accounts@ == before.update(i as int, self.accounts@[i as int]));
        }
    }
}

} // verus!
