use vstd::prelude::*;

use crate::error::{ApiError, Identity};

verus! {

/// How the combined answer of the store classifies: the conditional mutation
/// (scoped by key and owner) and the existence probe (scoped by key alone).
/// A mutation without an existing row cannot happen; observing one is a fault.
pub open spec fn outcome_of(existed: bool, mutated: bool) -> Result<(), ApiError> {
    if existed && mutated {
        Ok(())
    } else if existed {
        Err(ApiError::Forbidden)
    } else if mutated {
        Err(ApiError::Internal)
    } else {
        Err(ApiError::NotFound)
    }
}

/// Classifies the result of one owner-scoped mutation.
pub fn ownership_outcome(existed: bool, mutated: bool) -> (r: Result<(), ApiError>)
    ensures
        r == outcome_of(existed, mutated),
{
    if existed && mutated {
        Ok(())
    } else if existed {
        Err(ApiError::Forbidden)
    } else if mutated {
        Err(ApiError::Internal)
    } else {
        Err(ApiError::NotFound)
    }
}

/// Two deletes of one existing resource by its owner, in whichever order the
/// store runs them: the first succeeds and removes the resource, the second
/// finds nothing. Never two successes.
pub proof fn lemma_owner_deletes_once(owners: Map<Seq<char>, Identity>, key: Seq<char>, owner: Identity)
    requires
        owners.contains_key(key),
        owners[key] == owner,
    ensures
        outcome_of(owners.contains_key(key), owners.contains_key(key) && owners[key] == owner)
            == Ok::<(), ApiError>(()),
        outcome_of(
            owners.remove(key).contains_key(key),
            owners.remove(key).contains_key(key) && owners.remove(key)[key] == owner,
        ) == Err::<(), ApiError>(ApiError::NotFound),
{
}

/// One resource and the identity that owns it.
pub struct OwnedRecord {
    pub key: String,
    pub owner: Identity,
}

/// An in-memory store of owned resources whose owner-checked delete is a
/// single indivisible step.
pub struct OwnedResources {
    records: Vec<OwnedRecord>,
}

impl OwnedResources {
    /// No two records share a key.
    pub closed spec fn wf(&self) -> bool {
        forall|i: int, j: int|
            0 <= i < j < self.records@.len() ==> self.records@[i].key@ != self.records@[j].key@
    }

    pub closed spec fn has(&self, k: Seq<char>) -> bool {
        exists|i: int| 0 <= i < self.records@.len() && self.records@[i].key@ == k
    }

    /// The owner of each stored key.
    pub closed spec fn owners(&self) -> Map<Seq<char>, Identity> {
        Map::new(
            |k: Seq<char>| self.has(k),
            |k: Seq<char>|
                self.records@[choose|i: int|
                    0 <= i < self.records@.len() && self.records@[i].key@ == k].owner,
        )
    }

    proof fn lemma_owner_at(&self, i: int)
        requires
            self.wf(),
            0 <= i < self.records@.len(),
        ensures
            self.owners().contains_key(self.records@[i].key@),
            self.owners()[self.records@[i].key@] == self.records@[i].owner,
    {
        let k = self.records@[i].key@;
        assert(self.has(k));
        let j = choose|j: int| 0 <= j < self.records@.len() && self.records@[j].key@ == k;
        assert(j == i);
    }

    /// An empty store.
    pub fn new() -> (r: Self)
        ensures
            r.wf(),
            r.owners() == Map::<Seq<char>, Identity>::empty(),
    {
        let r = OwnedResources { records: Vec::new() };
        assert(r.owners() =~= Map::<Seq<char>, Identity>::empty());
        r
    }

    fn find(&self, key: &str) -> (r: Option<usize>)
        requires
            self.wf(),
        ensures
            r is None ==> !self.owners().contains_key(key@),
            r matches Some(i) ==> i < self.records@.len() && self.records@[i as int].key@ == key@,
    {
        let wanted = key.to_owned();
        let mut i: usize = 0;
        while i < self.records.len()
            invariant
                i <= self.records@.len(),
                wanted@ == key@,
                forall|j: int| 0 <= j < i ==> self.records@[j].key@ != key@,
            decreases self.records@.len() - i,
        {
            if self.records[i].key == wanted {
                return Some(i);
            }
            i = i + 1;
        }
        None
    }

    /// Stores a new resource; answers `false`, and changes nothing, if the key
    /// is already taken.
    pub fn create(&mut self, key: &str, owner: Identity) -> (r: bool)
        requires
            old(self).wf(),
        ensures
            final(self).wf(),
            r == !old(self).owners().contains_key(key@),
            r ==> final(self).owners() == old(self).owners().insert(key@, owner),
            !r ==> final(self).owners() == old(self).owners(),
    {
        match self.find(key) {
            Some(_) => false,
            None => {
                let ghost before = *self;
                self.records.push(OwnedRecord { key: key.to_owned(), owner });
                proof {
                    let n = before.records@.len() as int;
                    assert forall|k: Seq<char>|
                        #[trigger] self.owners().contains_key(k) && k != key@ implies
                        before.owners().contains_key(k) && self.owners()[k] == before.owners()[k] by {
                        let j = choose|j: int|
                            0 <= j < self.records@.len() && self.records@[j].key@ == k;
                        assert(self.records@[j] == before.records@[j]);
                        before.lemma_owner_at(j);
                        self.lemma_owner_at(j);
                    }
                    assert forall|k: Seq<char>|
                        #[trigger] before.owners().contains_key(k) implies
                        self.owners().contains_key(k) && self.owners()[k] == before.owners()[k] by {
                        let j = choose|j: int|
                            0 <= j < before.records@.len() && before.records@[j].key@ == k;
                        assert(self.records@[j] == before.records@[j]);
                        before.lemma_owner_at(j);
                        self.lemma_owner_at(j);
                    }
                    self.lemma_owner_at(n);
                    assert(self.owners() =~= before.owners().insert(key@, owner));
                }
                true
            }
        }
    }

    /// Deletes the resource `key` if and only if `caller` owns it, and in the
    /// same step tells whether the key existed at all: `Ok` when it was
    /// deleted, `Forbidden` when it exists under another owner, `NotFound`
    /// when there is no such key.
    pub fn delete_owned(&mut self, key: &str, caller: Identity) -> (r: Result<(), ApiError>)
        requires
            old(self).wf(),
        ensures
            final(self).wf(),
            r == outcome_of(
                old(self).owners().contains_key(key@),
                old(self).owners().contains_key(key@) && old(self).owners()[key@] == caller,
            ),
            r is Ok ==> final(self).owners() == old(self).owners().remove(key@),
            r is Err ==> final(self).owners() == old(self).owners(),
    {
        let found = self.find(key);
        let existed = found.is_some();
        let mut mutated = false;
        if let Some(i) = found {
            proof { self.lemma_owner_at(i as int); }
            if self.records[i].owner == caller {
                let ghost before = *self;
                self.records.remove(i);
                mutated = true;
                proof {
                    assert forall|k: Seq<char>|
                        #[trigger] self.owners().contains_key(k) implies
                        k != key@ && before.owners().contains_key(k) && self.owners()[k] == before.owners()[k] by {
                        let j = choose|j: int|
                            0 <= j < self.records@.len() && self.records@[j].key@ == k;
                        let oj = if j < i { j } else { j + 1 };
                        assert(self.records@[j] == before.records@[oj]);
                        before.lemma_owner_at(oj);
                        self.lemma_owner_at(j);
                    }
                    assert forall|k: Seq<char>|
                        #[trigger] before.owners().contains_key(k) && k != key@ implies
                        self.owners().contains_key(k) by {
                        let j = choose|j: int|
                            0 <= j < before.records@.len() && before.records@[j].key@ == k;
                        assert(j != i);
                        let nj = if j < i { j } else { j - 1 };
                        assert(self.records@[nj] == before.records@[j]);
                    }
                    assert(self.owners() =~= before.owners().remove(key@));
                }
            }
        }
        ownership_outcome(existed, mutated)
    }
}

} // verus!
