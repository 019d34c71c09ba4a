//! The pair registry: maps every unordered pair of distinct, non-null
//! token identifiers to at most one pair instance, created on demand.
//!
//! Pair instances are numbered in creation order starting at 1, so the
//! identifier of the pair at registry index `i` is `i + 1`; lookups
//! canonicalize their arguments, so both argument orders resolve to the
//! same pair.

use vstd::prelude::*;

verus! {

use crate::types::{AccountId, ZERO_ACCOUNT};

/// Errors of the registry.
#[derive(Debug, Clone, Copy, PartialEq, Eq, Structural)]
pub enum Error {
    /// The two token identifiers are the same.
    IdenticalAddresses,
    /// A token or account identifier is the null sentinel.
    ZeroAddress,
    /// A pair for these tokens already exists.
    PairExists,
    /// The caller is not the fee setter.
    NotAuthorized,
    /// No further pair instance can be created.
    PairInstantiationFailed,
}

/// Event: a pair was created for `(token0, token1)` at index `pair_number`.
#[derive(Debug, Clone, Copy, PartialEq, Eq, Structural)]
pub struct PairCreated {
    pub token0: AccountId,
    pub token1: AccountId,
    pub pair: AccountId,
    pub pair_number: u32,
}

/// Event: the fee recipient changed.
#[derive(Debug, Clone, Copy, PartialEq, Eq, Structural)]
pub struct FeeToSet {
    pub old_fee_to: Option<AccountId>,
    pub new_fee_to: Option<AccountId>,
}

/// Event: the fee setter changed.
#[derive(Debug, Clone, Copy, PartialEq, Eq, Structural)]
pub struct FeeToSetterSet {
    pub old_setter: AccountId,
    pub new_setter: AccountId,
}

/// A registry event, in emission order.
#[derive(Debug, Clone, Copy, PartialEq, Eq, Structural)]
pub enum FactoryEvent {
    PairCreated(PairCreated),
    FeeToSet(FeeToSet),
    FeeToSetterSet(FeeToSetterSet),
}

/// One registry entry: the canonical token pair and the pair instance
/// bound to it.
#[derive(Debug, Clone, Copy, PartialEq, Eq, Structural)]
pub struct PairInfo {
    pub token0: AccountId,
    pub token1: AccountId,
    pub pair: AccountId,
}

/// The canonical order of two token identifiers: smaller first.
pub open spec fn canonical_order(a: AccountId, b: AccountId) -> (AccountId, AccountId) {
    if a < b {
        (a, b)
    } else {
        (b, a)
    }
}

/// The first registry entry bound to the canonical pair `(t0, t1)`.
pub open spec fn first_match(pairs: Seq<PairInfo>, t0: AccountId, t1: AccountId) -> Option<AccountId>
    decreases pairs.len(),
{
    if pairs.len() == 0 {
        None
    } else if pairs[0].token0 == t0 && pairs[0].token1 == t1 {
        Some(pairs[0].pair)
    } else {
        first_match(pairs.drop_first(), t0, t1)
    }
}

/// The registry singleton.
pub struct Factory {
    /// Recipient of protocol fees; `None` disables fee collection.
    pub fee_to: Option<AccountId>,
    /// The only account allowed to change `fee_to` and itself.
    pub fee_to_setter: AccountId,
    /// All created pairs, in creation order; the pair at index `i` has
    /// identifier `i + 1`.
    pub all_pairs: Vec<PairInfo>,
    /// Code hash used by the host to instantiate pair contracts.
    pub pair_code_hash: u128,
    /// Emitted events, in order.
    pub events: Vec<FactoryEvent>,
}

impl Factory {
    /// Registry well-formedness: entries are canonically ordered over
    /// distinct non-null tokens, pair identifiers follow creation order,
    /// and no unordered token pair occurs twice.
    pub open spec fn wf(self) -> bool {
        &&& self.all_pairs@.len() < 0xffff_ffff
        &&& forall|i: int| 0 <= i < self.all_pairs@.len() ==> {
            &&& (#[trigger] self.all_pairs@[i]).token0 < self.all_pairs@[i].token1
            &&& self.all_pairs@[i].token0 != ZERO_ACCOUNT
            &&& self.all_pairs@[i].pair == i + 1
        }
        &&& forall|i: int, j: int|
            0 <= i < j < self.all_pairs@.len() ==> !(
            (#[trigger] self.all_pairs@[i]).token0 == (#[trigger] self.all_pairs@[j]).token0
                && self.all_pairs@[i].token1 == self.all_pairs@[j].token1)
    }

    /// What a lookup returns: `None` for identical tokens, else the
    /// registry entry of the canonical pair.
    pub open spec fn spec_get_pair_address(self, token_a: AccountId, token_b: AccountId) -> Option<
        AccountId,
    > {
        if token_a == token_b {
            None
        } else {
            first_match(
                self.all_pairs@,
                canonical_order(token_a, token_b).0,
                canonical_order(token_a, token_b).1,
            )
        }
    }

    /// What `create_pair` returns for the given arguments.
    pub open spec fn spec_create_pair(self, token_a: AccountId, token_b: AccountId) -> Result<
        AccountId,
        Error,
    > {
        if token_a == token_b {
            Err(Error::IdenticalAddresses)
        } else if token_a == ZERO_ACCOUNT || token_b == ZERO_ACCOUNT {
            Err(Error::ZeroAddress)
        } else if self.spec_get_pair_address(token_a, token_b) is Some {
            Err(Error::PairExists)
        } else if self.all_pairs@.len() >= 0xffff_fffe {
            Err(Error::PairInstantiationFailed)
        } else {
            Ok((self.all_pairs@.len() + 1) as AccountId)
        }
    }

    /// The registry entry that a successful `create_pair` appends.
    pub open spec fn spec_new_pair_info(self, token_a: AccountId, token_b: AccountId) -> PairInfo {
        PairInfo {
            token0: canonical_order(token_a, token_b).0,
            token1: canonical_order(token_a, token_b).1,
            pair: (self.all_pairs@.len() + 1) as AccountId,
        }
    }

    /// A fresh registry with no pairs and no fee recipient.
    pub fn new(fee_to_setter: AccountId, pair_code_hash: u128) -> (r: Self)
        ensures
            r.wf(),
            r.fee_to is None,
            r.fee_to_setter == fee_to_setter,
            r.all_pairs@ =~= Seq::<PairInfo>::empty(),
            r.pair_code_hash == pair_code_hash,
            r.events@ =~= Seq::<FactoryEvent>::empty(),
    {
        Factory {
            fee_to: None,
            fee_to_setter,
            all_pairs: Vec::new(),
            pair_code_hash,
            events: Vec::new(),
        }
    }

    /// The pair bound to the unordered pair `(token_a, token_b)`, if any;
    /// symmetric in its arguments, `None` for identical tokens.
    pub fn get_pair_address(&self, token_a: AccountId, token_b: AccountId) -> (r: Option<
        AccountId,
    >)
        ensures
            r == self.spec_get_pair_address(token_a, token_b),
    {
        if token_a == token_b {
            return None;
        }
        let (token0, token1) = if token_a < token_b {
            (token_a, token_b)
        } else {
            (token_b, token_a)
        };
        let ghost all = self.all_pairs@;
        proof {
            assert(all.skip(0) =~= all);
        }
        let mut i: usize = 0;
        while i < self.all_pairs.len()
            invariant
                0 <= i <= all.len(),
                all == self.all_pairs@,
                token_a != token_b,
                token0 == canonical_order(token_a, token_b).0,
                token1 == canonical_order(token_a, token_b).1,
                first_match(all, token0, token1) == first_match(all.skip(i as int), token0, token1),
            decreases all.len() - i,
        {
            let entry = self.all_pairs[i];
            proof {
                assert(all.skip(i as int)[0] == all[i as int]);
                assert(all.skip(i as int).drop_first() =~= all.skip(i as int + 1));
            }
            if entry.token0 == token0 && entry.token1 == token1 {
                proof {
                    assert(first_match(all.skip(i as int), token0, token1) == Some(
                        all[i as int].pair,
                    ));
                }
                return Some(entry.pair);
            }
            i = i + 1;
        }
        proof {
            assert(all.skip(all.len() as int) =~= Seq::<PairInfo>::empty());
        }
        None
    }

    /// How many pairs have been created.
    pub fn all_pairs_length(&self) -> (r: u32)
        requires
            self.wf(),
        ensures
            r as int == self.all_pairs@.len(),
    {
        self.all_pairs.len() as u32
    }

    /// The pair created `index`-th, if any.
    pub fn get_pair_by_index(&self, index: u32) -> (r: Option<AccountId>)
        ensures
            index < self.all_pairs@.len() ==> r == Some(self.all_pairs@[index as int].pair),
            index >= self.all_pairs@.len() ==> r is None,
    {
        if (index as usize) < self.all_pairs.len() {
            Some(self.all_pairs[index as usize].pair)
        } else {
            None
        }
    }

    /// The current fee recipient.
    pub fn fee_to(&self) -> (r: Option<AccountId>)
        ensures
            r == self.fee_to,
    {
        self.fee_to
    }

    /// The current fee setter.
    pub fn fee_to_setter(&self) -> (r: AccountId)
        ensures
            r == self.fee_to_setter,
    {
        self.fee_to_setter
    }

    /// Creates the pair for two distinct, non-null tokens, registers it
    /// under the canonical token order and appends it to the pair list;
    /// fails exactly as `spec_create_pair` says, leaving the registry
    /// untouched on failure.
    pub fn create_pair(&mut self, token_a: AccountId, token_b: AccountId) -> (r: Result<
        AccountId,
        Error,
    >)
        requires
            old(self).wf(),
        ensures
            final(self).wf(),
            match old(self).spec_create_pair(token_a, token_b) {
                Ok(pair_id) => {
                    &&& r == Ok::<AccountId, Error>(pair_id)
                    &&& final(self).all_pairs@ == old(self).all_pairs@.push(
                        old(self).spec_new_pair_info(token_a, token_b),
                    )
                    &&& final(self).events@ == old(self).events@.push(
                        FactoryEvent::PairCreated(
                            PairCreated {
                                token0: canonical_order(token_a, token_b).0,
                                token1: canonical_order(token_a, token_b).1,
                                pair: pair_id,
                                pair_number: old(self).all_pairs@.len() as u32,
                            },
                        ),
                    )
                    &&& final(self).fee_to == old(self).fee_to
                    &&& final(self).fee_to_setter == old(self).fee_to_setter
                    &&& final(self).pair_code_hash == old(self).pair_code_hash
                },
                Err(e) => r == Err::<AccountId, Error>(e) && *final(self) == *old(self),
            },
    {
        if token_a == token_b {
            return Err(Error::IdenticalAddresses);
        }
        if token_a == ZERO_ACCOUNT || token_b == ZERO_ACCOUNT {
            return Err(Error::ZeroAddress);
        }
        let (token0, token1) = if token_a < token_b {
            (token_a, token_b)
        } else {
            (token_b, token_a)
        };
        if self.lookup_canonical(token0, token1) {
            return Err(Error::PairExists);
        }
        if self.all_pairs.len() >= 0xffff_fffe {
            return Err(Error::PairInstantiationFailed);
        }
        let pair_number = self.all_pairs.len() as u32;
        let pair_id = (self.all_pairs.len() + 1) as AccountId;
        let info = PairInfo { token0, token1, pair: pair_id };
        proof {
            lemma_first_match_iff_exists(self.all_pairs@, token0, token1);
        }
        self.all_pairs.push(info);
        self.events.push(
            FactoryEvent::PairCreated(PairCreated { token0, token1, pair: pair_id, pair_number }),
        );
        Ok(pair_id)
    }

    /// Whether the canonical pair `(token0, token1)` is registered.
    fn lookup_canonical(&self, token0: AccountId, token1: AccountId) -> (r: bool)
        ensures
            r == (first_match(self.all_pairs@, token0, token1) is Some),
    {
        let ghost all = self.all_pairs@;
        proof {
            assert(all.skip(0) =~= all);
        }
        let mut i: usize = 0;
        while i < self.all_pairs.len()
            invariant
                0 <= i <= all.len(),
                all == self.all_pairs@,
                first_match(all, token0, token1) == first_match(all.skip(i as int), token0, token1),
            decreases all.len() - i,
        {
            let entry = self.all_pairs[i];
            proof {
                assert(all.skip(i as int)[0] == all[i as int]);
                assert(all.skip(i as int).drop_first() =~= all.skip(i as int + 1));
            }
            if entry.token0 == token0 && entry.token1 == token1 {
                return true;
            }
            i = i + 1;
        }
        proof {
            assert(all.skip(all.len() as int) =~= Seq::<PairInfo>::empty());
        }
        false
    }

    /// Sets the fee recipient; only the fee setter may.
    pub fn set_fee_to(&mut self, caller: AccountId, fee_to: Option<AccountId>) -> (r: Result<
        (),
        Error,
    >)
        ensures
            caller != old(self).fee_to_setter ==> r == Err::<(), Error>(Error::NotAuthorized)
                && *final(self) == *old(self),
            caller == old(self).fee_to_setter ==> {
                &&& r == Ok::<(), Error>(())
                &&& final(self).fee_to == fee_to
                &&& final(self).events@ == old(self).events@.push(
                    FactoryEvent::FeeToSet(
                        FeeToSet { old_fee_to: old(self).fee_to, new_fee_to: fee_to },
                    ),
                )
                &&& final(self).fee_to_setter == old(self).fee_to_setter
                &&& final(self).all_pairs == old(self).all_pairs
                &&& final(self).pair_code_hash == old(self).pair_code_hash
            },
    {
        if caller != self.fee_to_setter {
            return Err(Error::NotAuthorized);
        }
        let old_fee_to = self.fee_to;
        self.fee_to = fee_to;
        self.events.push(FactoryEvent::FeeToSet(FeeToSet { old_fee_to, new_fee_to: fee_to }));
        Ok(())
    }

    /// Hands the fee-setter role to a non-null account; only the current
    /// fee setter may.
    pub fn set_fee_to_setter(&mut self, caller: AccountId, new_setter: AccountId) -> (r: Result<
        (),
        Error,
    >)
        ensures
            caller != old(self).fee_to_setter ==> r == Err::<(), Error>(Error::NotAuthorized)
                && *final(self) == *old(self),
            caller == old(self).fee_to_setter && new_setter == ZERO_ACCOUNT ==> r == Err::<
                (),
                Error,
            >(Error::ZeroAddress) && *final(self) == *old(self),
            caller == old(self).fee_to_setter && new_setter != ZERO_ACCOUNT ==> {
                &&& r == Ok::<(), Error>(())
                &&& final(self).fee_to_setter == new_setter
                &&& final(self).events@ == old(self).events@.push(
                    FactoryEvent::FeeToSetterSet(
                        FeeToSetterSet { old_setter: old(self).fee_to_setter, new_setter },
                    ),
                )
                &&& final(self).fee_to == old(self).fee_to
                &&& final(self).all_pairs == old(self).all_pairs
                &&& final(self).pair_code_hash == old(self).pair_code_hash
            },
    {
        if caller != self.fee_to_setter {
            return Err(Error::NotAuthorized);
        }
        if new_setter == ZERO_ACCOUNT {
            return Err(Error::ZeroAddress);
        }
        let old_setter = self.fee_to_setter;
        self.fee_to_setter = new_setter;
        self.events.push(FactoryEvent::FeeToSetterSet(FeeToSetterSet { old_setter, new_setter }));
        Ok(())
    }
}

/// `first_match` finds an entry exactly when one exists.
pub proof fn lemma_first_match_iff_exists(pairs: Seq<PairInfo>, t0: AccountId, t1: AccountId)
    ensures
        (first_match(pairs, t0, t1) is Some) <==> exists|i: int|
            0 <= i < pairs.len() && (#[trigger] pairs[i]).token0 == t0 && pairs[i].token1 == t1,
    decreases pairs.len(),
{
    if pairs.len() > 0 {
        lemma_first_match_iff_exists(pairs.drop_first(), t0, t1);
        if !(pairs[0].token0 == t0 && pairs[0].token1 == t1) {
            assert forall|i: int|
                0 <= i < pairs.len() && (#[trigger] pairs[i]).token0 == t0 && pairs[i].token1
                    == t1 implies exists|j: int|
                0 <= j < pairs.drop_first().len() && (#[trigger] pairs.drop_first()[j]).token0
                    == t0 && pairs.drop_first()[j].token1 == t1 by {
                assert(pairs.drop_first()[i - 1] == pairs[i]);
            }
            assert forall|j: int|
                0 <= j < pairs.drop_first().len() && (#[trigger] pairs.drop_first()[j]).token0
                    == t0 && pairs.drop_first()[j].token1 == t1 implies exists|i: int|
                0 <= i < pairs.len() && (#[trigger] pairs[i]).token0 == t0 && pairs[i].token1
                    == t1 by {
                assert(pairs[j + 1] == pairs.drop_first()[j]);
            }
        }
    }
}

/// A successful `first_match` returns the pair of some matching entry.
pub proof fn lemma_first_match_is_entry(pairs: Seq<PairInfo>, t0: AccountId, t1: AccountId)
    requires
        first_match(pairs, t0, t1) is Some,
    ensures
        exists|i: int|
            0 <= i < pairs.len() && (#[trigger] pairs[i]).token0 == t0 && pairs[i].token1 == t1
                && pairs[i].pair == first_match(pairs, t0, t1).unwrap(),
    decreases pairs.len(),
{
    if pairs.len() > 0 {
        if pairs[0].token0 == t0 && pairs[0].token1 == t1 {
            assert(pairs[0].pair == first_match(pairs, t0, t1).unwrap());
        } else {
            lemma_first_match_is_entry(pairs.drop_first(), t0, t1);
            let j = choose|j: int|
                0 <= j < pairs.drop_first().len() && (#[trigger] pairs.drop_first()[j]).token0
                    == t0 && pairs.drop_first()[j].token1 == t1 && pairs.drop_first()[j].pair
                    == first_match(pairs.drop_first(), t0, t1).unwrap();
            assert(pairs[j + 1] == pairs.drop_first()[j]);
        }
    }
}

/// Appending a fresh entry to a registry with no match makes that entry
/// the match.
pub proof fn lemma_first_match_push(
    pairs: Seq<PairInfo>,
    entry: PairInfo,
    t0: AccountId,
    t1: AccountId,
)
    requires
        first_match(pairs, t0, t1) is None,
    ensures
        first_match(pairs.push(entry), t0, t1) == if entry.token0 == t0 && entry.token1 == t1 {
            Some(entry.pair)
        } else {
            None::<AccountId>
        },
    decreases pairs.len(),
{
    if pairs.len() == 0 {
        assert(pairs.push(entry)[0] == entry);
        assert(pairs.push(entry).drop_first() =~= Seq::<PairInfo>::empty());
        assert(first_match(Seq::<PairInfo>::empty(), t0, t1) is None);
    } else {
        assert(!(pairs[0].token0 == t0 && pairs[0].token1 == t1));
        assert(first_match(pairs.drop_first(), t0, t1) is None);
        assert(pairs.push(entry)[0] == pairs[0]);
        assert(pairs.push(entry).drop_first() =~= pairs.drop_first().push(entry));
        lemma_first_match_push(pairs.drop_first(), entry, t0, t1);
        assert(first_match(pairs.push(entry), t0, t1) == first_match(
            pairs.drop_first().push(entry),
            t0,
            t1,
        ));
    }
}

/// Law: pair lookup is symmetric in its two token arguments.
pub proof fn lemma_lookup_pair_symmetric(f: Factory, token_a: AccountId, token_b: AccountId)
    ensures
        f.spec_get_pair_address(token_a, token_b) == f.spec_get_pair_address(token_b, token_a),
{
}

/// Law: once a pair is created, looking it up in either token order
/// returns the new pair, and creating it again in either order fails
/// with `PairExists`.
pub proof fn lemma_create_pair_symmetric_registry(
    before: Factory,
    after: Factory,
    token_a: AccountId,
    token_b: AccountId,
    pair_id: AccountId,
)
    requires
        before.spec_create_pair(token_a, token_b) == Ok::<AccountId, Error>(pair_id),
        after.all_pairs@ == before.all_pairs@.push(before.spec_new_pair_info(token_a, token_b)),
    ensures
        after.spec_get_pair_address(token_a, token_b) == Some(pair_id),
        after.spec_get_pair_address(token_b, token_a) == Some(pair_id),
        after.spec_create_pair(token_a, token_b) == Err::<AccountId, Error>(Error::PairExists),
        after.spec_create_pair(token_b, token_a) == Err::<AccountId, Error>(Error::PairExists),
{
    let t0 = canonical_order(token_a, token_b).0;
    let t1 = canonical_order(token_a, token_b).1;
    lemma_first_match_push(
        before.all_pairs@,
        before.spec_new_pair_info(token_a, token_b),
        t0,
        t1,
    );
}

} // verus!
