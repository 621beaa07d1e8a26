//! The local store: the durable home of coins, quote currencies and
//! triggers, with key-based access and store-assigned surrogate ids.
//!
//! The store is an in-process structure; a surrounding program that wants
//! durability serialises it at the edge. Every operation preserves the
//! store's well-formedness: surrogate ids and external keys are unique,
//! ids never exceed the next free id, and every trigger references an
//! existing coin and currency row.

use vstd::prelude::*;
use vstd::pervasive::VecAdditionalExecFns;

use crate::domain::{Coin, VsCurrency, Trigger, ClientError};

verus! {

/// No two rows share a surrogate id or an external key.
pub open spec fn coins_distinct(coins: Seq<Coin>) -> bool {
    forall|i: int, j: int|
        0 <= i < j < coins.len() ==> #[trigger] coins[i].surrogate_id != #[trigger] coins[j].surrogate_id
            && coins[i].external_id@ != coins[j].external_id@
}

pub open spec fn currencies_distinct(currencies: Seq<VsCurrency>) -> bool {
    forall|i: int, j: int|
        0 <= i < j < currencies.len() ==> #[trigger] currencies[i].surrogate_id
            != #[trigger] currencies[j].surrogate_id
            && currencies[i].external_name@ != currencies[j].external_name@
}

pub open spec fn triggers_distinct(triggers: Seq<Trigger>) -> bool {
    forall|i: int, j: int|
        0 <= i < j < triggers.len() ==> #[trigger] triggers[i].surrogate_id
            != #[trigger] triggers[j].surrogate_id
}

/// Some row carries this surrogate id.
pub open spec fn has_coin_id(coins: Seq<Coin>, surrogate_id: u64) -> bool {
    exists|i: int| 0 <= i < coins.len() && #[trigger] coins[i].surrogate_id == surrogate_id
}

pub open spec fn has_currency_id(currencies: Seq<VsCurrency>, surrogate_id: u64) -> bool {
    exists|i: int|
        0 <= i < currencies.len() && #[trigger] currencies[i].surrogate_id == surrogate_id
}

/// Some row carries this provider identifier.
pub open spec fn has_external_id(coins: Seq<Coin>, external_id: Seq<char>) -> bool {
    exists|i: int| 0 <= i < coins.len() && #[trigger] coins[i].external_id@ == external_id
}

pub open spec fn has_external_name(currencies: Seq<VsCurrency>, external_name: Seq<char>) -> bool {
    exists|i: int|
        0 <= i < currencies.len() && #[trigger] currencies[i].external_name@ == external_name
}

/// `triggers` with every row holding `surrogate_id` removed, order kept.
pub open spec fn without_trigger(triggers: Seq<Trigger>, surrogate_id: u64) -> Seq<Trigger>
    decreases triggers.len(),
{
    if triggers.len() == 0 {
        Seq::empty()
    } else {
        let rest = without_trigger(triggers.drop_last(), surrogate_id);
        if triggers.last().surrogate_id == surrogate_id {
            rest
        } else {
            rest.push(triggers.last())
        }
    }
}

/// Every row of the shortened sequence comes from the original and does
/// not hold the removed id.
pub proof fn lemma_without_trigger_elements(triggers: Seq<Trigger>, surrogate_id: u64)
    ensures
        without_trigger(triggers, surrogate_id).len() <= triggers.len(),
        forall|k: int|
            0 <= k < without_trigger(triggers, surrogate_id).len() ==> triggers.contains(
                #[trigger] without_trigger(triggers, surrogate_id)[k],
            ) && without_trigger(triggers, surrogate_id)[k].surrogate_id != surrogate_id,
    decreases triggers.len(),
{
    if triggers.len() > 0 {
        lemma_without_trigger_elements(triggers.drop_last(), surrogate_id);
        let shorter = without_trigger(triggers, surrogate_id);
        assert forall|k: int| 0 <= k < shorter.len() implies triggers.contains(
            #[trigger] shorter[k],
        ) && shorter[k].surrogate_id != surrogate_id by {
            let rest = without_trigger(triggers.drop_last(), surrogate_id);
            if k < rest.len() {
                let j = choose|j: int|
                    0 <= j < triggers.drop_last().len() && triggers.drop_last()[j] == rest[k];
                assert(triggers[j] == shorter[k]);
            } else {
                assert(shorter[k] == triggers.last());
                assert(triggers[triggers.len() - 1] == shorter[k]);
            }
        }
    }
}

/// Rows that were pairwise distinct stay pairwise distinct after a removal.
pub proof fn lemma_without_trigger_distinct(triggers: Seq<Trigger>, surrogate_id: u64)
    requires
        triggers_distinct(triggers),
    ensures
        triggers_distinct(without_trigger(triggers, surrogate_id)),
    decreases triggers.len(),
{
    if triggers.len() > 0 {
        let prefix = triggers.drop_last();
        assert forall|i: int, j: int| 0 <= i < j < prefix.len() implies #[trigger] prefix[i].surrogate_id
            != #[trigger] prefix[j].surrogate_id by {
            assert(triggers[i].surrogate_id != triggers[j].surrogate_id);
        }
        lemma_without_trigger_distinct(prefix, surrogate_id);
        let rest = without_trigger(prefix, surrogate_id);
        let shorter = without_trigger(triggers, surrogate_id);
        if triggers.last().surrogate_id != surrogate_id {
            lemma_without_trigger_elements(prefix, surrogate_id);
            assert forall|i: int, j: int| 0 <= i < j < shorter.len() implies #[trigger] shorter[i].surrogate_id
                != #[trigger] shorter[j].surrogate_id by {
                if j < rest.len() {
                    assert(rest[i].surrogate_id != rest[j].surrogate_id);
                } else {
                    assert(shorter[j] == triggers.last());
                    let m = choose|m: int| 0 <= m < prefix.len() && prefix[m] == rest[i];
                    assert(triggers[m].surrogate_id != triggers[triggers.len() - 1].surrogate_id);
                }
            }
        }
    }
}

/// Removal distributes over concatenation.
pub proof fn lemma_without_trigger_concat(a: Seq<Trigger>, b: Seq<Trigger>, surrogate_id: u64)
    ensures
        without_trigger(a + b, surrogate_id) == without_trigger(a, surrogate_id)
            + without_trigger(b, surrogate_id),
    decreases b.len(),
{
    if b.len() == 0 {
        assert(a + b =~= a);
        assert(without_trigger(a, surrogate_id) + without_trigger(b, surrogate_id)
            =~= without_trigger(a, surrogate_id));
    } else {
        lemma_without_trigger_concat(a, b.drop_last(), surrogate_id);
        assert((a + b).drop_last() =~= a + b.drop_last());
        assert((a + b).last() == b.last());
        if b.last().surrogate_id != surrogate_id {
            assert(without_trigger(a, surrogate_id) + without_trigger(b, surrogate_id)
                =~= (without_trigger(a, surrogate_id) + without_trigger(
                b.drop_last(),
                surrogate_id,
            )).push(b.last()));
        }
    }
}

/// Removing an id no row holds changes nothing.
pub proof fn lemma_without_trigger_absent(triggers: Seq<Trigger>, surrogate_id: u64)
    requires
        forall|k: int| 0 <= k < triggers.len() ==> #[trigger] triggers[k].surrogate_id
            != surrogate_id,
    ensures
        without_trigger(triggers, surrogate_id) == triggers,
    decreases triggers.len(),
{
    if triggers.len() > 0 {
        assert forall|k: int| 0 <= k < triggers.drop_last().len() implies #[trigger] triggers.drop_last()[k].surrogate_id != surrogate_id by {
            assert(triggers[k].surrogate_id != surrogate_id);
        }
        lemma_without_trigger_absent(triggers.drop_last(), surrogate_id);
        assert(triggers[triggers.len() - 1].surrogate_id != surrogate_id);
        assert(without_trigger(triggers, surrogate_id) == triggers.drop_last().push(
            triggers.last(),
        ));
        assert(triggers.drop_last().push(triggers.last()) =~= triggers);
    }
}

/// Removing an id twice is the same as removing it once.
pub proof fn lemma_without_trigger_idempotent(triggers: Seq<Trigger>, surrogate_id: u64)
    ensures
        without_trigger(without_trigger(triggers, surrogate_id), surrogate_id) == without_trigger(
            triggers,
            surrogate_id,
        ),
    decreases triggers.len(),
{
    if triggers.len() > 0 {
        let prefix = triggers.drop_last();
        lemma_without_trigger_idempotent(prefix, surrogate_id);
        let rest = without_trigger(prefix, surrogate_id);
        if triggers.last().surrogate_id == surrogate_id {
            assert(without_trigger(triggers, surrogate_id) == rest);
        } else {
            let shorter = without_trigger(triggers, surrogate_id);
            assert(shorter == rest.push(triggers.last()));
            assert(shorter.drop_last() =~= rest);
            assert(shorter.last() == triggers.last());
        }
    }
}

/// `c` with its favourite flag replaced.
pub open spec fn with_coin_favourite(c: Coin, favourite: bool) -> Coin {
    Coin { surrogate_id: c.surrogate_id, external_id: c.external_id, favourite }
}

pub open spec fn with_currency_favourite(c: VsCurrency, favourite: bool) -> VsCurrency {
    VsCurrency { surrogate_id: c.surrogate_id, external_name: c.external_name, favourite }
}

pub struct LocalStore {
    pub coins: Vec<Coin>,
    pub currencies: Vec<VsCurrency>,
    pub triggers: Vec<Trigger>,
    pub next_coin_id: u64,
    pub next_currency_id: u64,
    pub next_trigger_id: u64,
}

impl LocalStore {
    pub open spec fn coins_wf(self) -> bool {
        &&& coins_distinct(self.coins@)
        &&& forall|i: int|
            0 <= i < self.coins@.len() ==> #[trigger] self.coins@[i].surrogate_id
                < self.next_coin_id
    }

    pub open spec fn currencies_wf(self) -> bool {
        &&& currencies_distinct(self.currencies@)
        &&& forall|i: int|
            0 <= i < self.currencies@.len() ==> #[trigger] self.currencies@[i].surrogate_id
                < self.next_currency_id
    }

    pub open spec fn triggers_wf(self) -> bool {
        &&& triggers_distinct(self.triggers@)
        &&& forall|i: int|
            0 <= i < self.triggers@.len() ==> #[trigger] self.triggers@[i].surrogate_id
                < self.next_trigger_id
        &&& forall|i: int|
            0 <= i < self.triggers@.len() ==> has_coin_id(
                self.coins@,
                #[trigger] self.triggers@[i].coin_ref,
            )
        &&& forall|i: int|
            0 <= i < self.triggers@.len() ==> has_currency_id(
                self.currencies@,
                #[trigger] self.triggers@[i].currency_ref,
            )
    }

    /// The store invariant: every constructor establishes it and every
    /// operation preserves it.
    pub open spec fn wf(self) -> bool {
        self.coins_wf() && self.currencies_wf() && self.triggers_wf()
    }

    pub fn new() -> (s: LocalStore)
        ensures
            s.wf(),
            s.coins@ == Seq::<Coin>::empty(),
            s.currencies@ == Seq::<VsCurrency>::empty(),
            s.triggers@ == Seq::<Trigger>::empty(),
            s.next_coin_id == 1,
            s.next_currency_id == 1,
            s.next_trigger_id == 1,
    {
        LocalStore {
            coins: Vec::new(),
            currencies: Vec::new(),
            triggers: Vec::new(),
            next_coin_id: 1,
            next_currency_id: 1,
            next_trigger_id: 1,
        }
    }

    /// The row holding this provider identifier, if one exists.
    pub fn find_coin_by_external_id(&self, external_id: &String) -> (r: Option<Coin>)
        ensures
            r is Some <==> has_external_id(self.coins@, external_id@),
            r matches Some(c) ==> self.coins@.contains(c) && c.external_id@ == external_id@,
    {
        let mut i: usize = 0;
        while i < self.coins.len()
            invariant
                i <= self.coins@.len(),
                forall|k: int| 0 <= k < i ==> #[trigger] self.coins@[k].external_id@ != external_id@,
            decreases self.coins@.len() - i,
        {
            if self.coins[i].external_id == *external_id {
                return Some(self.coins[i].clone());
            }
            i = i + 1;
        }
        None
    }

    pub fn find_currency_by_external_name(&self, external_name: &String) -> (r: Option<VsCurrency>)
        ensures
            r is Some <==> has_external_name(self.currencies@, external_name@),
            r matches Some(c) ==> self.currencies@.contains(c) && c.external_name@
                == external_name@,
    {
        let mut i: usize = 0;
        while i < self.currencies.len()
            invariant
                i <= self.currencies@.len(),
                forall|k: int|
                    0 <= k < i ==> #[trigger] self.currencies@[k].external_name@ != external_name@,
            decreases self.currencies@.len() - i,
        {
            if self.currencies[i].external_name == *external_name {
                return Some(self.currencies[i].clone());
            }
            i = i + 1;
        }
        None
    }

    /// The row holding this surrogate id, if one exists.
    pub fn find_coin_by_id(&self, surrogate_id: u64) -> (r: Option<Coin>)
        ensures
            r is Some <==> has_coin_id(self.coins@, surrogate_id),
            r matches Some(c) ==> self.coins@.contains(c) && c.surrogate_id == surrogate_id,
    {
        let mut i: usize = 0;
        while i < self.coins.len()
            invariant
                i <= self.coins@.len(),
                forall|k: int| 0 <= k < i ==> #[trigger] self.coins@[k].surrogate_id != surrogate_id,
            decreases self.coins@.len() - i,
        {
            if self.coins[i].surrogate_id == surrogate_id {
                return Some(self.coins[i].clone());
            }
            i = i + 1;
        }
        None
    }

    pub fn find_currency_by_id(&self, surrogate_id: u64) -> (r: Option<VsCurrency>)
        ensures
            r is Some <==> has_currency_id(self.currencies@, surrogate_id),
            r matches Some(c) ==> self.currencies@.contains(c) && c.surrogate_id == surrogate_id,
    {
        let mut i: usize = 0;
        while i < self.currencies.len()
            invariant
                i <= self.currencies@.len(),
                forall|k: int|
                    0 <= k < i ==> #[trigger] self.currencies@[k].surrogate_id != surrogate_id,
            decreases self.currencies@.len() - i,
        {
            if self.currencies[i].surrogate_id == surrogate_id {
                return Some(self.currencies[i].clone());
            }
            i = i + 1;
        }
        None
    }

    /// True exactly when some coin row carries this surrogate id.
    pub fn contains_coin_id(&self, surrogate_id: u64) -> (r: bool)
        ensures
            r == has_coin_id(self.coins@, surrogate_id),
    {
        let mut i: usize = 0;
        while i < self.coins.len()
            invariant
                i <= self.coins@.len(),
                forall|k: int| 0 <= k < i ==> #[trigger] self.coins@[k].surrogate_id != surrogate_id,
            decreases self.coins@.len() - i,
        {
            if self.coins[i].surrogate_id == surrogate_id {
                return true;
            }
            i = i + 1;
        }
        false
    }

    pub fn contains_currency_id(&self, surrogate_id: u64) -> (r: bool)
        ensures
            r == has_currency_id(self.currencies@, surrogate_id),
    {
        let mut i: usize = 0;
        while i < self.currencies.len()
            invariant
                i <= self.currencies@.len(),
                forall|k: int|
                    0 <= k < i ==> #[trigger] self.currencies@[k].surrogate_id != surrogate_id,
            decreases self.currencies@.len() - i,
        {
            if self.currencies[i].surrogate_id == surrogate_id {
                return true;
            }
            i = i + 1;
        }
        false
    }

    /// Insert a coin under a fresh surrogate id if the provider identifier
    /// is new; otherwise leave the store untouched. Returns the row that
    /// holds the identifier afterwards.
    pub fn upsert_coin(&mut self, external_id: String) -> (r: Coin)
        requires
            old(self).wf(),
            old(self).next_coin_id < u64::MAX,
        ensures
            final(self).wf(),
            final(self).currencies@ == old(self).currencies@,
            final(self).triggers@ == old(self).triggers@,
            final(self).next_currency_id == old(self).next_currency_id,
            final(self).next_trigger_id == old(self).next_trigger_id,
            has_external_id(old(self).coins@, external_id@) ==> *final(self) == *old(self)
                && old(self).coins@.contains(r) && r.external_id@ == external_id@,
            !has_external_id(old(self).coins@, external_id@) ==> r == (Coin {
                surrogate_id: old(self).next_coin_id,
                external_id: external_id,
                favourite: false,
            }) && final(self).coins@ == old(self).coins@.push(r) && final(self).next_coin_id
                == old(self).next_coin_id + 1,
    {
        match self.find_coin_by_external_id(&external_id) {
            Some(c) => c,
            None => {
                let c = Coin {
                    surrogate_id: self.next_coin_id,
                    external_id,
                    favourite: false,
                };
                let r = c.clone();
                self.coins.push(c);
                self.next_coin_id = self.next_coin_id + 1;
                proof {
                    assert forall|i: int|
                        0 <= i < self.triggers@.len() implies has_coin_id(
                        self.coins@,
                        #[trigger] self.triggers@[i].coin_ref,
                    ) by {
                        assert(old(self).triggers@[i].coin_ref == self.triggers@[i].coin_ref);
                        assert(has_coin_id(old(self).coins@, self.triggers@[i].coin_ref));
                        let j = choose|j: int|
                            0 <= j < old(self).coins@.len() && #[trigger] old(self).coins@[j].surrogate_id == self.triggers@[i].coin_ref;
                        assert(self.coins@[j].surrogate_id == self.triggers@[i].coin_ref);
                    }
                }
                r
            },
        }
    }

    /// The currency counterpart of [`LocalStore::upsert_coin`].
    pub fn upsert_currency(&mut self, external_name: String) -> (r: VsCurrency)
        requires
            old(self).wf(),
            old(self).next_currency_id < u64::MAX,
        ensures
            final(self).wf(),
            final(self).coins@ == old(self).coins@,
            final(self).triggers@ == old(self).triggers@,
            final(self).next_coin_id == old(self).next_coin_id,
            final(self).next_trigger_id == old(self).next_trigger_id,
            has_external_name(old(self).currencies@, external_name@) ==> *final(self) == *old(self)
                && old(self).currencies@.contains(r) && r.external_name@ == external_name@,
            !has_external_name(old(self).currencies@, external_name@) ==> r == (VsCurrency {
                surrogate_id: old(self).next_currency_id,
                external_name: external_name,
                favourite: false,
            }) && final(self).currencies@ == old(self).currencies@.push(r)
                && final(self).next_currency_id == old(self).next_currency_id + 1,
    {
        match self.find_currency_by_external_name(&external_name) {
            Some(c) => c,
            None => {
                let c = VsCurrency {
                    surrogate_id: self.next_currency_id,
                    external_name,
                    favourite: false,
                };
                let r = c.clone();
                self.currencies.push(c);
                self.next_currency_id = self.next_currency_id + 1;
                proof {
                    assert forall|i: int|
                        0 <= i < self.triggers@.len() implies has_currency_id(
                        self.currencies@,
                        #[trigger] self.triggers@[i].currency_ref,
                    ) by {
                        assert(old(self).triggers@[i].currency_ref == self.triggers@[i].currency_ref);
                        assert(has_currency_id(old(self).currencies@, self.triggers@[i].currency_ref));
                        let j = choose|j: int|
                            0 <= j < old(self).currencies@.len() && #[trigger] old(self).currencies@[j].surrogate_id == self.triggers@[i].currency_ref;
                        assert(self.currencies@[j].surrogate_id == self.triggers@[i].currency_ref);
                    }
                }
                r
            },
        }
    }

    /// A copy of every coin row, in insertion order.
    pub fn all_coins(&self) -> (r: Vec<Coin>)
        ensures
            r@ == self.coins@,
    {
        let mut r: Vec<Coin> = Vec::new();
        let mut i: usize = 0;
        while i < self.coins.len()
            invariant
                i <= self.coins@.len(),
                r@ == self.coins@.subrange(0, i as int),
            decreases self.coins@.len() - i,
        {
            r.push(self.coins[i].clone());
            i = i + 1;
        }
        proof {
            assert(r@ == self.coins@.subrange(0, self.coins@.len() as int));
            assert(self.coins@.subrange(0, self.coins@.len() as int) =~= self.coins@);
        }
        r
    }

    pub fn all_currencies(&self) -> (r: Vec<VsCurrency>)
        ensures
            r@ == self.currencies@,
    {
        let mut r: Vec<VsCurrency> = Vec::new();
        let mut i: usize = 0;
        while i < self.currencies.len()
            invariant
                i <= self.currencies@.len(),
                r@ == self.currencies@.subrange(0, i as int),
            decreases self.currencies@.len() - i,
        {
            r.push(self.currencies[i].clone());
            i = i + 1;
        }
        proof {
            assert(r@ == self.currencies@.subrange(0, self.currencies@.len() as int));
            assert(self.currencies@.subrange(0, self.currencies@.len() as int) =~= self.currencies@);
        }
        r
    }

    pub fn all_triggers(&self) -> (r: Vec<Trigger>)
        ensures
            r@ == self.triggers@,
    {
        let mut r: Vec<Trigger> = Vec::new();
        let mut i: usize = 0;
        while i < self.triggers.len()
            invariant
                i <= self.triggers@.len(),
                r@ == self.triggers@.subrange(0, i as int),
            decreases self.triggers@.len() - i,
        {
            r.push(self.triggers[i]);
            i = i + 1;
        }
        proof {
            assert(r@ == self.triggers@.subrange(0, self.triggers@.len() as int));
            assert(self.triggers@.subrange(0, self.triggers@.len() as int) =~= self.triggers@);
        }
        r
    }

    /// Set the favourite flag of the coin holding this surrogate id.
    /// Fails with `UnknownReference` exactly when no row holds it.
    pub fn update_coin_favourite(&mut self, surrogate_id: u64, favourite: bool) -> (r: Result<
        (),
        ClientError,
    >)
        requires
            old(self).wf(),
        ensures
            final(self).wf(),
            final(self).currencies@ == old(self).currencies@,
            final(self).triggers@ == old(self).triggers@,
            final(self).next_coin_id == old(self).next_coin_id,
            final(self).next_currency_id == old(self).next_currency_id,
            final(self).next_trigger_id == old(self).next_trigger_id,
            r is Ok <==> has_coin_id(old(self).coins@, surrogate_id),
            r matches Err(e) ==> e == ClientError::UnknownReference && *final(self) == *old(self),
            final(self).coins@.len() == old(self).coins@.len(),
            forall|k: int|
                0 <= k < old(self).coins@.len() ==> #[trigger] final(self).coins@[k] == (
                if old(self).coins@[k].surrogate_id == surrogate_id && r is Ok {
                    with_coin_favourite(old(self).coins@[k], favourite)
                } else {
                    old(self).coins@[k]
                }),
    {
        let mut i: usize = 0;
        while i < self.coins.len()
            invariant
                i <= self.coins@.len(),
                *self == *old(self),
                old(self).wf(),
                forall|k: int| 0 <= k < i ==> #[trigger] self.coins@[k].surrogate_id != surrogate_id,
            decreases self.coins@.len() - i,
        {
            if self.coins[i].surrogate_id == surrogate_id {
                let mut c = self.coins[i].clone();
                c.favourite = favourite;
                self.coins.set(i, c);
                proof {
                    let oi = i as int;
                    assert forall|k: int|
                        0 <= k < old(self).coins@.len() && k != oi implies #[trigger] old(self).coins@[k].surrogate_id != surrogate_id by {
                        if k < oi {
                            assert(old(self).coins@[k].surrogate_id != old(self).coins@[oi].surrogate_id);
                        } else {
                            assert(old(self).coins@[oi].surrogate_id != old(self).coins@[k].surrogate_id);
                        }
                    }
                    assert forall|a: int, b: int|
                        0 <= a < b < self.coins@.len() implies #[trigger] self.coins@[a].surrogate_id
                        != #[trigger] self.coins@[b].surrogate_id && self.coins@[a].external_id@
                        != self.coins@[b].external_id@ by {
                        assert(old(self).coins@[a].surrogate_id != old(self).coins@[b].surrogate_id);
                        assert(old(self).coins@[a].external_id@ != old(self).coins@[b].external_id@);
                    }
                    assert forall|k: int|
                        0 <= k < self.triggers@.len() implies has_coin_id(
                        self.coins@,
                        #[trigger] self.triggers@[k].coin_ref,
                    ) by {
                        assert(has_coin_id(old(self).coins@, old(self).triggers@[k].coin_ref));
                        let j = choose|j: int|
                            0 <= j < old(self).coins@.len() && #[trigger] old(self).coins@[j].surrogate_id == self.triggers@[k].coin_ref;
                        assert(self.coins@[j].surrogate_id == self.triggers@[k].coin_ref);
                    }
                }
                return Ok(());
            }
            i = i + 1;
        }
        Err(ClientError::UnknownReference)
    }

    pub fn update_currency_favourite(&mut self, surrogate_id: u64, favourite: bool) -> (r: Result<
        (),
        ClientError,
    >)
        requires
            old(self).wf(),
        ensures
            final(self).wf(),
            final(self).coins@ == old(self).coins@,
            final(self).triggers@ == old(self).triggers@,
            final(self).next_coin_id == old(self).next_coin_id,
            final(self).next_currency_id == old(self).next_currency_id,
            final(self).next_trigger_id == old(self).next_trigger_id,
            r is Ok <==> has_currency_id(old(self).currencies@, surrogate_id),
            r matches Err(e) ==> e == ClientError::UnknownReference && *final(self) == *old(self),
            final(self).currencies@.len() == old(self).currencies@.len(),
            forall|k: int|
                0 <= k < old(self).currencies@.len() ==> #[trigger] final(self).currencies@[k] == (
                if old(self).currencies@[k].surrogate_id == surrogate_id && r is Ok {
                    with_currency_favourite(old(self).currencies@[k], favourite)
                } else {
                    old(self).currencies@[k]
                }),
    {
        let mut i: usize = 0;
        while i < self.currencies.len()
            invariant
                i <= self.currencies@.len(),
                *self == *old(self),
                old(self).wf(),
                forall|k: int|
                    0 <= k < i ==> #[trigger] self.currencies@[k].surrogate_id != surrogate_id,
            decreases self.currencies@.len() - i,
        {
            if self.currencies[i].surrogate_id == surrogate_id {
                let mut c = self.currencies[i].clone();
                c.favourite = favourite;
                self.currencies.set(i, c);
                proof {
                    let oi = i as int;
                    assert forall|k: int|
                        0 <= k < old(self).currencies@.len() && k != oi implies #[trigger] old(self).currencies@[k].surrogate_id != surrogate_id by {
                        if k < oi {
                            assert(old(self).currencies@[k].surrogate_id != old(self).currencies@[oi].surrogate_id);
                        } else {
                            assert(old(self).currencies@[oi].surrogate_id != old(self).currencies@[k].surrogate_id);
                        }
                    }
                    assert forall|a: int, b: int|
                        0 <= a < b < self.currencies@.len() implies #[trigger] self.currencies@[a].surrogate_id
                        != #[trigger] self.currencies@[b].surrogate_id
                        && self.currencies@[a].external_name@ != self.currencies@[b].external_name@ by {
                        assert(old(self).currencies@[a].surrogate_id != old(self).currencies@[b].surrogate_id);
                        assert(old(self).currencies@[a].external_name@ != old(self).currencies@[b].external_name@);
                    }
                    assert forall|k: int|
                        0 <= k < self.triggers@.len() implies has_currency_id(
                        self.currencies@,
                        #[trigger] self.triggers@[k].currency_ref,
                    ) by {
                        assert(has_currency_id(
                            old(self).currencies@,
                            old(self).triggers@[k].currency_ref,
                        ));
                        let j = choose|j: int|
                            0 <= j < old(self).currencies@.len() && #[trigger] old(self).currencies@[j].surrogate_id == self.triggers@[k].currency_ref;
                        assert(self.currencies@[j].surrogate_id == self.triggers@[k].currency_ref);
                    }
                }
                return Ok(());
            }
            i = i + 1;
        }
        Err(ClientError::UnknownReference)
    }

    /// Append a trigger under a fresh surrogate id. Fails with
    /// `UnknownReference` exactly when either reference resolves to no row.
    pub fn insert_trigger(
        &mut self,
        coin_ref: u64,
        currency_ref: u64,
        initial_price: u64,
        target_price: u64,
    ) -> (r: Result<Trigger, ClientError>)
        requires
            old(self).wf(),
            old(self).next_trigger_id < u64::MAX,
        ensures
            final(self).wf(),
            final(self).coins@ == old(self).coins@,
            final(self).currencies@ == old(self).currencies@,
            final(self).next_coin_id == old(self).next_coin_id,
            final(self).next_currency_id == old(self).next_currency_id,
            r is Ok <==> has_coin_id(old(self).coins@, coin_ref) && has_currency_id(
                old(self).currencies@,
                currency_ref,
            ),
            r matches Ok(t) ==> t == (Trigger {
                surrogate_id: old(self).next_trigger_id,
                coin_ref,
                currency_ref,
                initial_price,
                target_price,
            }) && final(self).triggers@ == old(self).triggers@.push(t) && final(self).next_trigger_id == old(self).next_trigger_id + 1,
            r matches Err(e) ==> e == ClientError::UnknownReference && *final(self) == *old(self),
    {
        if !self.contains_coin_id(coin_ref) {
            return Err(ClientError::UnknownReference);
        }
        if !self.contains_currency_id(currency_ref) {
            return Err(ClientError::UnknownReference);
        }
        let t = Trigger {
            surrogate_id: self.next_trigger_id,
            coin_ref,
            currency_ref,
            initial_price,
            target_price,
        };
        self.triggers.push(t);
        self.next_trigger_id = self.next_trigger_id + 1;
        Ok(t)
    }

    /// Remove the trigger holding this surrogate id, if any. Removing an
    /// id that no row holds leaves the store unchanged; the operation
    /// never fails.
    pub fn delete_trigger_by_id(&mut self, surrogate_id: u64)
        requires
            old(self).wf(),
        ensures
            final(self).wf(),
            final(self).coins@ == old(self).coins@,
            final(self).currencies@ == old(self).currencies@,
            final(self).next_coin_id == old(self).next_coin_id,
            final(self).next_currency_id == old(self).next_currency_id,
            final(self).next_trigger_id == old(self).next_trigger_id,
            final(self).triggers@ == without_trigger(old(self).triggers@, surrogate_id),
    {
        let mut kept: Vec<Trigger> = Vec::new();
        let mut i: usize = 0;
        while i < self.triggers.len()
            invariant
                i <= self.triggers@.len(),
                *self == *old(self),
                kept@ == without_trigger(self.triggers@.subrange(0, i as int), surrogate_id),
            decreases self.triggers@.len() - i,
        {
            if self.triggers[i].surrogate_id != surrogate_id {
                kept.push(self.triggers[i]);
            }
            i = i + 1;
            proof {
                let longer = self.triggers@.subrange(0, i as int);
                assert(longer.drop_last() =~= self.triggers@.subrange(0, i as int - 1));
                assert(longer.last() == self.triggers@[i as int - 1]);
            }
        }
        proof {
            assert(self.triggers@.subrange(0, self.triggers@.len() as int) =~= self.triggers@);
            lemma_without_trigger_elements(self.triggers@, surrogate_id);
            lemma_without_trigger_distinct(self.triggers@, surrogate_id);
            assert forall|k: int| 0 <= k < kept@.len() implies #[trigger] kept@[k].surrogate_id
                < self.next_trigger_id && has_coin_id(self.coins@, kept@[k].coin_ref)
                && has_currency_id(self.currencies@, kept@[k].currency_ref) by {
                assert(without_trigger(self.triggers@, surrogate_id)[k] == kept@[k]);
                assert(self.triggers@.contains(kept@[k]));
                let m = choose|m: int|
                    0 <= m < self.triggers@.len() && self.triggers@[m] == kept@[k];
                assert(self.triggers@[m].surrogate_id < self.next_trigger_id);
                assert(has_coin_id(self.coins@, self.triggers@[m].coin_ref));
                assert(has_currency_id(self.currencies@, self.triggers@[m].currency_ref));
            }
        }
        self.triggers = kept;
    }
}

} // verus!
