//! The caching client: the single entry point for reference data and
//! trigger persistence.
//!
//! Reference data (coins, currencies) is hydrated from the remote
//! provider at most once per process: a fetch result is handed in
//! exactly when the matching hydrated flag is still clear, every entry
//! the store does not yet hold is inserted with `favourite = false`, and
//! the flag is set only after the whole list was absorbed. A failed
//! fetch leaves the store and the flag untouched, so no partial cache
//! state exists. Trigger reads and writes always go to the store
//! directly.
//!
//! The network itself stays with the surrounding program: it passes the
//! fetched list (or the transport failure) in as a plain value, which
//! keeps every decision in this module verified.

use vstd::prelude::*;

use crate::domain::{Coin, VsCurrency, Trigger, TransportError, ClientError};
use crate::store::{
    LocalStore, has_external_id, has_external_name, has_coin_id, has_currency_id, without_trigger,
};

verus! {

/// The store's coin table after absorbing `ids`: entries already present
/// (by provider identifier) leave the table untouched, new ones are
/// appended with consecutive surrogate ids starting at `next`.
pub open spec fn hydrated_coins(coins: Seq<Coin>, ids: Seq<String>, next: int) -> Seq<Coin>
    decreases ids.len(),
{
    if ids.len() == 0 {
        coins
    } else {
        let rest = hydrated_coins(coins, ids.drop_last(), next);
        if has_external_id(rest, ids.last()@) {
            rest
        } else {
            rest.push(
                Coin {
                    surrogate_id: (next + rest.len() - coins.len()) as u64,
                    external_id: ids.last(),
                    favourite: false,
                },
            )
        }
    }
}

/// The currency counterpart of [`hydrated_coins`].
pub open spec fn hydrated_currencies(
    currencies: Seq<VsCurrency>,
    names: Seq<String>,
    next: int,
) -> Seq<VsCurrency>
    decreases names.len(),
{
    if names.len() == 0 {
        currencies
    } else {
        let rest = hydrated_currencies(currencies, names.drop_last(), next);
        if has_external_name(rest, names.last()@) {
            rest
        } else {
            rest.push(
                VsCurrency {
                    surrogate_id: (next + rest.len() - currencies.len()) as u64,
                    external_name: names.last(),
                    favourite: false,
                },
            )
        }
    }
}

/// After hydration every fetched identifier has a row.
pub proof fn lemma_hydrated_coins_complete(coins: Seq<Coin>, ids: Seq<String>, next: int)
    ensures
        forall|k: int|
            0 <= k < ids.len() ==> has_external_id(
                hydrated_coins(coins, ids, next),
                #[trigger] ids[k]@,
            ),
    decreases ids.len(),
{
    if ids.len() > 0 {
        lemma_hydrated_coins_complete(coins, ids.drop_last(), next);
        let rest = hydrated_coins(coins, ids.drop_last(), next);
        let whole = hydrated_coins(coins, ids, next);
        assert forall|k: int| 0 <= k < ids.len() implies has_external_id(
            whole,
            #[trigger] ids[k]@,
        ) by {
            if k < ids.len() - 1 {
                assert(ids.drop_last()[k]@ == ids[k]@);
                assert(has_external_id(rest, ids[k]@));
                let j = choose|j: int|
                    0 <= j < rest.len() && #[trigger] rest[j].external_id@ == ids[k]@;
                assert(whole[j].external_id@ == ids[k]@);
            } else {
                if has_external_id(rest, ids.last()@) {
                    assert(whole == rest);
                } else {
                    assert(whole[whole.len() - 1].external_id@ == ids[k]@);
                }
            }
        }
    }
}

/// Hydrating with identifiers the table already holds changes nothing.
pub proof fn lemma_hydration_noop(coins: Seq<Coin>, ids: Seq<String>, next: int)
    requires
        forall|k: int| 0 <= k < ids.len() ==> has_external_id(coins, #[trigger] ids[k]@),
    ensures
        hydrated_coins(coins, ids, next) == coins,
    decreases ids.len(),
{
    if ids.len() > 0 {
        assert forall|k: int| 0 <= k < ids.drop_last().len() implies has_external_id(
            coins,
            #[trigger] ids.drop_last()[k]@,
        ) by {
            assert(ids.drop_last()[k]@ == ids[k]@);
        }
        lemma_hydration_noop(coins, ids.drop_last(), next);
        assert(has_external_id(coins, ids[ids.len() - 1]@));
    }
}

/// Absorbing the same fetched list a second time is a no-op, whatever
/// surrogate ids the second pass would have used: hydration is
/// idempotent on the store.
pub proof fn lemma_hydration_idempotent(
    coins: Seq<Coin>,
    ids: Seq<String>,
    next: int,
    next2: int,
)
    ensures
        hydrated_coins(hydrated_coins(coins, ids, next), ids, next2) == hydrated_coins(
            coins,
            ids,
            next,
        ),
{
    lemma_hydrated_coins_complete(coins, ids, next);
    lemma_hydration_noop(hydrated_coins(coins, ids, next), ids, next2);
}

/// The favourite-flagged subsequence, order kept.
pub open spec fn favourite_coins_of(coins: Seq<Coin>) -> Seq<Coin>
    decreases coins.len(),
{
    if coins.len() == 0 {
        Seq::empty()
    } else {
        let rest = favourite_coins_of(coins.drop_last());
        if coins.last().favourite {
            rest.push(coins.last())
        } else {
            rest
        }
    }
}

pub open spec fn favourite_currencies_of(currencies: Seq<VsCurrency>) -> Seq<VsCurrency>
    decreases currencies.len(),
{
    if currencies.len() == 0 {
        Seq::empty()
    } else {
        let rest = favourite_currencies_of(currencies.drop_last());
        if currencies.last().favourite {
            rest.push(currencies.last())
        } else {
            rest
        }
    }
}

/// Favourite persistence: a row whose favourite flag is set appears in
/// the favourites listing, and in the full listing whatever its flag —
/// so a coin flagged through `update_coin_favourite` is seen by the
/// next `favourite_coins` read, and by `coins` either way.
pub proof fn lemma_favourite_coin_included(coins: Seq<Coin>, j: int)
    requires
        0 <= j < coins.len(),
        coins[j].favourite,
    ensures
        favourite_coins_of(coins).contains(coins[j]),
        coins.contains(coins[j]),
    decreases coins.len(),
{
    let fav = favourite_coins_of(coins);
    if j == coins.len() - 1 {
        assert(fav[fav.len() - 1] == coins[j]);
    } else {
        lemma_favourite_coin_included(coins.drop_last(), j);
        let rest = favourite_coins_of(coins.drop_last());
        let k = choose|k: int| 0 <= k < rest.len() && rest[k] == coins.drop_last()[j];
        assert(fav[k] == coins[j]);
    }
}

/// One row of a simple-price response: the live price of one
/// (coin, currency) pair, in the provider's smallest unit.
#[derive(Debug, PartialEq, Eq)]
pub struct PriceEntry {
    pub coin: String,
    pub currency: String,
    pub price: u64,
}

impl Clone for PriceEntry {
    fn clone(&self) -> (res: Self)
        ensures
            res == *self,
    {
        PriceEntry {
            coin: self.coin.clone(),
            currency: self.currency.clone(),
            price: self.price,
        }
    }
}

pub open spec fn entry_matches(e: PriceEntry, coin: Seq<char>, currency: Seq<char>) -> bool {
    e.coin@ == coin && e.currency@ == currency
}

/// Some entry quotes this pair.
pub open spec fn has_pair(
    entries: Seq<PriceEntry>,
    coin: Seq<char>,
    currency: Seq<char>,
) -> bool {
    exists|i: int| 0 <= i < entries.len() && entry_matches(#[trigger] entries[i], coin, currency)
}

/// Every requested pair is quoted.
pub open spec fn covers(
    entries: Seq<PriceEntry>,
    coin_keys: Seq<String>,
    currency_keys: Seq<String>,
) -> bool {
    forall|i: int, j: int|
        0 <= i < coin_keys.len() && 0 <= j < currency_keys.len() ==> has_pair(
            entries,
            #[trigger] coin_keys[i]@,
            #[trigger] currency_keys[j]@,
        )
}

/// The price of the first entry quoting this pair.
pub open spec fn price_of(
    entries: Seq<PriceEntry>,
    coin: Seq<char>,
    currency: Seq<char>,
) -> Option<u64>
    decreases entries.len(),
{
    if entries.len() == 0 {
        None
    } else if entry_matches(entries[0], coin, currency) {
        Some(entries[0].price)
    } else {
        price_of(entries.drop_first(), coin, currency)
    }
}

/// A pair has a price exactly when some entry quotes it.
pub proof fn lemma_price_of_some(entries: Seq<PriceEntry>, coin: Seq<char>, currency: Seq<char>)
    ensures
        price_of(entries, coin, currency) is Some <==> has_pair(entries, coin, currency),
    decreases entries.len(),
{
    if entries.len() > 0 && !entry_matches(entries[0], coin, currency) {
        lemma_price_of_some(entries.drop_first(), coin, currency);
        let rest = entries.drop_first();
        if has_pair(rest, coin, currency) {
            let i = choose|i: int|
                0 <= i < rest.len() && entry_matches(#[trigger] rest[i], coin, currency);
            assert(entry_matches(entries[i + 1], coin, currency));
        }
        if has_pair(entries, coin, currency) {
            let i = choose|i: int|
                0 <= i < entries.len() && entry_matches(#[trigger] entries[i], coin, currency);
            assert(entry_matches(rest[i - 1], coin, currency));
        }
    }
}

/// The price of the first entry quoting `(coin, currency)`, if any.
pub fn lookup_price(entries: &Vec<PriceEntry>, coin: &String, currency: &String) -> (r: Option<
    u64,
>)
    ensures
        r == price_of(entries@, coin@, currency@),
        r is Some <==> has_pair(entries@, coin@, currency@),
{
    proof {
        lemma_price_of_some(entries@, coin@, currency@);
        assert(entries@.subrange(0, entries@.len() as int) =~= entries@);
    }
    let mut i: usize = 0;
    while i < entries.len()
        invariant
            i <= entries@.len(),
            price_of(entries@, coin@, currency@) == price_of(
                entries@.subrange(i as int, entries@.len() as int),
                coin@,
                currency@,
            ),
        decreases entries@.len() - i,
    {
        let ghost before = entries@.subrange(i as int, entries@.len() as int);
        if entries[i].coin == *coin && entries[i].currency == *currency {
            proof {
                assert(entry_matches(before[0], coin@, currency@));
            }
            return Some(entries[i].price);
        }
        proof {
            assert(!entry_matches(before[0], coin@, currency@));
            assert(before.drop_first() =~= entries@.subrange(i as int + 1, entries@.len() as int));
        }
        i = i + 1;
    }
    proof {
        assert(entries@.subrange(entries@.len() as int, entries@.len() as int).len() == 0);
    }
    None
}

/// The caching client. Owns the local store together with the two
/// process-wide hydration flags, which start clear and are set at most
/// once.
pub struct CachingClient {
    pub store: LocalStore,
    pub coins_hydrated: bool,
    pub currencies_hydrated: bool,
}

impl CachingClient {
    pub open spec fn wf(self) -> bool {
        self.store.wf()
    }

    pub fn new(store: LocalStore) -> (c: CachingClient)
        requires
            store.wf(),
        ensures
            c.wf(),
            c.store == store,
            !c.coins_hydrated,
            !c.currencies_hydrated,
    {
        CachingClient { store, coins_hydrated: false, currencies_hydrated: false }
    }

    /// The full coin catalogue.
    ///
    /// The caller performs the one network fetch this operation may
    /// need and hands the outcome in: `fetch` is `Some` exactly when
    /// the coins are not hydrated yet. A successful fetch is absorbed
    /// into the store (existing rows untouched, new rows appended with
    /// `favourite = false`) and only then is the hydrated flag set; a
    /// failed fetch changes nothing and surfaces as
    /// `UpstreamUnavailable`. Once hydrated, the call returns the store
    /// contents unchanged, so a second call is observably identical to
    /// the first and no further fetch is ever requested.
    pub fn coins(&mut self, fetch: Option<Result<Vec<String>, TransportError>>) -> (r: Result<
        Vec<Coin>,
        ClientError,
    >)
        requires
            old(self).wf(),
            fetch is Some <==> !old(self).coins_hydrated,
            fetch matches Some(Ok(ids)) ==> old(self).store.next_coin_id as int + ids@.len()
                < u64::MAX as int,
        ensures
            final(self).wf(),
            final(self).coins_hydrated == (old(self).coins_hydrated || fetch matches Some(Ok(_))),
            final(self).currencies_hydrated == old(self).currencies_hydrated,
            final(self).store.currencies@ == old(self).store.currencies@,
            final(self).store.triggers@ == old(self).store.triggers@,
            final(self).store.next_currency_id == old(self).store.next_currency_id,
            final(self).store.next_trigger_id == old(self).store.next_trigger_id,
            old(self).coins_hydrated ==> *final(self) == *old(self),
            fetch matches Some(Err(_)) ==> *final(self) == *old(self),
            r is Ok <==> (old(self).coins_hydrated || fetch matches Some(Ok(_))),
            r matches Err(e) ==> e == ClientError::UpstreamUnavailable,
            fetch matches Some(Ok(ids)) ==> final(self).store.coins@ == hydrated_coins(
                old(self).store.coins@,
                ids@,
                old(self).store.next_coin_id as int,
            ) && final(self).store.next_coin_id == old(self).store.next_coin_id + final(self).store.coins@.len() - old(self).store.coins@.len(),
            r matches Ok(v) ==> v@ == final(self).store.coins@,
    {
        match fetch {
            None => Ok(self.store.all_coins()),
            Some(Err(_)) => Err(ClientError::UpstreamUnavailable),
            Some(Ok(ids)) => {
                let mut i: usize = 0;
                while i < ids.len()
                    invariant
                        i <= ids@.len(),
                        self.store.wf(),
                        old(self).store.next_coin_id as int + ids@.len() < u64::MAX as int,
                        self.store.coins@ == hydrated_coins(
                            old(self).store.coins@,
                            ids@.subrange(0, i as int),
                            old(self).store.next_coin_id as int,
                        ),
                        self.store.next_coin_id == old(self).store.next_coin_id
                            + self.store.coins@.len() - old(self).store.coins@.len(),
                        self.store.coins@.len() <= old(self).store.coins@.len() + i,
                        self.store.currencies@ == old(self).store.currencies@,
                        self.store.triggers@ == old(self).store.triggers@,
                        self.store.next_currency_id == old(self).store.next_currency_id,
                        self.store.next_trigger_id == old(self).store.next_trigger_id,
                        self.coins_hydrated == old(self).coins_hydrated,
                        self.currencies_hydrated == old(self).currencies_hydrated,
                    decreases ids@.len() - i,
                {
                    let id = ids[i].clone();
                    self.store.upsert_coin(id);
                    i = i + 1;
                    proof {
                        let sub = ids@.subrange(0, i as int);
                        assert(sub.drop_last() =~= ids@.subrange(0, i as int - 1));
                        assert(sub.last() == ids@[i as int - 1]);
                    }
                }
                proof {
                    assert(ids@.subrange(0, ids@.len() as int) =~= ids@);
                }
                self.coins_hydrated = true;
                Ok(self.store.all_coins())
            },
        }
    }

    /// The currency counterpart of [`CachingClient::coins`], with the
    /// identical hydration contract.
    pub fn vs_currencies(&mut self, fetch: Option<Result<Vec<String>, TransportError>>) -> (r:
        Result<Vec<VsCurrency>, ClientError>)
        requires
            old(self).wf(),
            fetch is Some <==> !old(self).currencies_hydrated,
            fetch matches Some(Ok(names)) ==> old(self).store.next_currency_id as int
                + names@.len() < u64::MAX as int,
        ensures
            final(self).wf(),
            final(self).currencies_hydrated == (old(self).currencies_hydrated || fetch matches Some(
                Ok(_),
            )),
            final(self).coins_hydrated == old(self).coins_hydrated,
            final(self).store.coins@ == old(self).store.coins@,
            final(self).store.triggers@ == old(self).store.triggers@,
            final(self).store.next_coin_id == old(self).store.next_coin_id,
            final(self).store.next_trigger_id == old(self).store.next_trigger_id,
            old(self).currencies_hydrated ==> *final(self) == *old(self),
            fetch matches Some(Err(_)) ==> *final(self) == *old(self),
            r is Ok <==> (old(self).currencies_hydrated || fetch matches Some(Ok(_))),
            r matches Err(e) ==> e == ClientError::UpstreamUnavailable,
            fetch matches Some(Ok(names)) ==> final(self).store.currencies@ == hydrated_currencies(
                old(self).store.currencies@,
                names@,
                old(self).store.next_currency_id as int,
            ) && final(self).store.next_currency_id == old(self).store.next_currency_id + final(self).store.currencies@.len() - old(self).store.currencies@.len(),
            r matches Ok(v) ==> v@ == final(self).store.currencies@,
    {
        match fetch {
            None => Ok(self.store.all_currencies()),
            Some(Err(_)) => Err(ClientError::UpstreamUnavailable),
            Some(Ok(names)) => {
                let mut i: usize = 0;
                while i < names.len()
                    invariant
                        i <= names@.len(),
                        self.store.wf(),
                        old(self).store.next_currency_id as int + names@.len() < u64::MAX as int,
                        self.store.currencies@ == hydrated_currencies(
                            old(self).store.currencies@,
                            names@.subrange(0, i as int),
                            old(self).store.next_currency_id as int,
                        ),
                        self.store.next_currency_id == old(self).store.next_currency_id
                            + self.store.currencies@.len() - old(self).store.currencies@.len(),
                        self.store.currencies@.len() <= old(self).store.currencies@.len() + i,
                        self.store.coins@ == old(self).store.coins@,
                        self.store.triggers@ == old(self).store.triggers@,
                        self.store.next_coin_id == old(self).store.next_coin_id,
                        self.store.next_trigger_id == old(self).store.next_trigger_id,
                        self.coins_hydrated == old(self).coins_hydrated,
                        self.currencies_hydrated == old(self).currencies_hydrated,
                    decreases names@.len() - i,
                {
                    let name = names[i].clone();
                    self.store.upsert_currency(name);
                    i = i + 1;
                    proof {
                        let sub = names@.subrange(0, i as int);
                        assert(sub.drop_last() =~= names@.subrange(0, i as int - 1));
                        assert(sub.last() == names@[i as int - 1]);
                    }
                }
                proof {
                    assert(names@.subrange(0, names@.len() as int) =~= names@);
                }
                self.currencies_hydrated = true;
                Ok(self.store.all_currencies())
            },
        }
    }

    /// As [`CachingClient::coins`], then filtered to the favourites.
    pub fn favourite_coins(&mut self, fetch: Option<Result<Vec<String>, TransportError>>) -> (r:
        Result<Vec<Coin>, ClientError>)
        requires
            old(self).wf(),
            fetch is Some <==> !old(self).coins_hydrated,
            fetch matches Some(Ok(ids)) ==> old(self).store.next_coin_id as int + ids@.len()
                < u64::MAX as int,
        ensures
            final(self).wf(),
            final(self).coins_hydrated == (old(self).coins_hydrated || fetch matches Some(Ok(_))),
            final(self).currencies_hydrated == old(self).currencies_hydrated,
            final(self).store.currencies@ == old(self).store.currencies@,
            final(self).store.triggers@ == old(self).store.triggers@,
            final(self).store.next_currency_id == old(self).store.next_currency_id,
            final(self).store.next_trigger_id == old(self).store.next_trigger_id,
            old(self).coins_hydrated ==> *final(self) == *old(self),
            fetch matches Some(Err(_)) ==> *final(self) == *old(self),
            r is Ok <==> (old(self).coins_hydrated || fetch matches Some(Ok(_))),
            r matches Err(e) ==> e == ClientError::UpstreamUnavailable,
            fetch matches Some(Ok(ids)) ==> final(self).store.coins@ == hydrated_coins(
                old(self).store.coins@,
                ids@,
                old(self).store.next_coin_id as int,
            ),
            r matches Ok(v) ==> v@ == favourite_coins_of(final(self).store.coins@),
    {
        match self.coins(fetch) {
            Err(e) => Err(e),
            Ok(all) => {
                let mut out: Vec<Coin> = Vec::new();
                let mut i: usize = 0;
                while i < all.len()
                    invariant
                        i <= all@.len(),
                        out@ == favourite_coins_of(all@.subrange(0, i as int)),
                    decreases all@.len() - i,
                {
                    if all[i].favourite {
                        out.push(all[i].clone());
                    }
                    i = i + 1;
                    proof {
                        let sub = all@.subrange(0, i as int);
                        assert(sub.drop_last() =~= all@.subrange(0, i as int - 1));
                        assert(sub.last() == all@[i as int - 1]);
                    }
                }
                proof {
                    assert(all@.subrange(0, all@.len() as int) =~= all@);
                }
                Ok(out)
            },
        }
    }

    pub fn favourite_vs_currencies(
        &mut self,
        fetch: Option<Result<Vec<String>, TransportError>>,
    ) -> (r: Result<Vec<VsCurrency>, ClientError>)
        requires
            old(self).wf(),
            fetch is Some <==> !old(self).currencies_hydrated,
            fetch matches Some(Ok(names)) ==> old(self).store.next_currency_id as int
                + names@.len() < u64::MAX as int,
        ensures
            final(self).wf(),
            final(self).currencies_hydrated == (old(self).currencies_hydrated || fetch matches Some(
                Ok(_),
            )),
            final(self).coins_hydrated == old(self).coins_hydrated,
            final(self).store.coins@ == old(self).store.coins@,
            final(self).store.triggers@ == old(self).store.triggers@,
            final(self).store.next_coin_id == old(self).store.next_coin_id,
            final(self).store.next_trigger_id == old(self).store.next_trigger_id,
            old(self).currencies_hydrated ==> *final(self) == *old(self),
            fetch matches Some(Err(_)) ==> *final(self) == *old(self),
            r is Ok <==> (old(self).currencies_hydrated || fetch matches Some(Ok(_))),
            r matches Err(e) ==> e == ClientError::UpstreamUnavailable,
            fetch matches Some(Ok(names)) ==> final(self).store.currencies@ == hydrated_currencies(
                old(self).store.currencies@,
                names@,
                old(self).store.next_currency_id as int,
            ),
            r matches Ok(v) ==> v@ == favourite_currencies_of(final(self).store.currencies@),
    {
        match self.vs_currencies(fetch) {
            Err(e) => Err(e),
            Ok(all) => {
                let mut out: Vec<VsCurrency> = Vec::new();
                let mut i: usize = 0;
                while i < all.len()
                    invariant
                        i <= all@.len(),
                        out@ == favourite_currencies_of(all@.subrange(0, i as int)),
                    decreases all@.len() - i,
                {
                    if all[i].favourite {
                        out.push(all[i].clone());
                    }
                    i = i + 1;
                    proof {
                        let sub = all@.subrange(0, i as int);
                        assert(sub.drop_last() =~= all@.subrange(0, i as int - 1));
                        assert(sub.last() == all@[i as int - 1]);
                    }
                }
                proof {
                    assert(all@.subrange(0, all@.len() as int) =~= all@);
                }
                Ok(out)
            },
        }
    }

    /// A live simple-price read: always a passthrough, never cached.
    ///
    /// The caller performs the network call and hands the outcome in.
    /// A transport failure surfaces as `UpstreamUnavailable`; a response
    /// that misses any requested (coin, currency) pair is rejected with
    /// `UnknownKey`; otherwise the response is returned as it came.
    pub fn price(
        &self,
        coin_keys: &Vec<String>,
        currency_keys: &Vec<String>,
        response: Result<Vec<PriceEntry>, TransportError>,
    ) -> (r: Result<Vec<PriceEntry>, ClientError>)
        ensures
            response matches Err(_) ==> r == Err::<Vec<PriceEntry>, ClientError>(
                ClientError::UpstreamUnavailable,
            ),
            response matches Ok(entries) ==> if covers(entries@, coin_keys@, currency_keys@) {
                r matches Ok(v) && v == entries
            } else {
                r == Err::<Vec<PriceEntry>, ClientError>(ClientError::UnknownKey)
            },
    {
        match response {
            Err(_) => Err(ClientError::UpstreamUnavailable),
            Ok(entries) => {
                let mut i: usize = 0;
                while i < coin_keys.len()
                    invariant
                        i <= coin_keys@.len(),
                        response == Ok::<Vec<PriceEntry>, TransportError>(entries),
                        forall|a: int, b: int|
                            0 <= a < i && 0 <= b < currency_keys@.len() ==> has_pair(
                                entries@,
                                #[trigger] coin_keys@[a]@,
                                #[trigger] currency_keys@[b]@,
                            ),
                    decreases coin_keys@.len() - i,
                {
                    let mut j: usize = 0;
                    while j < currency_keys.len()
                        invariant
                            i < coin_keys@.len(),
                            j <= currency_keys@.len(),
                            response == Ok::<Vec<PriceEntry>, TransportError>(entries),
                            forall|b: int|
                                0 <= b < j ==> has_pair(
                                    entries@,
                                    coin_keys@[i as int]@,
                                    #[trigger] currency_keys@[b]@,
                                ),
                        decreases currency_keys@.len() - j,
                    {
                        if lookup_price(&entries, &coin_keys[i], &currency_keys[j]).is_none() {
                            proof {
                                if covers(entries@, coin_keys@, currency_keys@) {
                                    assert(has_pair(
                                        entries@,
                                        coin_keys@[i as int]@,
                                        currency_keys@[j as int]@,
                                    ));
                                }
                            }
                            return Err(ClientError::UnknownKey);
                        }
                        j = j + 1;
                    }
                    i = i + 1;
                }
                Ok(entries)
            },
        }
    }

    /// Create a trigger after validating both references; the store
    /// assigns the surrogate id. `initial_price` is the live price the
    /// caller read just before creation.
    pub fn add_trigger(
        &mut self,
        coin_ref: u64,
        currency_ref: u64,
        initial_price: u64,
        target_price: u64,
    ) -> (r: Result<Trigger, ClientError>)
        requires
            old(self).wf(),
            old(self).store.next_trigger_id < u64::MAX,
        ensures
            final(self).wf(),
            final(self).coins_hydrated == old(self).coins_hydrated,
            final(self).currencies_hydrated == old(self).currencies_hydrated,
            final(self).store.coins@ == old(self).store.coins@,
            final(self).store.currencies@ == old(self).store.currencies@,
            final(self).store.next_coin_id == old(self).store.next_coin_id,
            final(self).store.next_currency_id == old(self).store.next_currency_id,
            r is Ok <==> has_coin_id(old(self).store.coins@, coin_ref) && has_currency_id(
                old(self).store.currencies@,
                currency_ref,
            ),
            r matches Ok(t) ==> t == (Trigger {
                surrogate_id: old(self).store.next_trigger_id,
                coin_ref,
                currency_ref,
                initial_price,
                target_price,
            }) && final(self).store.triggers@ == old(self).store.triggers@.push(t) && final(self).store.next_trigger_id == old(self).store.next_trigger_id + 1,
            r matches Err(e) ==> e == ClientError::UnknownReference && *final(self) == *old(self),
    {
        match self.store.insert_trigger(coin_ref, currency_ref, initial_price, target_price) {
            Ok(t) => Ok(t),
            Err(e) => Err(e),
        }
    }

    /// Every stored trigger, straight from the store on every call.
    pub fn get_all_triggers(&self) -> (r: Vec<Trigger>)
        ensures
            r@ == self.store.triggers@,
    {
        self.store.all_triggers()
    }

    /// Delete a trigger by surrogate id. Idempotent: deleting an id the
    /// store no longer holds succeeds as well, since a concurrent sweep
    /// may have removed it first; the call never fails.
    pub fn delete_trigger(&mut self, surrogate_id: u64) -> (r: Result<(), ClientError>)
        requires
            old(self).wf(),
        ensures
            final(self).wf(),
            r == Ok::<(), ClientError>(()),
            final(self).coins_hydrated == old(self).coins_hydrated,
            final(self).currencies_hydrated == old(self).currencies_hydrated,
            final(self).store.coins@ == old(self).store.coins@,
            final(self).store.currencies@ == old(self).store.currencies@,
            final(self).store.next_coin_id == old(self).store.next_coin_id,
            final(self).store.next_currency_id == old(self).store.next_currency_id,
            final(self).store.next_trigger_id == old(self).store.next_trigger_id,
            final(self).store.triggers@ == without_trigger(old(self).store.triggers@, surrogate_id),
    {
        self.store.delete_trigger_by_id(surrogate_id);
        Ok(())
    }

    /// Persist a favourite flag for a coin row.
    pub fn update_coin_favourite(&mut self, surrogate_id: u64, favourite: bool) -> (r: Result<
        (),
        ClientError,
    >)
        requires
            old(self).wf(),
        ensures
            final(self).wf(),
            final(self).coins_hydrated == old(self).coins_hydrated,
            final(self).currencies_hydrated == old(self).currencies_hydrated,
            final(self).store.currencies@ == old(self).store.currencies@,
            final(self).store.triggers@ == old(self).store.triggers@,
            final(self).store.next_coin_id == old(self).store.next_coin_id,
            final(self).store.next_currency_id == old(self).store.next_currency_id,
            final(self).store.next_trigger_id == old(self).store.next_trigger_id,
            r is Ok <==> has_coin_id(old(self).store.coins@, surrogate_id),
            r matches Err(e) ==> e == ClientError::UnknownReference && *final(self) == *old(self),
            final(self).store.coins@.len() == old(self).store.coins@.len(),
            forall|k: int|
                0 <= k < old(self).store.coins@.len() ==> #[trigger] final(self).store.coins@[k]
                    == (
                if old(self).store.coins@[k].surrogate_id == surrogate_id && r is Ok {
                    crate::store::with_coin_favourite(old(self).store.coins@[k], favourite)
                } else {
                    old(self).store.coins@[k]
                }),
    {
        self.store.update_coin_favourite(surrogate_id, favourite)
    }

    pub fn update_currency_favourite(&mut self, surrogate_id: u64, favourite: bool) -> (r: Result<
        (),
        ClientError,
    >)
        requires
            old(self).wf(),
        ensures
            final(self).wf(),
            final(self).coins_hydrated == old(self).coins_hydrated,
            final(self).currencies_hydrated == old(self).currencies_hydrated,
            final(self).store.coins@ == old(self).store.coins@,
            final(self).store.triggers@ == old(self).store.triggers@,
            final(self).store.next_coin_id == old(self).store.next_coin_id,
            final(self).store.next_currency_id == old(self).store.next_currency_id,
            final(self).store.next_trigger_id == old(self).store.next_trigger_id,
            r is Ok <==> has_currency_id(old(self).store.currencies@, surrogate_id),
            r matches Err(e) ==> e == ClientError::UnknownReference && *final(self) == *old(self),
            final(self).store.currencies@.len() == old(self).store.currencies@.len(),
            forall|k: int|
                0 <= k < old(self).store.currencies@.len() ==> #[trigger] final(self).store.currencies@[k] == (
                if old(self).store.currencies@[k].surrogate_id == surrogate_id && r is Ok {
                    crate::store::with_currency_favourite(old(self).store.currencies@[k], favourite)
                } else {
                    old(self).store.currencies@[k]
                }),
    {
        self.store.update_currency_favourite(surrogate_id, favourite)
    }
}

} // verus!
