//! The trigger monitor: the decision core of the periodic sweep that
//! turns stored triggers into notifications.
//!
//! A sweep loads the coin and currency snapshot and the trigger list,
//! fetches the live price of each trigger's pair, and evaluates every
//! trigger in isolation: a trigger whose references do not resolve or
//! whose price fetch failed is skipped for this sweep only, and one that
//! fired is deleted after its notification is produced. The surrounding
//! program performs the fetches, shows the notifications and sleeps
//! between sweeps; everything it needs to decide is here, verified.

use vstd::prelude::*;

use crate::domain::{Coin, VsCurrency, Trigger, Direction, TransportError, direction_of};
use crate::client::CachingClient;
use crate::store::{
    without_trigger, lemma_without_trigger_concat, lemma_without_trigger_absent,
};

verus! {

/// What one sweep decided for one trigger.
#[derive(Debug, PartialEq, Eq)]
pub enum TriggerOutcome {
    /// The trigger references a coin or currency the snapshot does not
    /// hold; it is skipped, never deleted.
    MissingReference,
    /// The live price fetch for this pair failed; the trigger waits for
    /// the next sweep.
    PriceUnavailable,
    /// The live price did not satisfy the condition; the trigger stays.
    Retained,
    /// The condition is satisfied: this notification goes out and the
    /// trigger is deleted.
    Fired(Notification),
}

/// The content of a fired alert.
#[derive(Debug, PartialEq, Eq)]
pub struct Notification {
    pub coin_external_id: String,
    pub currency_name: String,
    pub initial_price: u64,
    pub target_price: u64,
    pub current_price: u64,
    /// How far the live price stands from the price at creation time.
    pub price_difference: u64,
}

pub open spec fn abs_difference(a: u64, b: u64) -> u64 {
    if a >= b {
        (a - b) as u64
    } else {
        (b - a) as u64
    }
}

/// A trigger fires on a live price exactly when the price reached the
/// target from the watched side: at or above the target for an
/// increase, at or below for a decrease.
pub open spec fn spec_fires(t: Trigger, live_price: u64) -> bool {
    ||| direction_of(t.initial_price, t.target_price) is Increase && live_price >= t.target_price
    ||| direction_of(t.initial_price, t.target_price) is Decrease && live_price <= t.target_price
}

/// The first row of the snapshot holding this surrogate id.
pub open spec fn find_coin(coins: Seq<Coin>, surrogate_id: u64) -> Option<Coin>
    decreases coins.len(),
{
    if coins.len() == 0 {
        None
    } else if coins[0].surrogate_id == surrogate_id {
        Some(coins[0])
    } else {
        find_coin(coins.drop_first(), surrogate_id)
    }
}

pub open spec fn find_currency(
    currencies: Seq<VsCurrency>,
    surrogate_id: u64,
) -> Option<VsCurrency>
    decreases currencies.len(),
{
    if currencies.len() == 0 {
        None
    } else if currencies[0].surrogate_id == surrogate_id {
        Some(currencies[0])
    } else {
        find_currency(currencies.drop_first(), surrogate_id)
    }
}

pub open spec fn spec_notification(
    coin: Coin,
    currency: VsCurrency,
    t: Trigger,
    live_price: u64,
) -> Notification {
    Notification {
        coin_external_id: coin.external_id,
        currency_name: currency.external_name,
        initial_price: t.initial_price,
        target_price: t.target_price,
        current_price: live_price,
        price_difference: abs_difference(live_price, t.initial_price),
    }
}

/// The sweep's verdict for one trigger, given the snapshot and the
/// outcome of this pair's price fetch. It depends on nothing else, so
/// one failing pair never touches the verdict of another trigger.
pub open spec fn spec_outcome(
    coins: Seq<Coin>,
    currencies: Seq<VsCurrency>,
    t: Trigger,
    live_price: Result<u64, TransportError>,
) -> TriggerOutcome {
    match (find_coin(coins, t.coin_ref), find_currency(currencies, t.currency_ref)) {
        (Some(coin), Some(currency)) => match live_price {
            Result::Ok(p) => if spec_fires(t, p) {
                TriggerOutcome::Fired(spec_notification(coin, currency, t, p))
            } else {
                TriggerOutcome::Retained
            },
            Result::Err(_) => TriggerOutcome::PriceUnavailable,
        },
        _ => TriggerOutcome::MissingReference,
    }
}

/// The triggers a sweep leaves in the store: exactly those whose
/// verdict is not `Fired`, in their stored order.
pub open spec fn surviving_triggers(
    coins: Seq<Coin>,
    currencies: Seq<VsCurrency>,
    triggers: Seq<Trigger>,
    prices: Seq<Result<u64, TransportError>>,
) -> Seq<Trigger>
    recommends
        prices.len() == triggers.len(),
    decreases triggers.len(),
{
    if triggers.len() == 0 {
        Seq::empty()
    } else {
        let rest = surviving_triggers(coins, currencies, triggers.drop_last(), prices.drop_last());
        if spec_outcome(coins, currencies, triggers.last(), prices.last()) is Fired {
            rest
        } else {
            rest.push(triggers.last())
        }
    }
}

/// Every surviving trigger is one of the swept triggers.
pub proof fn lemma_surviving_elements(
    coins: Seq<Coin>,
    currencies: Seq<VsCurrency>,
    triggers: Seq<Trigger>,
    prices: Seq<Result<u64, TransportError>>,
)
    ensures
        forall|k: int|
            0 <= k < surviving_triggers(coins, currencies, triggers, prices).len()
                ==> triggers.contains(
                #[trigger] surviving_triggers(coins, currencies, triggers, prices)[k],
            ),
    decreases triggers.len(),
{
    if triggers.len() > 0 {
        lemma_surviving_elements(coins, currencies, triggers.drop_last(), prices.drop_last());
        let rest = surviving_triggers(coins, currencies, triggers.drop_last(), prices.drop_last());
        let whole = surviving_triggers(coins, currencies, triggers, prices);
        assert forall|k: int| 0 <= k < whole.len() implies triggers.contains(
            #[trigger] whole[k],
        ) by {
            if k < rest.len() {
                let j = choose|j: int|
                    0 <= j < triggers.drop_last().len() && triggers.drop_last()[j] == rest[k];
                assert(triggers[j] == whole[k]);
            } else {
                assert(whole[k] == triggers.last());
                assert(triggers[triggers.len() - 1] == whole[k]);
            }
        }
    }
}

/// The direction a trigger with these prices watches: `Increase`
/// exactly when the target lies above the initial price.
pub fn direction(initial_price: u64, target_price: u64) -> (r: Direction)
    ensures
        r == direction_of(initial_price, target_price),
{
    if target_price > initial_price {
        Direction::Increase
    } else {
        Direction::Decrease
    }
}

/// Whether a live price satisfies the trigger's condition.
pub fn should_fire(t: &Trigger, live_price: u64) -> (r: bool)
    ensures
        r == spec_fires(*t, live_price),
{
    match direction(t.initial_price, t.target_price) {
        Direction::Increase => live_price >= t.target_price,
        Direction::Decrease => live_price <= t.target_price,
    }
}

/// The first snapshot row holding this surrogate id, if any.
pub fn resolve_coin(coins: &Vec<Coin>, surrogate_id: u64) -> (r: Option<Coin>)
    ensures
        r == find_coin(coins@, surrogate_id),
{
    proof {
        assert(coins@.subrange(0, coins@.len() as int) =~= coins@);
    }
    let mut i: usize = 0;
    while i < coins.len()
        invariant
            i <= coins@.len(),
            find_coin(coins@, surrogate_id) == find_coin(
                coins@.subrange(i as int, coins@.len() as int),
                surrogate_id,
            ),
        decreases coins@.len() - i,
    {
        let ghost before = coins@.subrange(i as int, coins@.len() as int);
        if coins[i].surrogate_id == surrogate_id {
            proof {
                assert(before[0] == coins@[i as int]);
            }
            return Some(coins[i].clone());
        }
        proof {
            assert(before.drop_first() =~= coins@.subrange(i as int + 1, coins@.len() as int));
        }
        i = i + 1;
    }
    None
}

pub fn resolve_currency(currencies: &Vec<VsCurrency>, surrogate_id: u64) -> (r: Option<
    VsCurrency,
>)
    ensures
        r == find_currency(currencies@, surrogate_id),
{
    proof {
        assert(currencies@.subrange(0, currencies@.len() as int) =~= currencies@);
    }
    let mut i: usize = 0;
    while i < currencies.len()
        invariant
            i <= currencies@.len(),
            find_currency(currencies@, surrogate_id) == find_currency(
                currencies@.subrange(i as int, currencies@.len() as int),
                surrogate_id,
            ),
        decreases currencies@.len() - i,
    {
        let ghost before = currencies@.subrange(i as int, currencies@.len() as int);
        if currencies[i].surrogate_id == surrogate_id {
            proof {
                assert(before[0] == currencies@[i as int]);
            }
            return Some(currencies[i].clone());
        }
        proof {
            assert(before.drop_first() =~= currencies@.subrange(
                i as int + 1,
                currencies@.len() as int,
            ));
        }
        i = i + 1;
    }
    None
}

/// One trigger's verdict for this sweep. Reads only the snapshot rows
/// the trigger references and the price handed in.
pub fn evaluate_trigger(
    coins: &Vec<Coin>,
    currencies: &Vec<VsCurrency>,
    t: &Trigger,
    live_price: Result<u64, TransportError>,
) -> (r: TriggerOutcome)
    ensures
        r == spec_outcome(coins@, currencies@, *t, live_price),
{
    let coin = match resolve_coin(coins, t.coin_ref) {
        Some(c) => c,
        None => {
            return TriggerOutcome::MissingReference;
        },
    };
    let currency = match resolve_currency(currencies, t.currency_ref) {
        Some(c) => c,
        None => {
            return TriggerOutcome::MissingReference;
        },
    };
    match live_price {
        Err(_) => TriggerOutcome::PriceUnavailable,
        Ok(p) => {
            if should_fire(t, p) {
                let difference = if p >= t.initial_price {
                    p - t.initial_price
                } else {
                    t.initial_price - p
                };
                TriggerOutcome::Fired(
                    Notification {
                        coin_external_id: coin.external_id,
                        currency_name: currency.external_name,
                        initial_price: t.initial_price,
                        target_price: t.target_price,
                        current_price: p,
                        price_difference: difference,
                    },
                )
            } else {
                TriggerOutcome::Retained
            }
        },
    }
}

/// One full sweep over the store, given the price fetch outcome for
/// each stored trigger, in trigger order.
///
/// Each trigger's verdict depends only on its own row and its own
/// price result, so a transport failure for one pair never disturbs
/// the others. Fired triggers — and only those — are deleted.
pub fn run_sweep(
    client: &mut CachingClient,
    prices: &Vec<Result<u64, TransportError>>,
) -> (outcomes: Vec<TriggerOutcome>)
    requires
        old(client).wf(),
        prices@.len() == old(client).store.triggers@.len(),
    ensures
        final(client).wf(),
        final(client).coins_hydrated == old(client).coins_hydrated,
        final(client).currencies_hydrated == old(client).currencies_hydrated,
        final(client).store.coins@ == old(client).store.coins@,
        final(client).store.currencies@ == old(client).store.currencies@,
        final(client).store.next_coin_id == old(client).store.next_coin_id,
        final(client).store.next_currency_id == old(client).store.next_currency_id,
        final(client).store.next_trigger_id == old(client).store.next_trigger_id,
        outcomes@.len() == old(client).store.triggers@.len(),
        forall|k: int|
            0 <= k < outcomes@.len() ==> #[trigger] outcomes@[k] == spec_outcome(
                old(client).store.coins@,
                old(client).store.currencies@,
                old(client).store.triggers@[k],
                prices@[k],
            ),
        final(client).store.triggers@ == surviving_triggers(
            old(client).store.coins@,
            old(client).store.currencies@,
            old(client).store.triggers@,
            prices@,
        ),
{
    let triggers = client.get_all_triggers();
    let coins = client.store.all_coins();
    let currencies = client.store.all_currencies();
    let mut outcomes: Vec<TriggerOutcome> = Vec::new();
    let mut i: usize = 0;
    proof {
        assert(triggers@.subrange(0, 0) =~= Seq::<Trigger>::empty());
        assert(prices@.subrange(0, 0) =~= Seq::<Result<u64, TransportError>>::empty());
        assert(triggers@.subrange(0, triggers@.len() as int) =~= triggers@);
        assert(Seq::<Trigger>::empty() + triggers@ =~= triggers@);
    }
    while i < triggers.len()
        invariant
            i <= triggers@.len(),
            old(client).wf(),
            triggers@ == old(client).store.triggers@,
            coins@ == old(client).store.coins@,
            currencies@ == old(client).store.currencies@,
            prices@.len() == triggers@.len(),
            client.wf(),
            client.coins_hydrated == old(client).coins_hydrated,
            client.currencies_hydrated == old(client).currencies_hydrated,
            client.store.coins@ == old(client).store.coins@,
            client.store.currencies@ == old(client).store.currencies@,
            client.store.next_coin_id == old(client).store.next_coin_id,
            client.store.next_currency_id == old(client).store.next_currency_id,
            client.store.next_trigger_id == old(client).store.next_trigger_id,
            outcomes@.len() == i,
            forall|k: int|
                0 <= k < i ==> #[trigger] outcomes@[k] == spec_outcome(
                    coins@,
                    currencies@,
                    triggers@[k],
                    prices@[k],
                ),
            client.store.triggers@ == surviving_triggers(
                coins@,
                currencies@,
                triggers@.subrange(0, i as int),
                prices@.subrange(0, i as int),
            ) + triggers@.subrange(i as int, triggers@.len() as int),
        decreases triggers@.len() - i,
    {
        let ghost survivors = surviving_triggers(
            coins@,
            currencies@,
            triggers@.subrange(0, i as int),
            prices@.subrange(0, i as int),
        );
        let ghost pending = triggers@.subrange(i as int, triggers@.len() as int);
        let outcome = evaluate_trigger(&coins, &currencies, &triggers[i], prices[i]);
        let fired = matches!(outcome, TriggerOutcome::Fired(_));
        if fired {
            let _ = client.delete_trigger(triggers[i].surrogate_id);
            proof {
                let t = triggers@[i as int];
                assert(client.store.triggers@ == without_trigger(
                    survivors + pending,
                    t.surrogate_id,
                ));
                lemma_without_trigger_concat(survivors, pending, t.surrogate_id);
                lemma_surviving_elements(
                    coins@,
                    currencies@,
                    triggers@.subrange(0, i as int),
                    prices@.subrange(0, i as int),
                );
                assert forall|k: int| 0 <= k < survivors.len() implies #[trigger] survivors[k].surrogate_id != t.surrogate_id by {
                    assert(surviving_triggers(
                        coins@,
                        currencies@,
                        triggers@.subrange(0, i as int),
                        prices@.subrange(0, i as int),
                    )[k] == survivors[k]);
                    assert(triggers@.subrange(0, i as int).contains(survivors[k]));
                    let j = choose|j: int|
                        0 <= j < triggers@.subrange(0, i as int).len() && triggers@.subrange(
                            0,
                            i as int,
                        )[j] == survivors[k];
                    assert(triggers@[j].surrogate_id != triggers@[i as int].surrogate_id);
                }
                lemma_without_trigger_absent(survivors, t.surrogate_id);
                let after = triggers@.subrange(i as int + 1, triggers@.len() as int);
                assert(pending =~= seq![t] + after);
                lemma_without_trigger_concat(seq![t], after, t.surrogate_id);
                assert(without_trigger(Seq::<Trigger>::empty(), t.surrogate_id)
                    == Seq::<Trigger>::empty());
                assert(seq![t].drop_last() =~= Seq::<Trigger>::empty());
                assert(seq![t].last() == t);
                assert(without_trigger(seq![t], t.surrogate_id) == Seq::<Trigger>::empty());
                assert forall|k: int| 0 <= k < after.len() implies #[trigger] after[k].surrogate_id != t.surrogate_id by {
                    assert(after[k] == triggers@[k + i + 1]);
                    assert(triggers@[i as int].surrogate_id != triggers@[k + i + 1].surrogate_id);
                }
                lemma_without_trigger_absent(after, t.surrogate_id);
                assert(Seq::<Trigger>::empty() + after =~= after);
                assert(client.store.triggers@ =~= survivors + after);
            }
        }
        outcomes.push(outcome);
        i = i + 1;
        proof {
            let t = triggers@[i as int - 1];
            let sub_t = triggers@.subrange(0, i as int);
            let sub_p = prices@.subrange(0, i as int);
            assert(sub_t.drop_last() =~= triggers@.subrange(0, i as int - 1));
            assert(sub_p.drop_last() =~= prices@.subrange(0, i as int - 1));
            assert(sub_t.last() == t);
            assert(sub_p.last() == prices@[i as int - 1]);
            if !(spec_outcome(coins@, currencies@, t, prices@[i as int - 1]) is Fired) {
                assert(survivors + pending =~= survivors.push(t) + triggers@.subrange(
                    i as int,
                    triggers@.len() as int,
                ));
            }
        }
    }
    proof {
        assert(triggers@.subrange(0, triggers@.len() as int) =~= triggers@);
        assert(prices@.subrange(0, prices@.len() as int) =~= prices@);
        assert(triggers@.subrange(triggers@.len() as int, triggers@.len() as int)
            =~= Seq::<Trigger>::empty());
        assert(client.store.triggers@ =~= surviving_triggers(coins@, currencies@, triggers@, prices@));
    }
    outcomes
}

/// The phases one sweep walks through; the monitor sits in `Idle`
/// between sweeps.
#[derive(Debug, Clone, Copy, PartialEq, Eq, Structural)]
pub enum SweepPhase {
    Idle,
    FetchingReferenceData,
    FetchingTriggers,
    EvaluatingPrices,
}

pub open spec fn spec_next_phase(phase: SweepPhase, step_failed: bool) -> SweepPhase {
    if step_failed {
        SweepPhase::Idle
    } else {
        match phase {
            SweepPhase::Idle => SweepPhase::FetchingReferenceData,
            SweepPhase::FetchingReferenceData => SweepPhase::FetchingTriggers,
            SweepPhase::FetchingTriggers => SweepPhase::EvaluatingPrices,
            SweepPhase::EvaluatingPrices => SweepPhase::Idle,
        }
    }
}

/// Advance the sweep state machine: a failed step abandons the current
/// sweep and returns to `Idle` until the next interval; the loop itself
/// never terminates on a failure.
pub fn next_phase(phase: SweepPhase, step_failed: bool) -> (r: SweepPhase)
    ensures
        r == spec_next_phase(phase, step_failed),
{
    if step_failed {
        SweepPhase::Idle
    } else {
        match phase {
            SweepPhase::Idle => SweepPhase::FetchingReferenceData,
            SweepPhase::FetchingReferenceData => SweepPhase::FetchingTriggers,
            SweepPhase::FetchingTriggers => SweepPhase::EvaluatingPrices,
            SweepPhase::EvaluatingPrices => SweepPhase::Idle,
        }
    }
}

} // verus!
