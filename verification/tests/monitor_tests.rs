use coin_monitor::client::CachingClient;
use coin_monitor::domain::{Direction, TransportError, Trigger};
use coin_monitor::monitor::{
    direction, evaluate_trigger, next_phase, run_sweep, should_fire, SweepPhase, TriggerOutcome,
};
use coin_monitor::store::LocalStore;

fn names(list: &[&str]) -> Vec<String> {
    list.iter().map(|s| String::from(*s)).collect()
}

/// A client over bitcoin/usd with one trigger per (initial, target) pair.
fn client_with_triggers(pairs: &[(u64, u64)]) -> CachingClient {
    let mut client = CachingClient::new(LocalStore::new());
    client.coins(Some(Ok(names(&["bitcoin"])))).unwrap();
    client.vs_currencies(Some(Ok(names(&["usd"])))).unwrap();
    for (initial, target) in pairs {
        client.add_trigger(1, 1, *initial, *target).unwrap();
    }
    client
}

#[test]
fn direction_is_increase_only_above_initial() {
    assert_eq!(direction(100, 150), Direction::Increase);
    assert_eq!(direction(100, 50), Direction::Decrease);
    // A target equal to the initial price watches downwards.
    assert_eq!(direction(100, 100), Direction::Decrease);
}

#[test]
fn should_fire_on_increase_needs_target_reached() {
    let t = Trigger { surrogate_id: 1, coin_ref: 1, currency_ref: 1, initial_price: 100, target_price: 150 };
    assert!(!should_fire(&t, 120));
    assert!(!should_fire(&t, 149));
    assert!(should_fire(&t, 150));
    assert!(should_fire(&t, 151));
}

#[test]
fn should_fire_on_decrease_needs_target_reached() {
    let t = Trigger { surrogate_id: 1, coin_ref: 1, currency_ref: 1, initial_price: 100, target_price: 50 };
    assert!(!should_fire(&t, 60));
    assert!(should_fire(&t, 50));
    assert!(should_fire(&t, 45));
}

#[test]
fn increase_trigger_fires_exactly_at_first_price_reaching_target() {
    // initial 100, target 150, live prices 120, 149, 150, 151: the
    // trigger fires at the first observation at or above 150, never
    // earlier, and is deleted when it fires.
    let mut client = client_with_triggers(&[(100, 150)]);
    for price in [120u64, 149] {
        let outcomes = run_sweep(&mut client, &vec![Ok(price)]);
        assert_eq!(outcomes, vec![TriggerOutcome::Retained]);
        assert_eq!(client.get_all_triggers().len(), 1);
    }
    let outcomes = run_sweep(&mut client, &vec![Ok(150)]);
    assert!(matches!(outcomes[0], TriggerOutcome::Fired(_)));
    assert!(client.get_all_triggers().is_empty());
    // The price moving on finds no trigger left.
    let outcomes = run_sweep(&mut client, &vec![]);
    assert!(outcomes.is_empty());
}

#[test]
fn decrease_trigger_fires_at_or_below_target() {
    let mut client = client_with_triggers(&[(100, 50)]);
    let outcomes = run_sweep(&mut client, &vec![Ok(60)]);
    assert_eq!(outcomes, vec![TriggerOutcome::Retained]);
    let outcomes = run_sweep(&mut client, &vec![Ok(50)]);
    assert!(matches!(outcomes[0], TriggerOutcome::Fired(_)));
    assert!(client.get_all_triggers().is_empty());
    // Recreated at the same prices, a later observation below the
    // target still fires.
    client.add_trigger(1, 1, 100, 50).unwrap();
    let outcomes = run_sweep(&mut client, &vec![Ok(45)]);
    assert!(matches!(outcomes[0], TriggerOutcome::Fired(_)));
}

#[test]
fn one_failing_price_fetch_never_touches_the_others() {
    // Sweep isolation: of three triggers the middle price fetch fails;
    // the first and third are still evaluated and fired, the middle one
    // is kept for the next sweep.
    let mut client = client_with_triggers(&[(100, 150), (100, 140), (100, 130)]);
    let prices = vec![Ok(150), Err(TransportError), Ok(150)];
    let outcomes = run_sweep(&mut client, &prices);
    assert!(matches!(outcomes[0], TriggerOutcome::Fired(_)));
    assert_eq!(outcomes[1], TriggerOutcome::PriceUnavailable);
    assert!(matches!(outcomes[2], TriggerOutcome::Fired(_)));
    let left = client.get_all_triggers();
    assert_eq!(left.len(), 1);
    assert_eq!(left[0].target_price, 140);
}

#[test]
fn fired_notification_carries_the_prices() {
    let mut client = client_with_triggers(&[(100, 150)]);
    let outcomes = run_sweep(&mut client, &vec![Ok(160)]);
    match &outcomes[0] {
        TriggerOutcome::Fired(n) => {
            assert_eq!(n.coin_external_id, "bitcoin");
            assert_eq!(n.currency_name, "usd");
            assert_eq!(n.initial_price, 100);
            assert_eq!(n.target_price, 150);
            assert_eq!(n.current_price, 160);
            assert_eq!(n.price_difference, 60);
        }
        other => panic!("expected a fired outcome, got {:?}", other),
    }
}

#[test]
fn falling_price_difference_is_absolute() {
    let mut client = client_with_triggers(&[(100, 50)]);
    let outcomes = run_sweep(&mut client, &vec![Ok(40)]);
    match &outcomes[0] {
        TriggerOutcome::Fired(n) => assert_eq!(n.price_difference, 60),
        other => panic!("expected a fired outcome, got {:?}", other),
    }
}

#[test]
fn dangling_references_are_skipped_not_fatal() {
    let coins = Vec::new();
    let currencies = Vec::new();
    let t = Trigger { surrogate_id: 1, coin_ref: 1, currency_ref: 1, initial_price: 100, target_price: 150 };
    let outcome = evaluate_trigger(&coins, &currencies, &t, Ok(200));
    assert_eq!(outcome, TriggerOutcome::MissingReference);
}

#[test]
fn sweep_phases_cycle_and_reset_on_failure() {
    let mut phase = SweepPhase::Idle;
    phase = next_phase(phase, false);
    assert_eq!(phase, SweepPhase::FetchingReferenceData);
    phase = next_phase(phase, false);
    assert_eq!(phase, SweepPhase::FetchingTriggers);
    phase = next_phase(phase, false);
    assert_eq!(phase, SweepPhase::EvaluatingPrices);
    phase = next_phase(phase, false);
    assert_eq!(phase, SweepPhase::Idle);
    // A failure anywhere abandons the sweep until the next interval.
    assert_eq!(
        next_phase(SweepPhase::FetchingTriggers, true),
        SweepPhase::Idle
    );
}
