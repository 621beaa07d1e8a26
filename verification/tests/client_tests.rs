use coin_monitor::client::{CachingClient, PriceEntry, lookup_price};
use coin_monitor::domain::{ClientError, TransportError};
use coin_monitor::store::LocalStore;

fn fresh_client() -> CachingClient {
    CachingClient::new(LocalStore::new())
}

fn names(list: &[&str]) -> Vec<String> {
    list.iter().map(|s| String::from(*s)).collect()
}

#[test]
fn first_coins_call_hydrates_with_favourite_false() {
    let mut client = fresh_client();
    let coins = client
        .coins(Some(Ok(names(&["bitcoin", "ethereum"]))))
        .unwrap();
    assert_eq!(coins.len(), 2);
    assert_eq!(coins[0].external_id, "bitcoin");
    assert_eq!(coins[1].external_id, "ethereum");
    assert!(coins.iter().all(|c| !c.favourite));
    assert!(client.coins_hydrated);
}

#[test]
fn second_coins_call_is_identical_and_fetch_free() {
    // Idempotent hydration: the first call absorbs the one fetch; the
    // second call passes no fetch, returns the same rows, and leaves
    // the store exactly as it was.
    let mut client = fresh_client();
    let first = client
        .coins(Some(Ok(names(&["bitcoin", "ethereum"]))))
        .unwrap();
    assert!(client.coins_hydrated);
    let store_before = client.store.all_coins();
    let second = client.coins(None).unwrap();
    assert_eq!(first, second);
    assert_eq!(client.store.all_coins(), store_before);
}

#[test]
fn repeated_list_has_no_duplicate_rows() {
    // Even a fetched list that repeats an identifier produces one row
    // per identifier.
    let mut client = fresh_client();
    let coins = client
        .coins(Some(Ok(names(&["bitcoin", "bitcoin", "ethereum"]))))
        .unwrap();
    assert_eq!(coins.len(), 2);
}

#[test]
fn failed_hydration_leaves_no_state() {
    let mut client = fresh_client();
    let r = client.coins(Some(Err(TransportError)));
    assert_eq!(r, Err(ClientError::UpstreamUnavailable));
    assert!(!client.coins_hydrated);
    assert!(client.store.all_coins().is_empty());
    // The next call may hydrate successfully.
    let coins = client.coins(Some(Ok(names(&["bitcoin"])))).unwrap();
    assert_eq!(coins.len(), 1);
}

#[test]
fn hydration_keeps_existing_rows_and_flags() {
    let mut store = LocalStore::new();
    let existing = store.upsert_coin(String::from("bitcoin"));
    store.update_coin_favourite(existing.surrogate_id, true).unwrap();
    let mut client = CachingClient::new(store);
    let coins = client
        .coins(Some(Ok(names(&["bitcoin", "ethereum"]))))
        .unwrap();
    assert_eq!(coins.len(), 2);
    assert_eq!(coins[0].surrogate_id, existing.surrogate_id);
    assert!(coins[0].favourite);
    assert!(!coins[1].favourite);
}

#[test]
fn favourite_coins_follow_the_flag() {
    // Favourite persistence: after the flag is set, the favourites
    // listing includes the coin; the full listing holds it either way.
    let mut client = fresh_client();
    client.coins(Some(Ok(names(&["bitcoin", "ethereum"])))).unwrap();
    let favs = client.favourite_coins(None).unwrap();
    assert!(favs.is_empty());
    client.update_coin_favourite(2, true).unwrap();
    let favs = client.favourite_coins(None).unwrap();
    assert_eq!(favs.len(), 1);
    assert_eq!(favs[0].external_id, "ethereum");
    let all = client.coins(None).unwrap();
    assert_eq!(all.len(), 2);
    assert!(all.iter().any(|c| c.external_id == "ethereum"));
}

#[test]
fn vs_currencies_hydrate_like_coins() {
    let mut client = fresh_client();
    let currencies = client
        .vs_currencies(Some(Ok(names(&["usd", "eur"]))))
        .unwrap();
    assert_eq!(currencies.len(), 2);
    assert_eq!(currencies[0].external_name, "usd");
    assert!(client.currencies_hydrated);
    assert!(!client.coins_hydrated);
    let again = client.vs_currencies(None).unwrap();
    assert_eq!(currencies, again);
}

#[test]
fn favourite_vs_currencies_follow_the_flag() {
    let mut client = fresh_client();
    client.vs_currencies(Some(Ok(names(&["usd", "eur"])))).unwrap();
    client.update_currency_favourite(1, true).unwrap();
    let favs = client.favourite_vs_currencies(None).unwrap();
    assert_eq!(favs.len(), 1);
    assert_eq!(favs[0].external_name, "usd");
}

fn quote(coin: &str, currency: &str, price: u64) -> PriceEntry {
    PriceEntry {
        coin: String::from(coin),
        currency: String::from(currency),
        price,
    }
}

#[test]
fn price_passes_a_complete_response_through() {
    let client = fresh_client();
    let response = vec![quote("bitcoin", "usd", 40_000), quote("bitcoin", "eur", 37_000)];
    let r = client
        .price(
            &names(&["bitcoin"]),
            &names(&["usd", "eur"]),
            Ok(response.clone()),
        )
        .unwrap();
    assert_eq!(r, response);
}

#[test]
fn price_rejects_a_missing_pair() {
    let client = fresh_client();
    let response = vec![quote("bitcoin", "usd", 40_000)];
    let r = client.price(&names(&["bitcoin"]), &names(&["usd", "eur"]), Ok(response));
    assert_eq!(r, Err(ClientError::UnknownKey));
}

#[test]
fn price_surfaces_transport_failure() {
    let client = fresh_client();
    let r = client.price(&names(&["bitcoin"]), &names(&["usd"]), Err(TransportError));
    assert_eq!(r, Err(ClientError::UpstreamUnavailable));
}

#[test]
fn lookup_price_returns_first_match() {
    let entries = vec![
        quote("bitcoin", "usd", 40_000),
        quote("bitcoin", "usd", 41_000),
        quote("ethereum", "usd", 2_500),
    ];
    assert_eq!(
        lookup_price(&entries, &String::from("bitcoin"), &String::from("usd")),
        Some(40_000)
    );
    assert_eq!(
        lookup_price(&entries, &String::from("ethereum"), &String::from("usd")),
        Some(2_500)
    );
    assert_eq!(
        lookup_price(&entries, &String::from("ethereum"), &String::from("eur")),
        None
    );
}

#[test]
fn add_trigger_validates_references() {
    let mut client = fresh_client();
    client.coins(Some(Ok(names(&["bitcoin"])))).unwrap();
    client.vs_currencies(Some(Ok(names(&["usd"])))).unwrap();
    let t = client.add_trigger(1, 1, 40_000, 50_000).unwrap();
    assert_eq!(t.surrogate_id, 1);
    assert_eq!(client.get_all_triggers(), vec![t]);
    assert_eq!(
        client.add_trigger(9, 1, 40_000, 50_000),
        Err(ClientError::UnknownReference)
    );
    assert_eq!(
        client.add_trigger(1, 9, 40_000, 50_000),
        Err(ClientError::UnknownReference)
    );
    assert_eq!(client.get_all_triggers().len(), 1);
}

#[test]
fn delete_trigger_is_idempotent() {
    // Deleting a trigger twice succeeds both times: the id may already
    // be gone because a concurrent sweep fired it.
    let mut client = fresh_client();
    client.coins(Some(Ok(names(&["bitcoin"])))).unwrap();
    client.vs_currencies(Some(Ok(names(&["usd"])))).unwrap();
    let t = client.add_trigger(1, 1, 100, 150).unwrap();
    assert_eq!(client.delete_trigger(t.surrogate_id), Ok(()));
    assert!(client.get_all_triggers().is_empty());
    assert_eq!(client.delete_trigger(t.surrogate_id), Ok(()));
    assert!(client.get_all_triggers().is_empty());
}
