use coin_monitor::domain::ClientError;
use coin_monitor::store::LocalStore;

#[test]
fn upsert_inserts_new_coin() {
    let mut store = LocalStore::new();
    let coin = store.upsert_coin(String::from("bitcoin"));
    assert_eq!(coin.surrogate_id, 1);
    assert_eq!(coin.external_id, "bitcoin");
    assert!(!coin.favourite);
    assert_eq!(store.all_coins().len(), 1);
}

#[test]
fn upsert_existing_coin_keeps_row() {
    let mut store = LocalStore::new();
    let first = store.upsert_coin(String::from("bitcoin"));
    store
        .update_coin_favourite(first.surrogate_id, true)
        .unwrap();
    let again = store.upsert_coin(String::from("bitcoin"));
    assert_eq!(again.surrogate_id, first.surrogate_id);
    assert!(again.favourite);
    assert_eq!(store.all_coins().len(), 1);
}

#[test]
fn surrogate_ids_are_sequential_and_unique() {
    let mut store = LocalStore::new();
    let a = store.upsert_coin(String::from("bitcoin"));
    let b = store.upsert_coin(String::from("ethereum"));
    let c = store.upsert_coin(String::from("dogecoin"));
    assert_eq!((a.surrogate_id, b.surrogate_id, c.surrogate_id), (1, 2, 3));
}

#[test]
fn find_coin_by_external_id_works() {
    let mut store = LocalStore::new();
    store.upsert_coin(String::from("bitcoin"));
    store.upsert_coin(String::from("ethereum"));
    let found = store.find_coin_by_external_id(&String::from("ethereum")).unwrap();
    assert_eq!(found.surrogate_id, 2);
    assert!(store.find_coin_by_external_id(&String::from("tether")).is_none());
}

#[test]
fn find_coin_by_id_works() {
    let mut store = LocalStore::new();
    store.upsert_coin(String::from("bitcoin"));
    let found = store.find_coin_by_id(1).unwrap();
    assert_eq!(found.external_id, "bitcoin");
    assert!(store.find_coin_by_id(9).is_none());
}

#[test]
fn update_coin_favourite_unknown_id_errors() {
    let mut store = LocalStore::new();
    assert_eq!(
        store.update_coin_favourite(5, true),
        Err(ClientError::UnknownReference)
    );
}

#[test]
fn currencies_have_their_own_ids() {
    let mut store = LocalStore::new();
    store.upsert_coin(String::from("bitcoin"));
    let usd = store.upsert_currency(String::from("usd"));
    assert_eq!(usd.surrogate_id, 1);
    assert_eq!(usd.external_name, "usd");
    let found = store.find_currency_by_external_name(&String::from("usd")).unwrap();
    assert_eq!(found.surrogate_id, 1);
    assert!(store.find_currency_by_id(2).is_none());
    store.update_currency_favourite(1, true).unwrap();
    assert!(store.all_currencies()[0].favourite);
}

#[test]
fn insert_trigger_assigns_id() {
    let mut store = LocalStore::new();
    store.upsert_coin(String::from("bitcoin"));
    store.upsert_currency(String::from("usd"));
    let t = store.insert_trigger(1, 1, 100, 150).unwrap();
    assert_eq!(t.surrogate_id, 1);
    assert_eq!(t.coin_ref, 1);
    assert_eq!(t.currency_ref, 1);
    assert_eq!(t.initial_price, 100);
    assert_eq!(t.target_price, 150);
    assert_eq!(store.all_triggers(), vec![t]);
}

#[test]
fn insert_trigger_rejects_unknown_coin() {
    let mut store = LocalStore::new();
    store.upsert_currency(String::from("usd"));
    assert_eq!(
        store.insert_trigger(7, 1, 100, 150),
        Err(ClientError::UnknownReference)
    );
    assert!(store.all_triggers().is_empty());
}

#[test]
fn insert_trigger_rejects_unknown_currency() {
    let mut store = LocalStore::new();
    store.upsert_coin(String::from("bitcoin"));
    assert_eq!(
        store.insert_trigger(1, 7, 100, 150),
        Err(ClientError::UnknownReference)
    );
}

#[test]
fn trigger_ids_are_not_reused_after_delete() {
    let mut store = LocalStore::new();
    store.upsert_coin(String::from("bitcoin"));
    store.upsert_currency(String::from("usd"));
    let a = store.insert_trigger(1, 1, 100, 150).unwrap();
    store.delete_trigger_by_id(a.surrogate_id);
    let b = store.insert_trigger(1, 1, 100, 200).unwrap();
    assert_eq!(b.surrogate_id, 2);
}

#[test]
fn delete_trigger_removes_only_that_row() {
    let mut store = LocalStore::new();
    store.upsert_coin(String::from("bitcoin"));
    store.upsert_currency(String::from("usd"));
    let a = store.insert_trigger(1, 1, 100, 150).unwrap();
    let b = store.insert_trigger(1, 1, 100, 200).unwrap();
    store.delete_trigger_by_id(a.surrogate_id);
    assert_eq!(store.all_triggers(), vec![b]);
}
