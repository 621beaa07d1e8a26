//! The records the monitor works on: coins, quote currencies, price
//! triggers, and the error taxonomy shared by the store and the client.

use vstd::prelude::*;

verus! {

/// A cryptocurrency known to the store.
///
/// `surrogate_id` is assigned locally by the store, is unique and never
/// reused; `external_id` is the provider's unique string identifier;
/// `favourite` is the one mutable field.
#[derive(Debug, PartialEq, Eq)]
pub struct Coin {
    pub surrogate_id: u64,
    pub external_id: String,
    pub favourite: bool,
}

impl Clone for Coin {
    fn clone(&self) -> (res: Self)
        ensures
            res == *self,
    {
        Coin {
            surrogate_id: self.surrogate_id,
            external_id: self.external_id.clone(),
            favourite: self.favourite,
        }
    }
}

/// A quote currency known to the store; same shape and lifecycle as [`Coin`].
#[derive(Debug, PartialEq, Eq)]
pub struct VsCurrency {
    pub surrogate_id: u64,
    pub external_name: String,
    pub favourite: bool,
}

impl Clone for VsCurrency {
    fn clone(&self) -> (res: Self)
        ensures
            res == *self,
    {
        VsCurrency {
            surrogate_id: self.surrogate_id,
            external_name: self.external_name.clone(),
            favourite: self.favourite,
        }
    }
}

/// A stored price alert. Immutable after creation except for deletion.
///
/// `coin_ref` and `currency_ref` hold the surrogate ids of the coin and
/// currency the alert is about. Prices are in the provider's smallest
/// currency unit.
#[derive(Debug, Clone, Copy, PartialEq, Eq, Structural)]
pub struct Trigger {
    pub surrogate_id: u64,
    pub coin_ref: u64,
    pub currency_ref: u64,
    pub initial_price: u64,
    pub target_price: u64,
}

/// Which way a trigger watches the price move. Derived from the prices,
/// never stored: `Increase` exactly when the target lies above the
/// initial price.
#[derive(Debug, Clone, Copy, PartialEq, Eq, Structural)]
pub enum Direction {
    Increase,
    Decrease,
}

/// The direction a trigger with these prices watches.
pub open spec fn direction_of(initial_price: u64, target_price: u64) -> Direction {
    if target_price > initial_price {
        Direction::Increase
    } else {
        Direction::Decrease
    }
}

/// Failure of the remote provider: network, HTTP or payload parsing.
/// The transport itself lives outside this crate; its failures reach the
/// core only as values of this type.
#[derive(Debug, Clone, Copy, PartialEq, Eq, Structural)]
pub struct TransportError;

/// Errors surfaced by the caching client.
#[derive(Debug, Clone, Copy, PartialEq, Eq, Structural)]
pub enum ClientError {
    /// The one network fetch an operation needed failed.
    UpstreamUnavailable,
    /// A requested coin or currency key is absent from a price response.
    UnknownKey,
    /// A trigger operation referenced a surrogate id the store does not hold.
    UnknownReference,
    /// The persistence layer failed. The in-process store never raises it;
    /// a durable backing may.
    StoreError,
}

} // verus!
