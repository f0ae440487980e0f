//! Pantry data shapes: storage locations and stored items, with the
//! expiry logic. Instants are unix seconds.

use vstd::prelude::*;

verus! {

/// A storage location.
#[derive(Debug, Clone, PartialEq)]
pub struct Location {
    pub id: String,
    pub name: String,
    pub owner_id: String,
}

/// The details a new location is created with.
#[derive(Debug, Default, Clone, PartialEq)]
pub struct CreateLocation {
    pub name: String,
}

/// An item stored in a location. The expiry, when there is one, is an
/// instant in unix seconds.
#[derive(Debug, Clone, PartialEq)]
pub struct Item {
    pub id: String,
    pub name: String,
    pub location_id: String,
    pub quantity: isize,
    pub notes: Option<String>,
    pub expiry: Option<i64>,
    pub labels: Vec<String>,
}

/// The instant `days` days past `now`, saturating to `now` itself when the
/// sum leaves the representable range — the fallback an overflowing
/// calendar addition takes.
pub open spec fn offset_instant(now: i64, days: u64) -> int {
    if now + days * 86400 <= i64::MAX {
        now + days * 86400
    } else {
        now as int
    }
}

/// Relies on chrono::Utc::now for the current time, read as unix seconds.
#[verifier::external_body]
fn now_unix() -> i64 {
    chrono::Utc::now().timestamp()
}

impl Item {
    /// Is the item expired at the instant `now`? An item without an expiry
    /// never expires.
    pub fn is_expired_at(&self, now: i64) -> (r: bool)
        ensures
            r == match self.expiry {
                Some(v) => now >= v,
                None => false,
            },
    {
        match self.expiry {
            Some(v) => now >= v,
            None => false,
        }
    }

    /// Is the item expired now? Whatever instant the clock reports, an
    /// item without an expiry is not.
    pub fn is_expired(&self) -> (r: bool)
        ensures
            self.expiry is None ==> !r,
    {
        let now = now_unix();
        self.is_expired_at(now)
    }

    /// Is the item expired within `days` days of the instant `now`?
    pub fn is_expired_with_offset_at(&self, now: i64, days: u64) -> (r: bool)
        ensures
            r == match self.expiry {
                Some(v) => offset_instant(now, days) >= v,
                None => false,
            },
    {
        match self.expiry {
            Some(v) => {
                let sum: i128 = (now as i128) + (days as i128) * 86400;
                let effective: i64 = if sum > i64::MAX as i128 {
                    now
                } else {
                    sum as i64
                };
                assert(effective == offset_instant(now, days));
                effective >= v
            },
            None => false,
        }
    }

    /// Is the item expired within `days` days of now? Whatever instant the
    /// clock reports, an item without an expiry is not.
    pub fn is_expired_with_offset(&self, days: u64) -> (r: bool)
        ensures
            self.expiry is None ==> !r,
    {
        let now = now_unix();
        self.is_expired_with_offset_at(now, days)
    }
}

/// The details a new item is created with.
#[derive(Debug, Default, Clone, PartialEq)]
pub struct CreateItem {
    pub name: String,
    pub quantity: isize,
    pub notes: Option<String>,
    pub expiry: Option<i64>,
    pub labels: Vec<String>,
}

pub type UpdateLocation = CreateLocation;

/// The details an item is updated with.
#[derive(Debug, Default, Clone, PartialEq)]
pub struct UpdateItem {
    pub name: String,
    pub location_id: String,
    pub quantity: isize,
    pub notes: Option<String>,
    pub expiry: Option<i64>,
    pub labels: Vec<String>,
}

} // verus!
