//! Account data shapes.

use vstd::prelude::*;

verus! {

/// The details a new account is created with.
#[derive(Debug, Clone, PartialEq)]
pub struct CreateUser {
    pub username: String,
    pub password: String,
}

/// An account as the service reports it.
#[derive(Debug, Clone, PartialEq)]
pub struct User {
    pub id: String,
    pub username: String,
}

} // verus!
