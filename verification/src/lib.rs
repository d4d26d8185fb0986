//! A small storefront core: cookie-session authentication, a shared
//! shopping cart, and a payment calculation engine, with the surrounding
//! error taxonomy, catalog lookup and request-gating decisions.
//!
//! Amounts are integers in currency minor units (cents) throughout.

pub mod cart;
pub mod catalog;
pub mod checkout;
pub mod email;
pub mod errors;
pub mod gate;
pub mod ids;
pub mod money;
pub mod payment;
pub mod sessions;
pub mod strings;
