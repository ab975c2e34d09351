//! Verified core of a fitness-tracking backend.
//!
//! The crate covers the parts of the service with algorithmic content:
//! password hashing and verification ([`password`]), session-token issuance
//! and validation ([`token`]), bearer-token request authorization
//! ([`guard`]), and the workout analytics that aggregate training volume
//! ([`analytics`]). Storage access and HTTP routing are left to the caller,
//! which hands plain data in and out of these modules.

pub mod analytics;
pub mod guard;
pub mod models;
pub mod password;
pub mod text;
pub mod token;
