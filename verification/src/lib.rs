//! KYB (Know-Your-Business) counterparty verification.
//!
//! An enterprise cannot sign a supplier without answering three questions:
//!   1. Is this legal entity real and currently active?      -> GLEIF Global LEI Index
//!   2. Is its VAT registration valid?                       -> EC VIES
//!   3. Can we file the onboarding record without leaking
//!      the contact person's personal data to our servers?   -> http-with-placeholders
//!
//! This crate holds the decisions: input validation, URL building, reading the
//! registries' answers, the scoring table and the onboarding body. The host
//! performs the calls each step asks for and hands the outcome back.
use vstd::prelude::*;

pub mod text;

pub mod common;
pub mod gleif;
pub mod http;
pub mod json;
pub mod kyb;
pub mod onboarding;
pub mod vies;

verus! {

/// Bumped on every registration: the node rejects a re-register at a version
/// that is not strictly higher than the deployed one.
pub const CONTRACT_VERSION: &'static str = "0.1.2";

} // verus!
