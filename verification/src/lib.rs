//! Hanabi search: verified convention logic for standard five-suit Hanabi.
//!
//! The crate models cards, clues and actions as plain values and keeps the
//! H-Group convention rules, the convention-agnostic baseline policy and the
//! request-local analysis control in verified code.

pub mod cards;
pub mod h_group;
pub mod text;
pub mod convention;
pub mod control;
pub mod baseline;
pub mod future_card_quality;
pub mod evaluation;
pub mod analysis;
