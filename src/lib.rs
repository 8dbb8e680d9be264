//! Perceptual photo fingerprints, similarity grouping, and signed object-storage URLs.

pub mod fingerprint;
pub mod grouping;
pub mod media;
pub mod signing;
pub mod text;
