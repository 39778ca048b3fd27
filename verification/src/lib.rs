//! Core key-event pipeline of a two-half (split) keyboard controller.
//!
//! One half scans its own key matrix into a bit-packed word
//! ([`bitset`]), frames that word into five bytes for a serial link
//! ([`codec`]), and the other half reassembles the frames
//! ([`receiver`]), merges both matrices, resolves each half's active
//! layer from a fixed layout ([`layout`]), suppresses ghost presses
//! across layer changes, and fills two bounded report buffers
//! ([`fixed_vec`]) for the host ([`report`]).

pub mod bitset;
pub mod codec;
pub mod fixed_vec;
pub mod layout;
pub mod receiver;
pub mod report;
