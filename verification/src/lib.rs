//! Verified core of a Collatz (Syracuse) trajectory explorer.
//!
//! The crate exposes two pure operations: [`trajectory::generate_sequence`],
//! which produces the ordered Collatz trajectory of a seed, and
//! [`stats::calculate_stats`], which derives a summary record from a
//! trajectory. Both are total over their input domains; the only unusual
//! termination mode is the overflow guard in the generator, which a caller
//! observes by checking whether the last element equals 1.

pub mod stats;
pub mod trajectory;
