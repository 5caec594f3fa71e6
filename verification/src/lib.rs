//! A multi-level feedback queue (MLFQ) CPU scheduler.
//!
//! Processes live in priority tiers (tier 0 is the highest). A dispatch runs
//! the most recently queued process of a tier for at most that tier's time
//! quantum, demotes unfinished work one tier down, and a periodic boost moves
//! everything back to tier 0 so nothing starves.

pub mod mlfq;
