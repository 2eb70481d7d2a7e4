//! Shared-memory substrate for a multi-process market-data pipeline.
//!
//! Five cooperating primitives live on fixed-size memory-mapped segments: a
//! split seq/data price store guarded by a sequence-counter protocol, a
//! per-source update bitmap, a single-producer/single-consumer event ring
//! buffer, a health table, and a control store. Every segment has a fixed
//! binary layout shared bit-for-bit across the processes that map it.
//!
//! Each contract describes a handle's own view of its mapping. What happens
//! under concurrent mapping is governed by the deployment roles the
//! protocols are built for — one writer per price slot, one producer and
//! one consumer per ring, one owner per health slot — which the operations
//! document but no data structure can enforce.

pub mod region;
pub mod bytes;
pub mod types;
pub mod control;
pub mod bitmap;
pub mod health;
pub mod ring_buffer;
pub mod seqlock;
pub mod price_store;
pub mod directions;
pub mod config;
pub mod discovery;
