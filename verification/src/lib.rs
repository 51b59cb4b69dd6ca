//! A verified model of the mock runtime that drives the liquid-staking pallet's tests:
//! the genesis it builds, the way it steps blocks, sessions and eras forward, and the
//! democracy proposal it notes.

pub mod blocks;
pub mod codec;
pub mod democracy;
pub mod arith;
pub mod primitives;
pub mod ext_builder;
pub mod staking;
