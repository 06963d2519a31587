//! Verified rules and calculations behind a small set of holiday puzzle services.
//!
//! The heart of the crate is a pair of password checks over one text:
//!
//! - [`basic`]: three unconditional rules, answered by `nice` or `naughty`;
//! - [`game`]: nine rules tried in a fixed order, the first failure deciding the
//!   reason and the status signal of the verdict.
//!
//! Both work on a text whose characters have been classified ([`glyph`]); the
//! single rules live in [`classes`], [`digits`], [`joy`], [`patterns`] and
//! [`digest`].
//!
//! Around them stand the calculations of the other services: [`sled`],
//! [`reindeer`], [`paging`], [`elves`], [`recipe`] and [`pantry`], [`pixels`],
//! [`ulids`] and [`clock`], [`html`], with [`decimal`] to write numbers out.
//!
//! Nothing here reads a request or the clock: callers hand in plain values.

pub mod basic;
pub mod classes;
pub mod clock;
pub mod decimal;
pub mod digest;
pub mod digits;
pub mod elves;
pub mod game;
pub mod glyph;
pub mod html;
pub mod joy;
pub mod outcome;
pub mod pantry;
pub mod paging;
pub mod patterns;
pub mod pixels;
pub mod recipe;
pub mod reindeer;
pub mod sled;
pub mod ulids;
