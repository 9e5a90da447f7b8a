//! A multi-round "box auction" game.
//!
//! A game holds a fixed number of slots (boxes). Each box accumulates stakes
//! from participants backing a chosen asset label; within a box, the label
//! with the largest cumulative stake is the current leader. After a cooldown
//! with no change of leadership, the box's pooled stake is distributed to the
//! backers of the winning label in proportion to their contributions, and the
//! box resets for a new round.
//!
//! The library is the game's core: the per-box contribution ledger, the
//! leader-election rule, and the proportional settlement algorithm. Moving
//! value between participants and the custodial pool, and converting assets
//! through an exchange venue, are the host environment's business: the
//! operations here only compute which transfers are owed.

pub mod errors;
pub mod game;
pub mod laws;
pub mod ledger;
pub mod processor;
pub mod settlement;
pub mod swap;
