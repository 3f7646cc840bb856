//! A stake-based guessing game over a fixed grid of slots, half of which are
//! secretly bombs. Players pay to claim slots; once a board is full the
//! creator reveals the bomb layout (bound in advance by a SHA-256 commitment)
//! and the prize pot is distributed among players and the creator.

pub mod board;
pub mod errors;
pub mod game;
pub mod hashing;
pub mod payout;
pub mod settle;
pub mod rng;
pub mod units;
