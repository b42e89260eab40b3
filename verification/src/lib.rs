//! A discrete-time simulation of a herd of herbivores and the single predator
//! that lives off it.
//!
//! Each day every organism grows a day older, may fall sick or die, and may
//! have offspring; then the predator hunts the heaviest prey that is old
//! enough, and the day ends with the predator's books: what the hunt left
//! open of its daily minimum comes from its reserve, or it falls sick.
//!
//! All quantities are integers: weights and energy in grams, ages in days,
//! probabilities in parts per million.
//!
//! - `growth`: the growth curve of the prey, in fixed-point arithmetic.
//! - `chance`: the random source and the draws made from it.
//! - `organism`: the members of the herd, `organism::prey`, and the hunter,
//!   `organism::predator`.
//! - `sim`: the day as a function of state and draws, and the simulation
//!   that runs it.
//! - `error`: the configurations that are refused.

pub mod chance;
pub mod error;
pub mod growth;
pub mod organism;
pub mod sim;
