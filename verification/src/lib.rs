//! Verified core of a meditation timer.
//!
//! During a session the timer rings five bells at times that cannot be
//! foreseen. [`rsg`] generates those times, drawing from a [`random`]
//! source; [`home`] and [`settings`] hold the rules of the timer's pages;
//! [`db`] reads back what the timer has stored, with the help of [`text`];
//! [`volume`] names the volumes of the bells.

pub mod db;
pub mod home;
pub mod random;
pub mod rsg;
pub mod settings;
pub mod text;
pub mod volume;
