//! The decision core of JoyClicks: a gamepad (left hand) and a mouse (right hand) merged
//! into one virtual gamepad.
//!
//! Readers turn input events into messages ([`reader`]); a session takes the messages in and,
//! tick by tick, gives the events that keep the virtual pad in the state it should be in
//! ([`session`], [`pad`]). Mouse motion goes through the aim integration ([`stick`], [`aim`]).
//! Opening devices, threads, files and floating-point arithmetic are left to the program around
//! it.

pub mod aim;
pub mod binary32;
pub mod codes;
pub mod config;
pub mod device;
pub mod laws;
pub mod pad;
pub mod reader;
pub mod session;
pub mod stick;
pub mod timing;
pub mod watcher;
