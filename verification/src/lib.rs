//! Version registry, activation protocol and release-catalog parsing for a
//! PHP version manager.
//!
//! The library decides and never acts. It reads a releases listing into a
//! catalog ([`catalog`]), names the places of the installation
//! ([`layout`]), tells which versions a scan of the installation root shows
//! and which of them is active ([`repository`]), and runs the two protocols,
//! installation ([`installer`]) and activation ([`activator`]), as state
//! machines: each names the next action and takes the report of what
//! happened. Fetching, unpacking, linking and printing are the caller's.

pub mod error;
pub mod text;
pub mod version;
pub mod sorting;
pub mod catalog;
pub mod layout;
pub mod repository;
pub mod activator;
pub mod installer;
