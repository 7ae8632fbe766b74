//! Finding bookmark folders by name in a browser's bookmark store, and
//! deciding which candidate store file to read.

pub mod error;
pub mod locator;
pub mod model;
pub mod platform;
pub mod search;
pub mod theorems;
