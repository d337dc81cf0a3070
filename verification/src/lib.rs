//! Verified models of a set of FRAME pallets (proof of existence, kitties,
//! a kitty market and a price buffer) together with the decision step of an
//! echo service.
pub mod runtime;
pub mod kitty;
pub mod kitty_list;
pub mod id_list;
pub mod kitty_market;
pub mod kitties;
pub mod poe;
pub mod template;
pub mod weights;
pub mod echo;
