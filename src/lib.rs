//! A deterministic record store: records are addressed by a program address
//! derived from their owner and title, created from an encoded payload and
//! closed by their owner.

pub mod address;
pub mod codec;
pub mod handler;

pub use codec::Image;
pub use handler::process_transaction;
