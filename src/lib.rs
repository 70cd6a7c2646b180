//! Reads a function-deployment configuration (a root document that references
//! satellite documents of function definitions) and derives, for each handler, a
//! TypeScript declaration of its callable signature from the first event that
//! triggers it.

pub mod error;
pub mod text;
pub mod node;
pub mod reference;
pub mod handler;
pub mod event;
pub mod signature;
pub mod function;
pub mod yaml;
pub mod loader;
