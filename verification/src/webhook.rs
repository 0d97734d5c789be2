//! What is done with a comment once its delivery has passed the guard.

pub mod issues;
pub mod links;
pub mod repository;
