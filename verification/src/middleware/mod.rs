//! Guards that a request must pass before it reaches a handler.

pub mod auth_layer;
