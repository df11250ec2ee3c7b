//! Identity-stable event handlers for the variants of a message type.
//!
//! A UI component that hands a freshly built handler to a child on every
//! render makes the child look changed every time. This library plans, for a
//! message type described by a [`schema::Schema`], a cache with one slot for
//! each variant, and runs such a cache.
//!
//! - [`schema`]: the message type, its variants and their fields, some of
//!   them curried: fixed when a handler is made, not when it is invoked.
//! - [`layout`]: the shape of the slot of each variant, single or keyed by
//!   the curried fields.
//! - [`factory`]: the plan of the cache, with an accessor for each variant,
//!   named by [`names`].
//! - [`cache`]: the cache itself. An accessor hands out the same handler for
//!   the same variant and the same key, and unequal handlers for unequal
//!   keys.
//! - [`message`]: what a handler emits: the message of its variant, rebuilt
//!   from the values it captured and those it is invoked with.
//! - [`partition`]: sequences taken apart by flags and put together again,
//!   on which the contracts of the other modules rest.

pub mod cache;
pub mod factory;
pub mod layout;
pub mod message;
pub mod names;
pub mod partition;
pub mod schema;
