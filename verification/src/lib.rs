//! Invocation core of an object-as-a-service platform.
//!
//! The crate provides the transport-independent pieces that sit between a
//! wire transport and a function-execution engine:
//!
//! * the data model of invocation requests, responses and object metadata;
//! * the per-object event-trigger registry with idempotent add/remove;
//! * the invocation gateway, which guarantees exactly one structurally valid
//!   response per request, absorbing engine faults as error responses;
//! * the wire-shaped message structs and the conversions to and from them;
//! * the pure computation behind telemetry configuration and log forwarding.

pub mod assoc;
pub mod data;
pub mod entries;
pub mod gateway;
pub mod model;
pub mod str_map;
pub mod telemetry;
pub mod text;
pub mod trigger;
pub mod wire;
