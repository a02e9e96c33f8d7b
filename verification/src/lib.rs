//! A small, object-safe, serialization-only streaming framework.
//!
//! A producer implementing [`Value`] describes the structure of one value
//! — scalars, sequences, keyed maps, arbitrary but bounded nesting — one
//! call at a time to a consumer implementing [`Stream`], without either
//! side knowing the other's concrete type. The entry point [`stream`]
//! wraps the consumer in a protocol driver that validates every call
//! against a fixed-capacity nesting tracker, so consumers can trust the
//! calls they receive to be well-formed.

pub mod collect;
pub mod error;
pub mod owned;
pub mod stack;
pub mod stream;
pub mod value;

pub use error::Error;
pub use stream::Stream;
pub use value::Value;

use vstd::prelude::*;

verus! {

/// Streams the structure of a producer's value through the protocol
/// driver into the given consumer, firing the consumer's completion hook
/// once the root value is fully and correctly reported, and hands the
/// consumer back.
///
/// The first failure — a protocol violation detected by the driver, or a
/// consumer declining a call — aborts the operation and is returned
/// verbatim; no later call reaches the consumer.
pub fn stream<V: Value, S: Stream>(value: V, consumer: S) -> Result<S, Error> {
    let mut driver = collect::Collect::new(consumer);
    match value.stream(&mut driver) {
        Ok(unit) => unit,
        Err(e) => {
            return Err(e);
        },
    }
    match driver.drive_end() {
        Ok(unit) => unit,
        Err(e) => {
            return Err(e);
        },
    }
    Ok(driver.into_inner())
}

} // verus!
