//! Push-notification core of the stomata backend: the handshake that
//! authenticates a station device, the registry of live station connections,
//! the liveness/eviction policy, and the fire-and-forget dispatch queue
//! through which other components send out-of-band updates to a device.
use vstd::prelude::*;

pub mod auth;
pub mod codec;
pub mod dispatch;
pub mod model;
pub mod notifier;
pub mod registry;
