//! Host-side trust layer for agent-to-agent messaging: canonical envelope
//! encoding, Ed25519 signing and verification, replay and expiry guards, and
//! a hash-chained witness log.
pub mod ambient;
pub mod chassis;
pub mod codec;
pub mod crypto;
pub mod error;
pub mod guard;
pub mod hexform;
pub mod message;
pub mod witness;

pub use chassis::{Chassis, ChassisHost};
pub use error::ChassisError;
pub use guard::{GuardDecision, NonceCache};
pub use message::{Hazard, HazardType, IFMessage};
pub use witness::{WitnessChain, WitnessEvent};
