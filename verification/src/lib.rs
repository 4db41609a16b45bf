//! Presence aggregation engine: resolves wireless stations against a device
//! registry, applies a per-device privacy policy, reduces devices to one
//! visibility decision per identity, and prepares retained publish payloads.

pub mod aggregate;
pub mod device;
pub mod forms;
pub mod net;
pub mod privacy;
pub mod publish;
pub mod scheduler;
pub mod session;

pub use aggregate::{AggregationResult, LoggableSighting, Registry};
pub use device::{AliveDevice, Device};
pub use forms::ChangeForm;
pub use net::{RawStation, Station, Subnet};
pub use privacy::PrivacyLevel;
pub use publish::{ControllerError, CyclePlan};
pub use session::AppSession;
