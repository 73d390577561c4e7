//! Control plane for live, per-application audio capture.
//!
//! The library owns the bookkeeping that bridges operating-system audio
//! events into long-lived, safely cancellable subscriptions: a cached
//! registry of audio-capable processes, two subscriber registries (one for
//! "the process list changed", one keyed by process handle for "this
//! process's running state changed"), and the lifecycle of aggregate
//! capture sessions. The operating-system calls themselves (listener
//! installation, device construction, metadata lookups) are performed by a
//! host layer outside this crate; the library decides what must be
//! installed, torn down or notified, and its decisions are verified.

pub mod apps;
pub mod capture;
pub mod content;
pub mod errors;
pub mod frame_queue;
mod ids;
pub mod process_registry;
pub mod subscriptions;

pub use apps::Application;
pub use apps::TappableApplication;
pub use capture::AudioCaptureSession;
pub use capture::CaptureTarget;
pub use capture::SessionTeardown;
pub use content::ApplicationInfo;
pub use content::ApplicationListChangedSubscriber;
pub use content::ApplicationStateChangedSubscriber;
pub use content::ListNotification;
pub use content::ListSubscribeStep;
pub use content::RecordingPermissions;
pub use content::ShareableContent;
pub use content::StateSubscribeStep;
pub use errors::CaptureError;
pub use errors::DiscoveryError;
pub use frame_queue::FrameQueue;
pub use process_registry::ProcessRegistry;
