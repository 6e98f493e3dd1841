//! Pre-boot unlocking of TCG-Opal self-encrypting drives.
//!
//! The library holds the verified core of a firmware-stage unlock agent: the
//! Opal token and framing codec, the session state machine, the pure side of
//! the security passthrough transport, the per-drive unlock flows, and the
//! per-device retry orchestration.  Firmware I/O (console, block devices,
//! password entry) stays outside; it hands this library plain byte buffers
//! and receives byte buffers and decisions back.

pub mod bytes;
pub mod atom;
pub mod frame;
pub mod uid;
pub mod method;
pub mod session;
pub mod device;
pub mod orchestrator;
pub mod transport;
pub mod boot;
