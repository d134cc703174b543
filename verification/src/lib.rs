//! Sensor-hub runtime core: a registry that installs statically described
//! sensor driver modules, assigns each published sensor a deterministic,
//! collision-checked unique identifier, and exposes every sensor's typed
//! attribute store for reads and writes through the manager.
pub mod attr;
pub mod codec;
pub mod framework;
pub mod manager;
pub mod module;
pub mod raw;
pub mod sensor;
pub mod suid;
