//! Driver module descriptors: a registered driver's name, hardware index,
//! declared sub-sensor count, and its operations capability. Descriptors are
//! immutable after registration; the operations are implemented by external
//! driver code.
use vstd::prelude::*;

use crate::sensor::Sensor;

verus! {

/// An opaque per-module handle the framework keeps alive for the process
/// lifetime after a module is installed. Pure bookkeeping.
#[derive(Debug, PartialEq, Eq, Structural)]
pub struct SensorInstance;

/// The operations a sensor driver implements. The defaults make a module
/// report "not present" and contribute nothing, so a driver only overrides
/// what it supports. What each operation returns is decided by external
/// driver code, so nothing is promised of the results here.
pub trait SensorModuleOps: Sync {
    /// Probes and installs the driver; `false` means the module is not
    /// present and contributes no sensors.
    fn install(&self, module_name: &str) -> bool {
        false
    }

    /// Tears the driver down. Nothing in this core calls it automatically.
    fn uninstall(&self) {
    }

    /// Creates this driver's freshly constructed, not yet assigned sensors.
    /// Every driver owes well-formed sensors: at most one attribute per kind
    /// in each store.
    fn create_sensor(&self, hw_id: u8) -> (r: Vec<Sensor>)
        ensures
            forall|i: int| 0 <= i < r@.len() ==> (#[trigger] r@[i]).wf(),
    {
        Vec::new()
    }

    /// Creates the driver-side state handle the framework retains.
    fn create_sensor_instance(&self) -> SensorInstance {
        SensorInstance
    }
}

/// A registered driver descriptor. The (name, hardware id) pair is the
/// externally visible module key; the same name may appear with several
/// hardware ids for multi-instance drivers.
pub struct SensorModule {
    pub name: &'static str,
    pub hw_id: u8,
    /// The declared sub-sensor count. Informational only: the core accepts
    /// however many sensors the driver actually creates.
    pub sub_sensor: u8,
    pub ops: &'static dyn SensorModuleOps,
}

impl SensorModule {
    /// Delegates to the driver's `install`; the result is the driver's alone.
    pub fn probe(&self) -> bool {
        self.ops.install(self.name)
    }

    /// Delegates to the driver's `uninstall`.
    pub fn remove(&self) {
        self.ops.uninstall()
    }

    /// Delegates to the driver's `create_sensor` for this hardware id.
    pub fn create_sensor(&self) -> (r: Vec<Sensor>)
        ensures
            forall|i: int| 0 <= i < r@.len() ==> (#[trigger] r@[i]).wf(),
    {
        self.ops.create_sensor(self.hw_id)
    }

    /// Delegates to the driver's `create_sensor_instance`.
    pub fn create_sensor_instance(&self) -> SensorInstance {
        self.ops.create_sensor_instance()
    }
}

} // verus!
