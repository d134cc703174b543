//! The framework: the composition root that walks an explicit module
//! registry once at startup, probes each module, hands the sensors of the
//! modules that installed to the sensor manager, and keeps the per-module
//! instance handles alive. A module whose probe fails contributes no sensors
//! and does not stop the others.
use vstd::prelude::*;

use crate::manager::SensorManager;
use crate::module::{SensorInstance, SensorModule};

verus! {

/// The process-wide sensor hub state: the sensor manager and the per-module
/// instance handles recorded at boot.
pub struct SensorHubFw {
    sensor_manager: SensorManager,
    sensor_instances: Vec<SensorInstance>,
}

impl SensorHubFw {
    /// The sensor manager.
    pub closed spec fn spec_manager(&self) -> SensorManager {
        self.sensor_manager
    }

    /// The instance handles recorded so far.
    pub closed spec fn spec_instances(&self) -> Seq<SensorInstance> {
        self.sensor_instances@
    }

    /// The framework is consistent exactly when its manager is.
    pub open spec fn wf(&self) -> bool {
        self.spec_manager().wf()
    }

    /// Walks the registry in order: probes each module, and for each module
    /// that installed, registers its freshly created sensors and records its
    /// instance handle. A module that fails to probe is skipped and is not
    /// retried; what each driver returns is its own, so only consistency and
    /// the bound on recorded handles are promised here.
    pub fn probe_all_sensors(&mut self, modules: &Vec<SensorModule>)
        requires
            old(self).wf(),
        ensures
            final(self).wf(),
            old(self).spec_instances().len() <= final(self).spec_instances().len(),
            final(self).spec_instances().len() <= old(self).spec_instances().len()
                + modules@.len(),
    {
        let mut m: usize = 0;
        while m < modules.len()
            invariant
                0 <= m <= modules@.len(),
                self.wf(),
                old(self).spec_instances().len() <= self.spec_instances().len(),
                self.spec_instances().len() <= old(self).spec_instances().len() + m,
            decreases modules@.len() - m,
        {
            let module = &modules[m];
            if module.probe() {
                let sensors = module.create_sensor();
                let _suids = self.sensor_manager.add_sensors(module, sensors);
                self.sensor_instances.push(module.create_sensor_instance());
            }
            m += 1;
        }
    }

    /// The sensor manager, for lookups and attribute access.
    pub fn get_sensor_manager(&mut self) -> (r: &mut SensorManager)
        ensures
            *r == old(self).spec_manager(),
            final(self).spec_manager() == *final(r),
            final(self).spec_instances() == old(self).spec_instances(),
    {
        &mut self.sensor_manager
    }
}

impl Default for SensorHubFw {
    /// A fresh framework: an empty manager and no instance handles.
    fn default() -> (r: Self)
        ensures
            r.wf(),
            r.spec_instances() == Seq::<SensorInstance>::empty(),
            r.spec_manager().spec_sensors().len() == 0,
    {
        SensorHubFw { sensor_manager: SensorManager::new(), sensor_instances: Vec::new() }
    }
}

/// Boots the sensor hub from an explicit module registry: probes every
/// module once, in registry order, and returns the resulting framework.
pub fn init(modules: &Vec<SensorModule>) -> (fw: SensorHubFw)
    ensures
        fw.wf(),
        fw.spec_instances().len() <= modules@.len(),
{
    let mut fw = SensorHubFw::default();
    fw.probe_all_sensors(modules);
    fw
}

} // verus!
