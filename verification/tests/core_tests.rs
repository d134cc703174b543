use sensor_hub::attr::{SensorAttr, SensorType};
use sensor_hub::framework::init;
use sensor_hub::manager::SensorManager;
use sensor_hub::module::{SensorInstance, SensorModule, SensorModuleOps};
use sensor_hub::sensor::Sensor;
use sensor_hub::suid::generate_fixed;

#[test]
fn sensor_type_test() {
    for sensor in SensorType::all() {
        println!("Sensor type: {sensor:?}, string type = {}", sensor.name());
    }
    assert_eq!(SensorType::Accelerometer.name(), "accel");
    assert_eq!(SensorType::Unknown.name(), "unknown");
    assert_eq!(SensorType::default(), SensorType::Unknown);
    assert_eq!(SensorType::all().len(), 8);
}

#[test]
fn attr_upsert_idempotence_test() {
    let mut sensor = Sensor::new();
    sensor.set_attr(SensorAttr::Name("acc".to_string()));
    sensor.set_attr(SensorAttr::Name("accel".to_string()));
    assert_eq!(sensor.attrs.len(), 1);
    match sensor.get_attr(SensorAttr::Name(String::new())) {
        Some(SensorAttr::Name(n)) => assert_eq!(n, "accel"),
        other => panic!("unexpected attribute: {other:?}"),
    }
}

#[test]
fn attr_kind_selector_ignores_payload_test() {
    let mut sensor = Sensor::new();
    sensor.set_attr(SensorAttr::Available(true));
    sensor.set_attr(SensorAttr::Version(7));
    match sensor.get_attr(SensorAttr::Available(false)) {
        Some(SensorAttr::Available(v)) => assert!(*v),
        other => panic!("unexpected attribute: {other:?}"),
    }
    assert_eq!(sensor.attrs.len(), 2);
    assert!(sensor.get_attr(SensorAttr::Vendor(String::new())).is_none());
}

struct TwoSensorDriver;

impl SensorModuleOps for TwoSensorDriver {
    fn install(&self, _module_name: &str) -> bool {
        true
    }

    fn create_sensor(&self, _hw_id: u8) -> Vec<Sensor> {
        vec![Sensor::new(), Sensor::new()]
    }
}

static TWO_SENSOR_DRIVER: TwoSensorDriver = TwoSensorDriver;

struct AbsentDriver;

impl SensorModuleOps for AbsentDriver {}

static ABSENT_DRIVER: AbsentDriver = AbsentDriver;

#[test]
fn registration_assigns_stable_identifiers_test() {
    let module = SensorModule { name: "accel_mod", hw_id: 1, sub_sensor: 2, ops: &TWO_SENSOR_DRIVER };
    let mut manager = SensorManager::new();
    let suids = manager.add_sensors(&module, vec![Sensor::new(), Sensor::new()]);

    assert_eq!(suids.len(), 2);
    assert_ne!(suids[0], suids[1]);
    assert!(manager.has_sensor(&suids[0]));
    assert!(manager.has_sensor(&suids[1]));
    assert!(manager.get_sensor(&suids[0]).is_some());
    assert!(manager.get_sensor(&suids[1]).is_some());
    assert_eq!(manager.sensor_count(), 2);
    assert_eq!(manager.get_module_sensor_suids("accel_mod", 1).unwrap(), &suids[..]);
    assert_eq!(manager.get_module_sensor_suids_by_name("accel_mod").unwrap(), &suids[..]);
    assert_eq!(manager.get_all_module_sensor_suids("accel_mod"), suids);
    assert_eq!(manager.get_module_sensors("accel_mod", 1).len(), 2);
    assert_eq!(manager.get_module_sensors_by_name("accel_mod").len(), 2);
    assert_eq!(manager.get_all_module_sensors("accel_mod").len(), 2);

    // a registered sensor keeps its identifier: re-registering returns it
    let registered: Vec<Sensor> = vec![];
    let suids2 = manager.add_sensors(&module, registered);
    assert_eq!(suids2.len(), 0);
}

#[test]
fn preassigned_identifier_is_kept_test() {
    let module = SensorModule { name: "gyro_mod", hw_id: 3, sub_sensor: 1, ops: &TWO_SENSOR_DRIVER };
    let mut manager = SensorManager::new();
    let mut sensor = Sensor::new();
    let fixed = generate_fixed("already-assigned");
    sensor.suid = Some(fixed);
    let suids = manager.add_sensors(&module, vec![sensor]);
    assert_eq!(suids.len(), 1);
    assert_eq!(suids[0], fixed);
    assert!(manager.has_sensor(&fixed));
}

#[test]
fn unknown_identifier_is_non_fatal_test() {
    let mut manager = SensorManager::new();
    let unknown = generate_fixed("never-registered");
    assert!(manager.get_sensor(&unknown).is_none());
    assert!(manager.get_sensor_mut(&unknown).is_none());
    assert!(!manager.has_sensor(&unknown));
    manager.update_sensor_attr(&unknown, SensorAttr::Available(true));
    assert_eq!(manager.sensor_count(), 0);
    assert!(manager.get_module_sensor_suids("nobody", 0).is_none());
    assert_eq!(manager.get_all_module_sensor_suids("nobody"), vec![]);
}

#[test]
fn write_then_read_visibility_test() {
    let module = SensorModule { name: "als_mod", hw_id: 0, sub_sensor: 1, ops: &TWO_SENSOR_DRIVER };
    let mut manager = SensorManager::new();
    let suids = manager.add_sensors(&module, vec![Sensor::new()]);
    let id = suids[0];

    manager.update_sensor_attr(&id, SensorAttr::Available(true));
    let sensor = manager.get_sensor(&id).unwrap();
    match sensor.get_attr(SensorAttr::Available(false)) {
        Some(SensorAttr::Available(v)) => assert!(*v),
        other => panic!("unexpected attribute: {other:?}"),
    }
}

#[test]
fn mutable_access_through_manager_test() {
    let module = SensorModule { name: "mag_mod", hw_id: 2, sub_sensor: 1, ops: &TWO_SENSOR_DRIVER };
    let mut manager = SensorManager::new();
    let suids = manager.add_sensors(&module, vec![Sensor::new()]);
    let id = suids[0];

    {
        let sensor = manager.get_sensor_mut(&id).unwrap();
        sensor.set_attr(SensorAttr::Type(SensorType::Magnetic));
    }
    let sensor = manager.get_sensor(&id).unwrap();
    match sensor.get_attr(SensorAttr::Type(SensorType::Unknown)) {
        Some(SensorAttr::Type(t)) => assert_eq!(*t, SensorType::Magnetic),
        other => panic!("unexpected attribute: {other:?}"),
    }
}

#[test]
fn framework_boot_test() {
    let modules = vec![
        SensorModule { name: "accel_mod", hw_id: 1, sub_sensor: 2, ops: &TWO_SENSOR_DRIVER },
        SensorModule { name: "ghost_mod", hw_id: 9, sub_sensor: 1, ops: &ABSENT_DRIVER },
    ];
    let mut fw = init(&modules);
    let manager = fw.get_sensor_manager();
    assert_eq!(manager.sensor_count(), 2);
    let suids = manager.get_all_module_sensor_suids("accel_mod");
    assert_eq!(suids.len(), 2);
    assert!(manager.has_sensor(&suids[0]));
    // the absent module contributed nothing
    assert!(manager.get_module_sensor_suids("ghost_mod", 9).is_none());
}

#[test]
fn module_defaults_test() {
    let module = SensorModule { name: "noop_mod", hw_id: 0, sub_sensor: 0, ops: &ABSENT_DRIVER };
    assert!(!module.probe());
    assert_eq!(module.create_sensor().len(), 0);
    assert_eq!(module.create_sensor_instance(), SensorInstance);
    module.remove();
}
