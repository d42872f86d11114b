//! Sensor data built from a libsensors snapshot.

use lm_sensors_web::sensors::{
    unit_str, ChipSample, Device, DeviceReadings, FeatureInfo, FeatureSample, SensorReadings,
    SensorSnapshot, SubFeatureInfo, SubFeatureSample, Unit, ValueSample,
};

/// Clone produces independent copies.
#[test]
fn test_device_clone() {
    let d = Device { name: "cpu".into(), bus: "ISA".into(), path: Some("/sys/hwmon0".into()) };
    let c = d.clone();
    assert_eq!(d.name, c.name);
    assert_eq!(d.bus, c.bus);
    assert_eq!(d.path, c.path);
}

/// Debug formatting works for all data types.
#[test]
fn test_debug_formatting() {
    let r = SensorReadings {
        devices: vec![DeviceReadings {
            device: Device { name: "test".into(), bus: "ISA".into(), path: None },
            features: vec![FeatureInfo {
                name: "temp1".into(),
                sub_features: vec![SubFeatureInfo {
                    name: "temp1_input".into(),
                    value: Some(65_000_000),
                    unit: Some("°C".into()),
                }],
            }],
        }],
    };
    let s = format!("{:?}", r);
    assert!(!s.is_empty());
}

fn value(name: &str, micro: i64, unit: Unit) -> SubFeatureSample {
    SubFeatureSample { reading: Some(ValueSample { name: name.into(), micro_value: micro, unit }) }
}

fn snapshot() -> SensorSnapshot {
    SensorSnapshot {
        chips: vec![
            ChipSample {
                name: Some("coretemp-isa-0000".into()),
                bus: "ISA adapter".into(),
                path: Some("/sys/class/hwmon/hwmon0".into()),
                features: vec![
                    FeatureSample {
                        name: Some("temp1".into()),
                        sub_features: vec![
                            value("temp1_input", 55_000_000, Unit::Celsius),
                            SubFeatureSample { reading: None },
                            value("temp1_max", 100_000_000, Unit::Celsius),
                        ],
                    },
                    FeatureSample { name: None, sub_features: vec![] },
                ],
            },
            ChipSample { name: None, bus: "PCI adapter".into(), path: None, features: vec![] },
            ChipSample {
                name: Some("it8792-isa-0290".into()),
                bus: "ISA adapter".into(),
                path: None,
                features: vec![FeatureSample {
                    name: Some("fan1".into()),
                    sub_features: vec![value("fan1_input", 900_000_000, Unit::RotationPerMinute)],
                }],
            },
        ],
    }
}

#[test]
fn devices_listed_in_order() {
    let d = snapshot().list_devices();
    assert_eq!(d.len(), 3);
    assert_eq!(d[0].name, "coretemp-isa-0000");
    assert_eq!(d[0].path.as_deref(), Some("/sys/class/hwmon/hwmon0"));
    assert_eq!(d[1].name, "");
    assert_eq!(d[2].bus, "ISA adapter");
}

#[test]
fn readings_skip_unreadable_sub_features() {
    let r = snapshot().read_all();
    assert_eq!(r.devices.len(), 3);
    let f = &r.devices[0].features;
    assert_eq!(f.len(), 2);
    assert_eq!(f[0].name, "temp1");
    assert_eq!(f[0].sub_features.len(), 2);
    assert_eq!(f[0].sub_features[0].name, "temp1_input");
    assert_eq!(f[0].sub_features[0].value, Some(55_000_000));
    assert_eq!(f[0].sub_features[0].unit.as_deref(), Some("°C"));
    assert_eq!(f[0].sub_features[1].name, "temp1_max");
    assert_eq!(f[1].name, "");
    assert_eq!(r.devices[2].features[0].sub_features[0].unit.as_deref(), Some("RPM"));
}

#[test]
fn lookup_by_partial_name() {
    let s = snapshot();
    assert_eq!(s.get_device("isa").unwrap().name, "coretemp-isa-0000");
    assert_eq!(s.get_device("8792").unwrap().name, "it8792-isa-0290");
    assert!(s.get_device("nvme").is_none());
    assert!(s.get_device("ISA").is_none());
    let full = s.get_device_features("it87").unwrap();
    assert_eq!(full.device.name, "it8792-isa-0290");
    assert_eq!(full.features.len(), 1);
    assert!(s.get_device_features("bogus").is_none());
}

#[test]
fn unit_abbreviations() {
    assert_eq!(unit_str(Unit::Celsius), "°C");
    assert_eq!(unit_str(Unit::Volt), "V");
    assert_eq!(unit_str(Unit::Amp), "A");
    assert_eq!(unit_str(Unit::Watt), "W");
    assert_eq!(unit_str(Unit::Joule), "J");
    assert_eq!(unit_str(Unit::RotationPerMinute), "RPM");
    assert_eq!(unit_str(Unit::Percentage), "%");
    assert_eq!(unit_str(Unit::Second), "s");
    assert_eq!(unit_str(Unit::NoUnit), "");
    assert_eq!(unit_str(Unit::Other), "");
}
