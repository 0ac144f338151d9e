use asi_rs::device::{Device, HwCommand};
use asi_rs::errors::DeviceError;
use asi_rs::props::PropValue;

fn wheel() -> Device {
    Device::new_efw(0, "EFW", 5, 1, false)
}

fn value_of(d: &Device, name: &str) -> PropValue {
    let store = d.get_properties();
    let i = store.find_property_index(name).expect("property exists");
    store.get_at(i).value.clone()
}

#[test]
fn test_efw_initial_properties() {
    let dev = wheel();
    assert_eq!(dev.get_name(), "ZWO EFW");
    assert_eq!(dev.get_index(), 0);
    assert!(matches!(value_of(&dev, "available_slots"), PropValue::Int(5)));
    assert!(matches!(value_of(&dev, "actual_slot"), PropValue::Int(1)));
    assert!(matches!(value_of(&dev, "unidirectional"), PropValue::Bool(false)));
    match value_of(&dev, "calibration") {
        PropValue::Text(s) => assert_eq!(s, "off"),
        _ => panic!("calibration is not text"),
    }
}

#[test]
fn test_efw_slot_moves_within_bounds_only() {
    let mut dev = wheel();

    let (outcome, issued) = dev.update_property("actual_slot", "3", 0);
    assert_eq!(outcome, Ok(()));
    assert_eq!(issued, Some(HwCommand::SetPosition { slot: 3 }));
    assert!(matches!(value_of(&dev, "actual_slot"), PropValue::Int(3)));

    let (outcome, issued) = dev.update_property("actual_slot", "7", 0);
    assert_eq!(outcome, Err(DeviceError::InvalidValue));
    assert_eq!(issued, None);
    assert!(matches!(value_of(&dev, "actual_slot"), PropValue::Int(3)));

    let (outcome, _) = dev.update_property("actual_slot", "up", 0);
    assert_eq!(outcome, Err(DeviceError::InvalidValue));
}

#[test]
fn test_efw_direction_flag_parses_booleans() {
    let mut dev = wheel();

    let (outcome, issued) = dev.update_property("unidirectional", "true", 0);
    assert_eq!(outcome, Ok(()));
    assert_eq!(issued, Some(HwCommand::SetUnidirection { flag: true }));
    assert!(matches!(value_of(&dev, "unidirectional"), PropValue::Bool(true)));

    let (outcome, _) = dev.update_property("unidirectional", "maybe", 0);
    assert_eq!(outcome, Err(DeviceError::InvalidValue));
}

#[test]
fn test_efw_calibration_is_read_only_for_clients() {
    let mut dev = wheel();

    let (outcome, _) = dev.update_property("calibration", "on", 0);
    assert_eq!(outcome, Err(DeviceError::ReadOnlyProperty));

    // the driver itself flips it around a calibration run
    assert_eq!(dev.update_internal_property("calibration", "on"), Ok(()));
    match value_of(&dev, "calibration") {
        PropValue::Text(s) => assert_eq!(s, "on"),
        _ => panic!("calibration is not text"),
    }
    assert_eq!(dev.update_internal_property("calibration", "off"), Ok(()));
}

#[test]
fn test_calibration_run_flips_marker_on_then_off() {
    let mut dev = wheel();
    assert_eq!(dev.begin_calibration(), Ok(()));
    match value_of(&dev, "calibration") {
        PropValue::Text(s) => assert_eq!(s, "on"),
        _ => panic!("calibration is not text"),
    }
    // the wheel still moves: keep waiting, nothing changes
    assert!(!dev.calibration_poll(true));
    match value_of(&dev, "calibration") {
        PropValue::Text(s) => assert_eq!(s, "on"),
        _ => panic!("calibration is not text"),
    }
    // it stopped: the marker returns to off
    assert!(dev.calibration_poll(false));
    match value_of(&dev, "calibration") {
        PropValue::Text(s) => assert_eq!(s, "off"),
        _ => panic!("calibration is not text"),
    }
}
