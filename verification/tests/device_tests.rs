use asi_rs::check_error_code;
use asi_rs::device::{CameraInfo, ControlReading, Device, HwCommand, ROIFormat};
use asi_rs::sdk::{caps_to_asi_property, AsiControlCaps};
use asi_rs::errors::{DeviceError, HwErrorKind};
use asi_rs::props::{PropValue, Property};
use asi_rs::sdk::AsiProperty;

fn camera_info() -> CameraInfo {
    CameraInfo {
        name: "ZWO ASI294MC".to_string(),
        camera_id: 0,
        max_height: 2822,
        max_width: 4144,
        is_color: true,
        bayer_pattern: 0,
        supported_bins: [1, 2, 3, 4, 0, 0, 0, 0, 0, 0, 0, 0, 0, 0, 0, 0],
        supported_video_format: [0, 1, 2, -1, 0, 0, 0, 0],
        pixel_size: "4.63".to_string(),
        has_shutter: false,
        st4: true,
        elec_per_adu: "0.45".to_string(),
        bit_depth: 14,
        ls_rand_id: "AbCdEfGh".to_string(),
    }
}

fn gain_camera() -> Device {
    let caps = vec![AsiProperty {
        name: "gain".to_string(),
        description: "Gain".to_string(),
        max_value: 100,
        min_value: 0,
        default_value: 50,
        is_auto_supported: true,
        is_writable: true,
        control_type: 0,
    }];
    let values = vec![50i64];
    Device::new_camera(
        &camera_info(),
        &caps,
        &values,
        ROIFormat { width: 1920, height: 1080, bin: 1, img_type: 0 },
    )
}

fn prop_of<'a>(d: &'a Device, name: &str) -> &'a Property {
    let store = d.get_properties();
    let i = store.find_property_index(name).expect("property exists");
    store.get_at(i)
}

fn int_value(d: &Device, name: &str) -> i64 {
    match prop_of(d, name).value {
        PropValue::Int(v) => v,
        _ => panic!("property {} is not an integer", name),
    }
}

fn text_value(d: &Device, name: &str) -> String {
    match &prop_of(d, name).value {
        PropValue::Text(s) => s.clone(),
        _ => panic!("property {} is not text", name),
    }
}

#[test]
fn test_update_gain_writes_through_once() {
    // a writable integer control in bounds: stored value changes and
    // exactly one hardware write with the new value is issued
    let mut dev = gain_camera();
    assert_eq!(int_value(&dev, "gain"), 50);

    let (outcome, issued) = dev.update_property("gain", "75", 0);
    assert_eq!(outcome, Ok(()));
    assert_eq!(issued, Some(HwCommand::SetControl { control: 0, value: 75 }));
    assert_eq!(int_value(&dev, "gain"), 75);
}

#[test]
fn test_update_unknown_property_changes_nothing() {
    let mut dev = gain_camera();
    let before = dev.get_properties().len();

    let (outcome, issued) = dev.update_property("nonexistent", "1", 0);
    assert_eq!(outcome, Err(DeviceError::UnknownProperty));
    assert_eq!(issued, None);
    assert_eq!(dev.get_properties().len(), before);
    assert_eq!(int_value(&dev, "gain"), 50);
}

#[test]
fn test_update_read_only_property_refused() {
    let mut dev = gain_camera();
    assert_eq!(int_value(&dev, "camera_id"), 0);

    let (outcome, issued) = dev.update_property("camera_id", "9", 0);
    assert_eq!(outcome, Err(DeviceError::ReadOnlyProperty));
    assert_eq!(issued, None);
    assert_eq!(int_value(&dev, "camera_id"), 0);
}

#[test]
fn test_update_invalid_values_change_nothing() {
    let mut dev = gain_camera();

    let (outcome, issued) = dev.update_property("gain", "abc", 0);
    assert_eq!(outcome, Err(DeviceError::InvalidValue));
    assert_eq!(issued, None);

    let (outcome, _) = dev.update_property("gain", "200", 0);
    assert_eq!(outcome, Err(DeviceError::InvalidValue));

    let (outcome, _) = dev.update_property("gain", "-1", 0);
    assert_eq!(outcome, Err(DeviceError::InvalidValue));

    assert_eq!(int_value(&dev, "gain"), 50);
}

#[test]
fn test_update_keeps_old_value_when_hardware_refuses() {
    let mut dev = gain_camera();

    // the write was issued but the hardware answered with status 2
    let (outcome, issued) = dev.update_property("gain", "75", 2);
    assert_eq!(outcome, Err(DeviceError::Hardware(HwErrorKind::InvalidId)));
    assert_eq!(issued, Some(HwCommand::SetControl { control: 0, value: 75 }));
    assert_eq!(int_value(&dev, "gain"), 50);
}

#[test]
fn test_update_width_reissues_roi_and_refreshes_cache() {
    let mut dev = gain_camera();
    assert_eq!(dev.get_actual_width(), 1920);

    let (outcome, issued) = dev.update_property("width", "800", 0);
    assert_eq!(outcome, Ok(()));
    assert_eq!(
        issued,
        Some(HwCommand::SetRoi { width: 800, height: 1080, bin: 1, img_type: 0 })
    );
    assert_eq!(dev.get_actual_width(), 800);
    assert_eq!(int_value(&dev, "width"), 800);
}

#[test]
fn test_initial_store_reflects_camera_info() {
    let dev = gain_camera();
    assert_eq!(text_value(&dev, "exposure_status"), "IDLE");
    assert_eq!(text_value(&dev, "bayer_pattern"), "RG");
    assert_eq!(text_value(&dev, "supported_bins"), "1x1,2x2,3x3,4x4");
    assert_eq!(text_value(&dev, "supported_video_formats"), "RAW8,RGB24,RAW16");
    assert_eq!(text_value(&dev, "pixel_size"), "4.63");
    assert_eq!(int_value(&dev, "max_width"), 4144);
    assert_eq!(int_value(&dev, "bit_depth"), 14);
    assert_eq!(text_value(&dev, "bin"), "1x1");
    assert_eq!(text_value(&dev, "image_type"), "RAW8");
    assert_eq!(dev.get_id().len(), 36);
    assert_eq!(dev.get_name(), "ZWO ASI294MC");
    assert_eq!(dev.get_actual_bin(), "1x1");
    assert_eq!(dev.get_actual_img_type(), "RAW8");
    assert_eq!(dev.get_actual_raw_img_type(), 0);
}

#[test]
fn test_refresh_diffing_is_idempotent() {
    // refreshing twice in a row with the same hardware readings makes
    // no further change the second time
    let mut dev = gain_camera();

    let readings = vec![ControlReading { name: "gain".to_string(), value: 62 }];
    let changed = dev.fetch_props(&readings);
    assert_eq!(changed, 1);
    assert_eq!(int_value(&dev, "gain"), 62);

    let changed_again = dev.fetch_props(&readings);
    assert_eq!(changed_again, 0);
    assert_eq!(int_value(&dev, "gain"), 62);
}

#[test]
fn test_refresh_skips_unknown_and_non_integer_names() {
    let mut dev = gain_camera();
    let readings = vec![
        ControlReading { name: "no_such_control".to_string(), value: 1 },
        ControlReading { name: "exposure_status".to_string(), value: 1 },
    ];
    let changed = dev.fetch_props(&readings);
    assert_eq!(changed, 0);
    assert_eq!(text_value(&dev, "exposure_status"), "IDLE");
}

#[test]
fn test_internal_update_sets_text_without_permission_check() {
    let mut dev = gain_camera();
    assert_eq!(dev.update_internal_property("exposure_status", "EXPOSING"), Ok(()));
    assert_eq!(text_value(&dev, "exposure_status"), "EXPOSING");
    assert_eq!(
        dev.update_internal_property("gain", "1"),
        Err(DeviceError::InvalidValue)
    );
    assert_eq!(
        dev.update_internal_property("missing", "x"),
        Err(DeviceError::UnknownProperty)
    );
}

#[test]
fn test_error_code_classification() {
    assert_eq!(check_error_code(0), None);
    assert_eq!(check_error_code(1), Some(HwErrorKind::InvalidIndex));
    assert_eq!(check_error_code(2), Some(HwErrorKind::InvalidId));
    assert_eq!(check_error_code(4), Some(HwErrorKind::Closed));
    assert_eq!(check_error_code(5), Some(HwErrorKind::Removed));
    assert_eq!(check_error_code(11), Some(HwErrorKind::Timeout));
    assert_eq!(check_error_code(15), Some(HwErrorKind::Busy));
    assert_eq!(check_error_code(8), Some(HwErrorKind::InvalidParameter));
    assert_eq!(check_error_code(16), Some(HwErrorKind::General));
    assert_eq!(check_error_code(99), Some(HwErrorKind::General));
    assert_eq!(HwErrorKind::Timeout.name(), "TIMEOUT");
}

#[test]
fn test_caps_translation_folds_name_case() {
    let mut caps = AsiControlCaps::new();
    let name = b"Temperature";
    for (i, b) in name.iter().enumerate() {
        caps.Name[i] = *b as i8;
    }
    caps.MaxValue = 990;
    caps.MinValue = -500;
    caps.DefaultValue = 200;
    caps.IsWritable = 0;
    caps.ControlType = 8;

    let p = caps_to_asi_property(&caps);
    assert_eq!(p.name, "temperature");
    assert_eq!(p.max_value, 990);
    assert_eq!(p.min_value, -500);
    assert!(!p.is_writable);
    assert_eq!(p.control_type, 8);
}

#[test]
fn test_update_gain_accepts_bounds_edges() {
    let mut dev = gain_camera();
    let (outcome, _) = dev.update_property("gain", "0", 0);
    assert_eq!(outcome, Ok(()));
    let (outcome, _) = dev.update_property("gain", "100", 0);
    assert_eq!(outcome, Ok(()));
    assert_eq!(int_value(&dev, "gain"), 100);
    let (outcome, _) = dev.update_property("gain", "101", 0);
    assert_eq!(outcome, Err(DeviceError::InvalidValue));
    let (outcome, _) = dev.update_property("gain", "", 0);
    assert_eq!(outcome, Err(DeviceError::InvalidValue));
    assert_eq!(int_value(&dev, "gain"), 100);
}

#[test]
fn test_temperature_control_scales_tenths_to_decimal() {
    // the hardware reports temperature in tenths of a degree; the
    // store shows it divided by ten, as a decimal
    let caps = vec![
        AsiProperty {
            name: "gain".to_string(),
            description: "Gain".to_string(),
            max_value: 100,
            min_value: 0,
            default_value: 50,
            is_auto_supported: true,
            is_writable: true,
            control_type: 0,
        },
        AsiProperty {
            name: "temperature".to_string(),
            description: "Sensor temperature".to_string(),
            max_value: 1000,
            min_value: -500,
            default_value: 200,
            is_auto_supported: false,
            is_writable: false,
            control_type: 8,
        },
    ];
    let values = vec![50i64, 235i64];
    let mut dev = Device::new_camera(
        &camera_info(),
        &caps,
        &values,
        ROIFormat { width: 1920, height: 1080, bin: 1, img_type: 0 },
    );
    assert_eq!(text_value(&dev, "temperature"), "23.5");

    // the polling loop refreshes it in the same rendering, and a
    // whole number of degrees drops the fraction
    let readings = vec![ControlReading { name: "temperature".to_string(), value: 230 }];
    assert_eq!(dev.fetch_props(&readings), 1);
    assert_eq!(text_value(&dev, "temperature"), "23");
    assert_eq!(dev.fetch_props(&readings), 0);

    let below = vec![ControlReading { name: "temperature".to_string(), value: -51 }];
    assert_eq!(dev.fetch_props(&below), 1);
    assert_eq!(text_value(&dev, "temperature"), "-5.1");
}
