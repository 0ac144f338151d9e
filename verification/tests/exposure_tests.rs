use asi_rs::device::{CameraInfo, Device, HwCommand, ROIFormat};
use asi_rs::errors::{DeviceError, HwErrorKind};
use asi_rs::exposure::{CapturePoll, CaptureRequest, ExposureState, ASI_CONTROL_TYPE_ASI_EXPOSURE};
use asi_rs::props::PropValue;

fn plain_camera() -> Device {
    let info = CameraInfo {
        name: "ZWO ASI294MC".to_string(),
        camera_id: 0,
        max_height: 2822,
        max_width: 4144,
        is_color: true,
        bayer_pattern: 0,
        supported_bins: [1, 2, 0, 0, 0, 0, 0, 0, 0, 0, 0, 0, 0, 0, 0, 0],
        supported_video_format: [0, 2, -1, 0, 0, 0, 0, 0],
        pixel_size: "4.63".to_string(),
        has_shutter: false,
        st4: false,
        elec_per_adu: "0.45".to_string(),
        bit_depth: 14,
        ls_rand_id: "AbCdEfGh".to_string(),
    };
    Device::new_camera(
        &info,
        &Vec::new(),
        &Vec::new(),
        ROIFormat { width: 1920, height: 1080, bin: 1, img_type: 0 },
    )
}

fn status_text(d: &Device) -> String {
    let store = d.get_properties();
    let i = store.find_property_index("exposure_status").expect("status entry");
    match &store.get_at(i).value {
        PropValue::Text(s) => s.clone(),
        _ => panic!("exposure_status is not text"),
    }
}

#[test]
fn test_capture_eight_bit_buffer_and_commands() {
    // 2.0 s at 1920 x 1080 RAW8: 2073600 bytes of buffer, exposure
    // control set to the length in microseconds
    let mut dev = plain_camera();
    let req = CaptureRequest { length_micros: 2_000_000, width: 1920, height: 1080, img_type: 0 };

    let started = dev.start_capture(req).expect("idle camera accepts a capture");
    assert_eq!(started.buffer_size, 2_073_600);
    assert_eq!(
        started.set_exposure,
        HwCommand::SetControl { control: ASI_CONTROL_TYPE_ASI_EXPOSURE, value: 2_000_000 }
    );
    assert_eq!(status_text(&dev), "EXPOSING");
    assert_eq!(dev.exposure, ExposureState::Exposing);
}

#[test]
fn test_capture_sixteen_bit_buffer_doubles() {
    let mut dev = plain_camera();
    let req = CaptureRequest { length_micros: 2_000_000, width: 1920, height: 1080, img_type: 2 };

    let started = dev.start_capture(req).expect("idle camera accepts a capture");
    assert_eq!(started.buffer_size, 4_147_200);

    // drive it to completion and check the header's bit depth
    assert_eq!(dev.capture_poll(1), CapturePoll::Wait);
    assert_eq!(dev.capture_poll(2), CapturePoll::Download);
    let buffer: Vec<u8> = vec![3; started.buffer_size];
    let file = dev.complete_capture(&buffer);
    assert_eq!(
        &file[80..160],
        b"BITPIX  =                   16 / number of bits per data pixel                  ".as_slice()
    );
    assert_eq!(
        &file[240..320],
        b"NAXIS1  =                 1920 / length of data axis 1                          ".as_slice()
    );
    assert_eq!(dev.exposure, ExposureState::Success);
    assert_eq!(status_text(&dev), "SUCCESS");
}

#[test]
fn test_second_capture_rejected_while_exposing() {
    // a capture request during an active capture is rejected, and the
    // original capture still runs to its own terminal state
    let mut dev = plain_camera();
    let req = CaptureRequest { length_micros: 1_000_000, width: 1920, height: 1080, img_type: 0 };
    let started = dev.start_capture(req).expect("first capture starts");

    let second = CaptureRequest { length_micros: 5_000_000, width: 800, height: 600, img_type: 0 };
    assert_eq!(
        dev.start_capture(second),
        Err(DeviceError::Hardware(HwErrorKind::Busy))
    );
    assert_eq!(status_text(&dev), "EXPOSING");

    assert_eq!(dev.capture_poll(2), CapturePoll::Download);
    let buffer: Vec<u8> = vec![0; started.buffer_size];
    let file = dev.complete_capture(&buffer);
    assert_eq!(file.len() % 2880, 0);
    assert_eq!(dev.exposure, ExposureState::Success);
}

#[test]
fn test_failed_exposure_leaves_device_usable() {
    let mut dev = plain_camera();
    let req = CaptureRequest { length_micros: 1_000_000, width: 800, height: 600, img_type: 0 };
    dev.start_capture(req).expect("capture starts");

    // any status other than 1 or 2 fails the capture
    assert_eq!(dev.capture_poll(3), CapturePoll::Fail);
    assert_eq!(dev.exposure, ExposureState::Failed);
    assert_eq!(status_text(&dev), "FAILED");

    // the device accepts the next request
    let again = dev.start_capture(req);
    assert!(again.is_ok());
}

#[test]
fn test_capture_rgb24_also_needs_two_bytes_per_pixel() {
    let mut dev = plain_camera();
    let req = CaptureRequest { length_micros: 1, width: 1920, height: 1080, img_type: 1 };
    let started = dev.start_capture(req).expect("idle camera accepts a capture");
    assert_eq!(started.buffer_size, 4_147_200);
}
