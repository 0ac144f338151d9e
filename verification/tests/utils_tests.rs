use asi_rs::utils;
use asi_rs::numtext;

#[test]
fn test_binning_array_to_string() {
    let bin_array: [i32; 7] = [1, 2, 3, 4, 0, 0, 0];
    let expected_str: &str = "1x1,2x2,3x3,4x4";
    let result = utils::int_to_binning_str(&bin_array);

    assert_eq!(result, expected_str);
}

#[test]
fn test_asi_name_parsed_correctly() {
    let array_name = [
        0x5a, 0x57, 0x4f, 0x20, 0x53, 0x55, 0x50, 0x45, 0x52, 0x20, 0x44, 0x55, 0x50, 0x45, 0x52,
        0x20, 0x74, 0x75, 0x72, 0x62, 0x6f,
    ];
    let expected_str = "ZWO SUPER DUPER turbo";
    let result = utils::asi_name_to_string(&array_name);

    assert_eq!(result, expected_str);
}

#[test]
fn test_video_format_parsed_correctly() {
    let array_name = [0, 1, 2, -1];
    let expected_str = "RAW8,RGB24,RAW16";
    let result = utils::int_to_image_type_array(&array_name);

    assert_eq!(result, expected_str);
}

#[test]
fn test_name_stops_at_sentinel_and_marks_non_ascii() {
    let array: [i8; 6] = [0x41, -3, 0x42, 0, 0x43, 0x44];
    assert_eq!(utils::asi_name_to_string_i8(&array), "A#B");
}

#[test]
fn test_id_decodes_or_reports_unknown() {
    let id: [u8; 8] = [b'a', b'b', b'c', 0, 0, 0, 0, 0];
    assert_eq!(utils::asi_id_to_string(&id), "abc");
    let bad: [u8; 4] = [0xff, 0xfe, 0x41, 0];
    assert_eq!(utils::asi_id_to_string(&bad), "UNKNOWN");
}

#[test]
fn test_image_type_names() {
    assert_eq!(utils::int_to_image_type(0), "RAW8");
    assert_eq!(utils::int_to_image_type(1), "RGB24");
    assert_eq!(utils::int_to_image_type(2), "RAW16");
    assert_eq!(utils::int_to_image_type(3), "Y8");
    assert_eq!(utils::int_to_image_type(-1), "END");
    assert_eq!(utils::int_to_image_type(7), "UNKNOWN");
}

#[test]
fn test_bayer_pattern_names() {
    assert_eq!(utils::bayer_pattern_to_str(&0), "RG");
    assert_eq!(utils::bayer_pattern_to_str(&1), "BG");
    assert_eq!(utils::bayer_pattern_to_str(&2), "GR");
    assert_eq!(utils::bayer_pattern_to_str(&3), "GB");
    assert_eq!(utils::bayer_pattern_to_str(&9), "UNKNOWN");
}

#[test]
fn test_fresh_camera_id_keeps_requested_and_draws_alphanumeric() {
    let wanted: [u8; 8] = *b"CAM42xyz";
    assert_eq!(utils::fresh_camera_id(Some(wanted)), wanted);

    let drawn = utils::fresh_camera_id(None);
    for b in drawn.iter() {
        assert!(b.is_ascii_alphanumeric(), "byte {} is not alphanumeric", b);
    }
}

#[test]
fn test_blank_id_detection() {
    assert!(utils::asi_id_is_blank(&[0; 8]));
    assert!(!utils::asi_id_is_blank(&[0, 0, 1, 0, 0, 0, 0, 0]));
}

#[test]
fn test_parse_i64_accepts_exactly_integers() {
    assert_eq!(numtext::parse_i64("75"), Some(75));
    assert_eq!(numtext::parse_i64("-42"), Some(-42));
    assert_eq!(numtext::parse_i64("0"), Some(0));
    assert_eq!(numtext::parse_i64("9223372036854775807"), Some(i64::MAX));
    assert_eq!(numtext::parse_i64("-9223372036854775808"), Some(i64::MIN));
    assert_eq!(numtext::parse_i64("9223372036854775808"), None);
    assert_eq!(numtext::parse_i64("99999999999999999999999"), None);
    assert_eq!(numtext::parse_i64(""), None);
    assert_eq!(numtext::parse_i64("-"), None);
    assert_eq!(numtext::parse_i64("1.5"), None);
    assert_eq!(numtext::parse_i64("abc"), None);
    assert_eq!(numtext::parse_i64("7é"), None);
}

#[test]
fn test_int_rendering() {
    assert_eq!(numtext::u64_to_string(0), "0");
    assert_eq!(numtext::u64_to_string(1080), "1080");
    assert_eq!(numtext::i64_to_string(-273), "-273");
    assert_eq!(numtext::i64_to_string(i64::MIN), "-9223372036854775808");
}

#[test]
fn test_parse_bool() {
    assert_eq!(numtext::parse_bool("true"), Some(true));
    assert_eq!(numtext::parse_bool("false"), Some(false));
    assert_eq!(numtext::parse_bool("True"), None);
    assert_eq!(numtext::parse_bool(""), None);
}

#[test]
fn test_binning_empty_and_zero_sentinel() {
    let empty: [i32; 0] = [];
    assert_eq!(utils::int_to_binning_str(&empty), "");
    assert_eq!(utils::int_to_binning_str(&[0, 2]), "");
}

#[test]
fn test_tenths_rendering() {
    assert_eq!(numtext::tenths_to_string(235), "23.5");
    assert_eq!(numtext::tenths_to_string(230), "23");
    assert_eq!(numtext::tenths_to_string(0), "0");
    assert_eq!(numtext::tenths_to_string(-51), "-5.1");
    assert_eq!(numtext::tenths_to_string(-200), "-20");
    assert_eq!(numtext::tenths_to_string(5), "0.5");
}
