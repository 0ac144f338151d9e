use asi_rs::fits;

#[test]
fn test_encode_round_trip_blocks() {
    // 800 x 600 at 8 bits: output and header block are whole blocks,
    // pixel data begins right after the header block
    let buffer: Vec<u8> = (0..800u32 * 600).map(|i| (i % 251) as u8).collect();
    let out = fits::encode(&buffer, 800, 600, 8);

    assert_eq!(out.len() % 2880, 0);
    // the header records total 403 bytes, so the header block is one block
    assert_eq!(&out[2880..2880 + buffer.len()], buffer.as_slice());
    // everything between the END marker and the data is space padding
    for b in &out[403..2880] {
        assert_eq!(*b, 0x20);
    }
    // the tail padding is spaces too
    for b in &out[2880 + buffer.len()..] {
        assert_eq!(*b, 0x20);
    }
}

#[test]
fn test_encode_header_records_eight_bit() {
    let buffer: Vec<u8> = vec![7; 1920 * 1080];
    let out = fits::encode(&buffer, 1920, 1080, 8);

    assert_eq!(
        &out[0..80],
        b"SIMPLE  =                    T / file conforms to FITS standard                 "
    );
    assert_eq!(
        &out[80..160],
        b"BITPIX  =                    8 / number of bits per data pixel                  "
    );
    assert_eq!(
        &out[160..240],
        b"NAXIS   =                    2 / number of axis                                 "
    );
    assert_eq!(
        &out[240..320],
        b"NAXIS1  =                 1920 / length of data axis 1                          "
    );
    assert_eq!(
        &out[320..400],
        b"NAXIS2  =                 1080 / length of data axis 2                          "
    );
    assert_eq!(&out[400..403], b"END");
}

#[test]
fn test_encode_header_records_sixteen_bit_and_small_axes() {
    let buffer: Vec<u8> = vec![0; 800 * 600 * 2];
    let out = fits::encode(&buffer, 800, 600, 16);

    assert_eq!(
        &out[80..160],
        b"BITPIX  =                   16 / number of bits per data pixel                  "
    );
    // three-digit sizes take an extra leading space in the same field
    assert_eq!(
        &out[240..320],
        b"NAXIS1  =                  800 / length of data axis 1                          "
    );
    assert_eq!(
        &out[320..400],
        b"NAXIS2  =                  600 / length of data axis 2                          "
    );
}

#[test]
fn test_encode_already_aligned_data_gets_no_tail_padding() {
    // 2880 divides 1440 x 1080 at 2 bytes per pixel, so no tail pad
    let buffer: Vec<u8> = vec![1; 1440 * 1080 * 2];
    let out = fits::encode(&buffer, 1440, 1080, 16);
    assert_eq!(out.len(), 2880 + buffer.len());
}

#[test]
fn test_encode_small_axes_right_justified() {
    // a heavily binned small frame: the sizes still sit
    // right-justified in the same four-digit field
    let buffer: Vec<u8> = vec![9; 64 * 48];
    let out = fits::encode(&buffer, 64, 48, 8);
    assert_eq!(
        &out[240..320],
        b"NAXIS1  =                   64 / length of data axis 1                          "
    );
    assert_eq!(
        &out[320..400],
        b"NAXIS2  =                   48 / length of data axis 2                          "
    );
    assert_eq!(out.len() % 2880, 0);
}
