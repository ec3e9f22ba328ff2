use hdim::metadata::{get_ascii, get_camera_exif, get_date_time_exif, FieldValue};

#[test]
fn ascii_field_decodes_first_string() {
    let field = FieldValue::Ascii(vec![b"Canon".to_vec()]);
    assert_eq!(get_ascii(Some(&field)), Some("Canon".to_string()));
}

#[test]
fn ascii_field_ignores_later_strings() {
    let field = FieldValue::Ascii(vec![b"first".to_vec(), b"second".to_vec()]);
    assert_eq!(get_ascii(Some(&field)), Some("first".to_string()));
}

#[test]
fn ascii_field_rejects_invalid_utf8() {
    let field = FieldValue::Ascii(vec![vec![0xff, 0xfe]]);
    assert_eq!(get_ascii(Some(&field)), None);
}

#[test]
fn ascii_field_rejects_empty_and_other() {
    assert_eq!(get_ascii(Some(&FieldValue::Ascii(vec![]))), None);
    assert_eq!(get_ascii(Some(&FieldValue::Other)), None);
    assert_eq!(get_ascii(None), None);
}

/// A minimal little-endian TIFF block: one directory holding a Make field
/// ("Canon") and a DateTime field.
fn tiff_with_make_and_datetime() -> Vec<u8> {
    let mut d: Vec<u8> = Vec::new();
    // Header: little-endian magic, then the offset of the 0th IFD.
    d.extend_from_slice(b"II");
    d.extend_from_slice(&42u16.to_le_bytes());
    d.extend_from_slice(&8u32.to_le_bytes());
    // IFD: two entries.
    d.extend_from_slice(&2u16.to_le_bytes());
    // Entry: Make (0x010f), ASCII (2), 6 bytes at offset 38.
    d.extend_from_slice(&0x010fu16.to_le_bytes());
    d.extend_from_slice(&2u16.to_le_bytes());
    d.extend_from_slice(&6u32.to_le_bytes());
    d.extend_from_slice(&38u32.to_le_bytes());
    // Entry: DateTime (0x0132), ASCII (2), 20 bytes at offset 44.
    d.extend_from_slice(&0x0132u16.to_le_bytes());
    d.extend_from_slice(&2u16.to_le_bytes());
    d.extend_from_slice(&20u32.to_le_bytes());
    d.extend_from_slice(&44u32.to_le_bytes());
    // No further IFD.
    d.extend_from_slice(&0u32.to_le_bytes());
    // Values.
    d.extend_from_slice(b"Canon\0");
    d.extend_from_slice(b"2024:01:02 03:04:05\0");
    d
}

#[test]
fn camera_exif_from_parsed_metadata() {
    let exif = exif::Reader::new()
        .read_raw(tiff_with_make_and_datetime())
        .expect("parsing the TIFF block failed");
    let camera = get_camera_exif(&exif).unwrap();
    assert_eq!(camera.make, Some("Canon".to_string()));
    assert_eq!(camera.model, None);
    assert_eq!(camera.software, None);
}

#[test]
fn date_time_exif_from_parsed_metadata() {
    let exif = exif::Reader::new()
        .read_raw(tiff_with_make_and_datetime())
        .expect("parsing the TIFF block failed");
    let dt = get_date_time_exif(&exif).unwrap();
    assert_eq!(dt.modified, Some("2024:01:02 03:04:05".to_string()));
    assert_eq!(dt.original, None);
    assert_eq!(dt.digitized, None);
}
