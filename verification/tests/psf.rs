use anotherps4::formats::psf::{Psf, PsfError, PSF_VERSION_1_1};

/// Build a minimal valid PSF binary for testing.
fn build_test_psf() -> Vec<u8> {
    let mut buf = Vec::new();
    buf.extend_from_slice(&[0x00, 0x50, 0x53, 0x46]);
    buf.extend_from_slice(&PSF_VERSION_1_1.to_le_bytes());
    let index_entries: u32 = 2;
    let index_table_size = index_entries * 16;
    let key_table_offset = 20 + index_table_size;
    let key_app_ver = b"APP_VER\0";
    let key_title = b"TITLE\0";
    let key_table_size = key_app_ver.len() + key_title.len();
    let data_table_offset = key_table_offset + key_table_size as u32;
    let data_app_ver = b"01.00\0";
    let data_title = b"Test Game\0";
    buf.extend_from_slice(&key_table_offset.to_le_bytes());
    buf.extend_from_slice(&data_table_offset.to_le_bytes());
    buf.extend_from_slice(&index_entries.to_le_bytes());
    buf.extend_from_slice(&0u16.to_le_bytes());
    buf.extend_from_slice(&0x0204u16.to_le_bytes());
    buf.extend_from_slice(&(data_app_ver.len() as u32).to_le_bytes());
    buf.extend_from_slice(&8u32.to_le_bytes());
    buf.extend_from_slice(&0u32.to_le_bytes());
    buf.extend_from_slice(&(key_app_ver.len() as u16).to_le_bytes());
    buf.extend_from_slice(&0x0204u16.to_le_bytes());
    buf.extend_from_slice(&(data_title.len() as u32).to_le_bytes());
    buf.extend_from_slice(&12u32.to_le_bytes());
    buf.extend_from_slice(&8u32.to_le_bytes());
    buf.extend_from_slice(key_app_ver);
    buf.extend_from_slice(key_title);
    buf.extend_from_slice(data_app_ver);
    buf.extend_from_slice(&[0u8; 2]);
    buf.extend_from_slice(data_title);
    buf.extend_from_slice(&[0u8; 2]);
    buf
}

#[test]
fn test_parse_psf() {
    let data = build_test_psf();
    let psf = Psf::parse(&data).expect("failed to parse PSF");

    assert_eq!(psf.title(), Some("Test Game"));
    assert_eq!(psf.app_version(), Some("01.00"));
}

#[test]
fn test_invalid_magic() {
    let data = vec![0xFF; 20];
    let result = Psf::parse(&data);
    assert!(result.is_err());
}

#[test]
fn psf_errors() {
    assert_eq!(Psf::parse(&[0xFF; 20]).unwrap_err(), PsfError::InvalidMagic(0xFFFF_FFFF));
    assert_eq!(Psf::parse(&[0x00, 0x50]).unwrap_err(), PsfError::Io);
    let mut data = build_test_psf();
    // An unknown format code in the first entry.
    data[22] = 0x99;
    data[23] = 0x99;
    assert_eq!(Psf::parse(&data).unwrap_err(), PsfError::UnknownFormat(0x9999));
}

#[test]
fn psf_missing_keys() {
    let psf = Psf::parse(&build_test_psf()).unwrap();
    assert_eq!(psf.title_id(), None);
    assert_eq!(psf.get_string("TITLE"), Some("Test Game"));
    assert_eq!(psf.get_integer("TITLE"), None);
}
