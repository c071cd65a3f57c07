use rippa::error::MakeMkvError;
use rippa::language_data::{find_utf16_terminator, language_data_ok, u8_to_u16, LanguageData};
use std::io::Write;

fn table(ids: &[u32], offsets: &[u32], tail: &[u8]) -> Vec<u8> {
    let mut d = (ids.len() as u32).to_le_bytes().to_vec();
    for id in ids {
        d.extend_from_slice(&id.to_le_bytes());
    }
    for o in offsets {
        d.extend_from_slice(&o.to_le_bytes());
    }
    d.extend_from_slice(tail);
    d
}

fn compress(data: &[u8]) -> Vec<u8> {
    let mut e = flate2::write::ZlibEncoder::new(Vec::new(), flate2::Compression::default());
    e.write_all(data).unwrap();
    e.finish().unwrap()
}

#[test]
fn table_entries() {
    let d = table(&[5, 7], &[5, 5], &[b'H', 0, b'i', 0, 0, 0]);
    assert!(language_data_ok(&d));
    let l = LanguageData::new(&d);
    assert_eq!(l.get(5), Some(String::new()));
    assert_eq!(l.get(7), Some(String::new()));
    assert_eq!(l.get(6), None);
    assert_eq!(l.table.len(), 2);
}

#[test]
fn table_bounds() {
    assert!(!language_data_ok(&[1, 0]));
    assert!(!language_data_ok(&table(&[5, 7], &[1], &[])));
    assert!(!language_data_ok(&table(&[5], &[100], &[])));
    assert!(!language_data_ok(&table(&[5], &[0x4000_0000], &[])));
    assert!(language_data_ok(&table(&[], &[], &[])));
}

#[test]
fn terminator_and_units() {
    assert_eq!(find_utf16_terminator(&[b'a', 0, 0, 0]), None);
    assert_eq!(find_utf16_terminator(&[]), None);
    assert_eq!(u8_to_u16(&[0x41, 0x00, 0x34, 0x12]), vec![0x41, 0x1234]);
    assert!(u8_to_u16(&[]).is_empty());
}

#[test]
fn language_response() {
    let raw = table(&[9], &[3], &[0, 0]);
    let packed = compress(&raw);
    let l = LanguageData::from_response(&[raw.len() as u32, packed.len() as u32], &packed).unwrap();
    assert_eq!(l.get(9), Some(String::new()));

    assert!(matches!(
        LanguageData::from_response(&[1], &packed),
        Err(MakeMkvError::InvalidResponse(_))
    ));
    assert!(matches!(
        LanguageData::from_response(&[raw.len() as u32, 1], &packed),
        Err(MakeMkvError::InvalidResponse(_))
    ));
    assert!(matches!(
        LanguageData::from_response(&[raw.len() as u32 + 1, packed.len() as u32], &packed),
        Err(MakeMkvError::InvalidResponse(_))
    ));
    assert!(matches!(
        LanguageData::from_response(&[3, 3], &[1, 2, 3]),
        Err(MakeMkvError::MakeMkv(_))
    ));
    let bad = table(&[9], &[100], &[]);
    let packed_bad = compress(&bad);
    assert!(matches!(
        LanguageData::from_response(&[bad.len() as u32, packed_bad.len() as u32], &packed_bad),
        Err(MakeMkvError::InvalidResponse(_))
    ));
}

fn error_text(r: Result<LanguageData, MakeMkvError>) -> (String, String) {
    match r {
        Err(MakeMkvError::InvalidResponse(m)) => ("InvalidResponse".to_string(), m),
        Err(MakeMkvError::MakeMkv(m)) => ("MakeMkv".to_string(), m),
        Err(e) => (format!("{:?}", e), String::new()),
        Ok(_) => ("Ok".to_string(), String::new()),
    }
}

#[test]
fn language_response_messages() {
    let raw = table(&[9], &[3], &[0, 0]);
    let packed = compress(&raw);
    assert_eq!(
        error_text(LanguageData::from_response(&[1], &packed)),
        (
            "InvalidResponse".to_string(),
            "Load language interface returned less than two args".to_string()
        )
    );
    assert_eq!(
        error_text(LanguageData::from_response(&[40, 1], &[7, 7, 7])),
        (
            "InvalidResponse".to_string(),
            "Returned data size 3 does not match expected data size 1, unpacked size: 40"
                .to_string()
        )
    );
    assert_eq!(
        error_text(LanguageData::from_response(
            &[raw.len() as u32 + 1, packed.len() as u32],
            &packed
        )),
        (
            "InvalidResponse".to_string(),
            "Decompressed data size does not match expected data size".to_string()
        )
    );
    let (kind, m) = error_text(LanguageData::from_response(&[3, 3], &[1, 2, 3]));
    assert_eq!(kind, "MakeMkv");
    assert!(m.starts_with("IO Error: "));
    assert!(m.len() > "IO Error: ".len());
    let bad = table(&[9], &[100], &[]);
    let packed_bad = compress(&bad);
    assert_eq!(
        error_text(LanguageData::from_response(
            &[bad.len() as u32, packed_bad.len() as u32],
            &packed_bad
        )),
        ("InvalidResponse".to_string(), "Language data is malformed".to_string())
    );
}
