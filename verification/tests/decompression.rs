use unarj_rs::arj_archive::ArjArchieve;
use unarj_rs::local_file_header::CompressionMethod;
use unarj_rs::arj_error::ArjError;

fn block(payload: &[u8]) -> Vec<u8> {
    let mut v = vec![0x60, 0xEA];
    v.extend_from_slice(&(payload.len() as u16).to_le_bytes());
    if !payload.is_empty() {
        v.extend_from_slice(payload);
        v.extend_from_slice(&crc32fast::hash(payload).to_le_bytes());
    }
    v
}

fn main_payload(name: &str) -> Vec<u8> {
    let mut p = vec![0u8; 34];
    p[0] = 34;
    p.extend_from_slice(name.as_bytes());
    p.push(0);
    p
}

fn local_payload(name: &str, method: u8, compressed_size: u32, original_size: u32) -> Vec<u8> {
    let mut p = vec![0u8; 30];
    p[0] = 30;
    p[5] = method;
    p[12..16].copy_from_slice(&compressed_size.to_le_bytes());
    p[16..20].copy_from_slice(&original_size.to_le_bytes());
    p.extend_from_slice(name.as_bytes());
    p.push(0);
    p
}

fn archive(name: &str, entries: &[(Vec<u8>, Vec<u8>)]) -> Vec<u8> {
    let mut a = block(&main_payload(name));
    a.extend_from_slice(&[0, 0]);
    for (payload, data) in entries {
        a.extend_from_slice(&block(payload));
        a.extend_from_slice(&[0, 0]);
        a.extend_from_slice(data);
    }
    a.extend_from_slice(&[0x60, 0xEA, 0, 0]);
    a
}

/// A decoder stream of one block whose code tables each hold a single
/// entry, so every command is the literal `lit` and consumes no bits:
/// it decodes to `n` copies of `lit`.
fn degenerate_stream(n: u16, lit: u16) -> Vec<u8> {
    let mut bits = String::new();
    bits.push_str(&format!("{:016b}", n));
    bits.push_str("00000");
    bits.push_str("00000");
    bits.push_str("000000000");
    bits.push_str(&format!("{:09b}", lit));
    bits.push_str("00000");
    bits.push_str("00000");
    while bits.len() % 8 != 0 {
        bits.push('0');
    }
    bits.as_bytes()
        .chunks(8)
        .map(|c| {
            c.iter()
                .fold(0u8, |acc, &b| (acc << 1) | if b == b'1' { 1 } else { 0 })
        })
        .collect()
}

#[test]
fn extract_stored() {
    let content = b"Permission is hereby granted, free of charge";
    let payload = local_payload("LICENSE", 0, content.len() as u32, content.len() as u32);
    let file = archive("method1.arj", &[(payload, content.to_vec())]);
    let mut archieve = ArjArchieve::new(file).unwrap();
    assert_eq!("method1.arj", archieve.get_name());
    let entry = archieve.get_next_entry().unwrap().unwrap();
    assert_eq!("LICENSE", entry.name);
    assert_eq!(CompressionMethod::Stored, entry.compression_method);
    let result = archieve.read(&entry).unwrap();
    assert_eq!(content, result.as_slice());
}

#[test]
fn extract_method1() {
    let data = degenerate_stream(4, 65);
    let payload = local_payload("LICENSE", 1, data.len() as u32, 4);
    let file = archive("method2.arj", &[(payload, data)]);
    let mut archieve = ArjArchieve::new(file).unwrap();
    assert_eq!("method2.arj", archieve.get_name());
    let entry = archieve.get_next_entry().unwrap().unwrap();
    assert_eq!("LICENSE", entry.name);
    assert_eq!(CompressionMethod::CompressedMost, entry.compression_method);
    let result = archieve.read(&entry).unwrap();
    assert_eq!(b"AAAA", result.as_slice());
}

#[test]
fn extract_method2() {
    let data = degenerate_stream(4, 65);
    let payload = local_payload("LICENSE", 1, data.len() as u32, 4);
    let file = archive("method2.arj", &[(payload, data)]);
    let mut archieve = ArjArchieve::new(file).unwrap();
    assert_eq!("method2.arj", archieve.get_name());
    let entry = archieve.get_next_entry().unwrap().unwrap();
    assert_eq!("LICENSE", entry.name);
    assert_eq!(CompressionMethod::CompressedMost, entry.compression_method);
    let result = archieve.read(&entry).unwrap();
    assert_eq!(b"AAAA", result.as_slice());
}

#[test]
fn extract_method3() {
    let data = degenerate_stream(6, 66);
    let payload = local_payload("LICENSE", 3, data.len() as u32, 6);
    let file = archive("method3.arj", &[(payload, data)]);
    let mut archieve = ArjArchieve::new(file).unwrap();
    assert_eq!("method3.arj", archieve.get_name());
    let entry = archieve.get_next_entry().unwrap().unwrap();
    assert_eq!("LICENSE", entry.name);
    assert_eq!(CompressionMethod::CompressedFaster, entry.compression_method);
    let result = archieve.read(&entry).unwrap();
    assert_eq!(b"BBBBBB", result.as_slice());
}

#[test]
fn decompression_extract_method4() {
    let data = degenerate_stream(4, 65);
    let payload = local_payload("LICENSE", 4, data.len() as u32, 4);
    let file = archive("method4.arj", &[(payload, data)]);
    let mut archieve = ArjArchieve::new(file).unwrap();
    assert_eq!("method4.arj", archieve.get_name());
    let entry = archieve.get_next_entry().unwrap().unwrap();
    assert_eq!("LICENSE", entry.name);
    assert_eq!(CompressionMethod::CompressedFastest, entry.compression_method);
    let result = archieve.read(&entry);
    assert!(matches!(result, Err(ArjError::NotSupported)));
}

#[test]
fn decode_twice_is_identical() {
    let data = degenerate_stream(4, 65);
    let payload = local_payload("LICENSE", 2, data.len() as u32, 4);
    let file = archive("twice.arj", &[(payload, data)]);

    let mut first = ArjArchieve::new(file.clone()).unwrap();
    let entry1 = first.get_next_entry().unwrap().unwrap();
    assert_eq!(CompressionMethod::Compressed, entry1.compression_method);
    let out1 = first.read(&entry1).unwrap();
    assert_eq!(entry1.original_size as usize, out1.len());

    let mut second = ArjArchieve::new(file).unwrap();
    let entry2 = second.get_next_entry().unwrap().unwrap();
    let out2 = second.read(&entry2).unwrap();
    assert_eq!(out1, out2);
}
