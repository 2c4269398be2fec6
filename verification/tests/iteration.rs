use unarj_rs::arj_archive::ArjArchieve;
use unarj_rs::local_file_header::CompressionMethod;

fn block(payload: &[u8]) -> Vec<u8> {
    let mut v = vec![0x60, 0xEA];
    v.extend_from_slice(&(payload.len() as u16).to_le_bytes());
    if !payload.is_empty() {
        v.extend_from_slice(payload);
        v.extend_from_slice(&crc32fast::hash(payload).to_le_bytes());
    }
    v
}

fn bare_block(payload: &[u8]) -> Vec<u8> {
    let mut v = (payload.len() as u16).to_le_bytes().to_vec();
    v.extend_from_slice(payload);
    v.extend_from_slice(&crc32fast::hash(payload).to_le_bytes());
    v
}

fn main_payload(name: &str) -> Vec<u8> {
    let mut p = vec![0u8; 34];
    p[0] = 34;
    p.extend_from_slice(name.as_bytes());
    p.push(0);
    p
}

fn local_payload(name: &str, method: u8, compressed_size: u32, original_size: u32) -> Vec<u8> {
    let mut p = vec![0u8; 30];
    p[0] = 30;
    p[5] = method;
    p[12..16].copy_from_slice(&compressed_size.to_le_bytes());
    p[16..20].copy_from_slice(&original_size.to_le_bytes());
    p.extend_from_slice(name.as_bytes());
    p.push(0);
    p
}

#[test]
fn three_entries_skipped_in_order() {
    // Three stored entries; skipping each must land exactly on the next,
    // and the walk must end right after the third — none skipped over,
    // none seen twice.
    let contents: [&[u8]; 3] = [b"first entry", b"2nd", b"the third one"];
    let names = ["alpha", "beta", "gamma"];
    let mut file = block(&main_payload("triple.arj"));
    file.extend_from_slice(&[0, 0]);
    for (name, content) in names.iter().zip(contents.iter()) {
        let payload = local_payload(name, 0, content.len() as u32, content.len() as u32);
        file.extend_from_slice(&block(&payload));
        file.extend_from_slice(&[0, 0]);
        file.extend_from_slice(content);
    }
    file.extend_from_slice(&[0x60, 0xEA, 0, 0]);

    let mut archieve = ArjArchieve::new(file).unwrap();
    assert_eq!("triple.arj", archieve.get_name());
    for (name, content) in names.iter().zip(contents.iter()) {
        let entry = archieve.get_next_entry().unwrap().unwrap();
        assert_eq!(*name, entry.name);
        assert_eq!(content.len() as u32, entry.compressed_size);
        archieve.skip(&entry).unwrap();
    }
    let end = archieve.get_next_entry().unwrap();
    assert!(end.is_none());
}

#[test]
fn extended_headers_are_drained() {
    // An entry followed by two extended headers: the chain's bytes must
    // not be double-counted, so the entry's data and the entry after it
    // are both found where they stand.
    let content = b"payload bytes";
    let second = b"tail";
    let mut file = block(&main_payload("chained.arj"));
    file.extend_from_slice(&bare_block(b"archive level extension"));
    file.extend_from_slice(&[0, 0]);

    let payload = local_payload("chained", 0, content.len() as u32, content.len() as u32);
    file.extend_from_slice(&block(&payload));
    file.extend_from_slice(&bare_block(b"first extension"));
    file.extend_from_slice(&bare_block(b"second extension"));
    file.extend_from_slice(&[0, 0]);
    file.extend_from_slice(content);

    let payload2 = local_payload("after", 0, second.len() as u32, second.len() as u32);
    file.extend_from_slice(&block(&payload2));
    file.extend_from_slice(&[0, 0]);
    file.extend_from_slice(second);
    file.extend_from_slice(&[0x60, 0xEA, 0, 0]);

    let mut archieve = ArjArchieve::new(file).unwrap();
    let entry = archieve.get_next_entry().unwrap().unwrap();
    assert_eq!("chained", entry.name);
    assert_eq!(CompressionMethod::Stored, entry.compression_method);
    let data = archieve.read(&entry).unwrap();
    assert_eq!(content, data.as_slice());
    let entry2 = archieve.get_next_entry().unwrap().unwrap();
    assert_eq!("after", entry2.name);
    let data2 = archieve.read(&entry2).unwrap();
    assert_eq!(second, data2.as_slice());
    assert!(archieve.get_next_entry().unwrap().is_none());
}

#[test]
fn leading_garbage_is_skipped() {
    // bytes before the magic pair are skipped by the resynchronization
    // scan, and a lone first magic byte right before the pair does not
    // hide it: the first occurrence of the pair wins
    let content = b"found me";
    let payload = local_payload("found", 0, content.len() as u32, content.len() as u32);
    let mut file = vec![0x11, 0x22, 0x33, 0x60, 0x61, 0x44, 0x60];
    file.extend_from_slice(&block(&main_payload("garbage.arj")));
    file.extend_from_slice(&[0, 0]);
    file.extend_from_slice(&block(&payload));
    file.extend_from_slice(&[0, 0]);
    file.extend_from_slice(content);
    file.extend_from_slice(&[0x60, 0xEA, 0, 0]);

    let mut archieve = ArjArchieve::new(file).unwrap();
    assert_eq!("garbage.arj", archieve.get_name());
    let entry = archieve.get_next_entry().unwrap().unwrap();
    assert_eq!("found", entry.name);
    let data = archieve.read(&entry).unwrap();
    assert_eq!(content, data.as_slice());
}

#[test]
fn entry_fields_are_reported_raw() {
    // sizes and the entry checksum come straight from the header fields
    let mut payload = local_payload("fields", 0, 7, 1000);
    payload[20..24].copy_from_slice(&0xDEADBEEFu32.to_le_bytes());
    let mut file = block(&main_payload("fields.arj"));
    file.extend_from_slice(&[0, 0]);
    file.extend_from_slice(&block(&payload));
    file.extend_from_slice(&[0, 0]);
    file.extend_from_slice(&[0u8; 7]);
    file.extend_from_slice(&[0x60, 0xEA, 0, 0]);

    let mut archieve = ArjArchieve::new(file).unwrap();
    let entry = archieve.get_next_entry().unwrap().unwrap();
    assert_eq!(7, entry.compressed_size);
    assert_eq!(1000, entry.original_size);
    assert_eq!(0xDEADBEEF, entry.original_crc);
    assert_eq!(CompressionMethod::Stored, entry.compression_method);
}
