use keyword_index::extract::{collect_resources_into_string, join_resources};

fn crc32(data: &[u8]) -> u32 {
    let mut crc: u32 = 0xffff_ffff;
    for byte in data {
        crc ^= *byte as u32;
        for _ in 0..8 {
            crc = if crc & 1 == 1 { (crc >> 1) ^ 0xedb8_8320 } else { crc >> 1 };
        }
    }
    !crc
}

/// A zip archive with the given entries, stored without compression.
fn archive(entries: &[(&str, &[u8])]) -> Vec<u8> {
    let mut out: Vec<u8> = Vec::new();
    let mut directory: Vec<u8> = Vec::new();
    for (name, data) in entries {
        let offset = out.len() as u32;
        let crc = crc32(data);
        let size = data.len() as u32;
        out.extend_from_slice(&0x0403_4b50u32.to_le_bytes());
        out.extend_from_slice(&20u16.to_le_bytes());
        out.extend_from_slice(&0u16.to_le_bytes());
        out.extend_from_slice(&0u16.to_le_bytes());
        out.extend_from_slice(&0u16.to_le_bytes());
        out.extend_from_slice(&0x21u16.to_le_bytes());
        out.extend_from_slice(&crc.to_le_bytes());
        out.extend_from_slice(&size.to_le_bytes());
        out.extend_from_slice(&size.to_le_bytes());
        out.extend_from_slice(&(name.len() as u16).to_le_bytes());
        out.extend_from_slice(&0u16.to_le_bytes());
        out.extend_from_slice(name.as_bytes());
        out.extend_from_slice(data);

        directory.extend_from_slice(&0x0201_4b50u32.to_le_bytes());
        directory.extend_from_slice(&20u16.to_le_bytes());
        directory.extend_from_slice(&20u16.to_le_bytes());
        directory.extend_from_slice(&0u16.to_le_bytes());
        directory.extend_from_slice(&0u16.to_le_bytes());
        directory.extend_from_slice(&0u16.to_le_bytes());
        directory.extend_from_slice(&0x21u16.to_le_bytes());
        directory.extend_from_slice(&crc.to_le_bytes());
        directory.extend_from_slice(&size.to_le_bytes());
        directory.extend_from_slice(&size.to_le_bytes());
        directory.extend_from_slice(&(name.len() as u16).to_le_bytes());
        directory.extend_from_slice(&0u16.to_le_bytes());
        directory.extend_from_slice(&0u16.to_le_bytes());
        directory.extend_from_slice(&0u16.to_le_bytes());
        directory.extend_from_slice(&0u16.to_le_bytes());
        directory.extend_from_slice(&0u32.to_le_bytes());
        directory.extend_from_slice(&offset.to_le_bytes());
        directory.extend_from_slice(name.as_bytes());
    }
    let directory_offset = out.len() as u32;
    out.extend_from_slice(&directory);
    out.extend_from_slice(&0x0605_4b50u32.to_le_bytes());
    out.extend_from_slice(&0u16.to_le_bytes());
    out.extend_from_slice(&0u16.to_le_bytes());
    out.extend_from_slice(&(entries.len() as u16).to_le_bytes());
    out.extend_from_slice(&(entries.len() as u16).to_le_bytes());
    out.extend_from_slice(&(directory.len() as u32).to_le_bytes());
    out.extend_from_slice(&directory_offset.to_le_bytes());
    out.extend_from_slice(&0u16.to_le_bytes());
    out
}

#[test]
fn resources_are_stripped_and_joined() {
    let resources = vec![
        Some("<p>Hello</p>".to_string()),
        None,
        Some(" world".to_string()),
        Some("<br/>".to_string()),
    ];
    assert_eq!(join_resources(&resources), "Hello world");
    assert_eq!(join_resources(&Vec::new()), "");
    assert_eq!(join_resources(&vec![None, None]), "");
}

#[test]
fn text_of_an_archive() {
    let data = archive(&[
        ("mimetype", b"application/epub+zip"),
        ("chapter1.xhtml", b"<html><body><p>Call me Ishmael.</p></body></html>"),
        ("cover.png", &[0x89, 0x50, 0xff, 0xfe, 0x00, 0x80]),
        ("chapter2.xhtml", b"<p> Some years ago</p>"),
    ]);
    assert_eq!(
        collect_resources_into_string("book.epub", &data),
        Ok("application/epub+zipCall me Ishmael. Some years ago".to_string())
    );
}

#[test]
fn archive_without_entries_gives_empty_text() {
    let data = archive(&[]);
    assert_eq!(collect_resources_into_string("empty.epub", &data), Ok(String::new()));
}

#[test]
fn broken_archive_is_an_extraction_error() {
    let error = collect_resources_into_string("bad.epub", b"this is no archive").unwrap_err();
    assert_eq!(error.filename, "bad.epub");
    assert!(!error.cause.is_empty());
    let error = collect_resources_into_string("none.epub", b"").unwrap_err();
    assert_eq!(error.filename, "none.epub");
}
