use list_images::imgcache::{Cache, FileMeta};
use sha2::Digest;

fn expected_rel_path(size: u32, hashed: &[u8]) -> String {
    let mut input = Vec::new();
    input.extend_from_slice(&size.to_le_bytes());
    input.extend_from_slice(hashed);
    let digest = sha2::Sha224::digest(&input);
    let hex = hex::encode(digest);
    let (prefix, rest) = hex.split_at(2);
    format!("{}/{}", prefix, rest)
}

#[test]
fn entry_path_from_metadata() {
    let cache = Cache::new(5, String::from("/tmp/cache"));
    let meta = FileMeta { len: 1234, mtime: 1700000000, dev: 7, ino: 42 };
    let rel = cache.entry_rel_path("/pics/a.png", &Some(meta));

    let mut hashed = Vec::new();
    hashed.extend_from_slice(&1234u64.to_le_bytes());
    hashed.extend_from_slice(&(1700000000u64).to_le_bytes());
    hashed.extend_from_slice(&7u64.to_le_bytes());
    hashed.extend_from_slice(&42u64.to_le_bytes());
    assert_eq!(rel, expected_rel_path(5, &hashed));
}

#[test]
fn entry_path_negative_mtime() {
    let cache = Cache::new(5, String::from("/tmp/cache"));
    let meta = FileMeta { len: 1, mtime: -5, dev: 0, ino: 0 };
    let rel = cache.entry_rel_path("p", &Some(meta));

    let mut hashed = Vec::new();
    hashed.extend_from_slice(&1u64.to_le_bytes());
    hashed.extend_from_slice(&(-5i64 as u64).to_le_bytes());
    hashed.extend_from_slice(&0u64.to_le_bytes());
    hashed.extend_from_slice(&0u64.to_le_bytes());
    assert_eq!(rel, expected_rel_path(5, &hashed));
}

#[test]
fn entry_path_from_display_path() {
    // Without metadata the display path's bytes are hashed instead.
    let cache = Cache::new(3, String::from("/tmp/cache"));
    let rel = cache.entry_rel_path("/pics/b.png", &None);
    assert_eq!(rel, expected_rel_path(3, "/pics/b.png".as_bytes()));
}

#[test]
fn entry_path_shape() {
    let cache = Cache::new(3, String::from("/tmp/cache"));
    let rel = cache.entry_rel_path("x", &None);
    // 56 hex digits split 2 / 54, plus the separator.
    assert_eq!(rel.len(), 57);
    assert_eq!(rel.as_bytes()[2], b'/');
    assert!(rel.chars().all(|c| c == '/' || c.is_ascii_hexdigit()));
}

#[test]
fn changed_size_changes_key() {
    let cache = Cache::new(5, String::from("/tmp/cache"));
    let m1 = FileMeta { len: 100, mtime: 50, dev: 1, ino: 2 };
    let m2 = FileMeta { len: 101, mtime: 50, dev: 1, ino: 2 };
    let k1 = cache.entry_rel_path("same", &Some(m1));
    let k2 = cache.entry_rel_path("same", &Some(m2));
    assert_ne!(k1, k2);
}

#[test]
fn changed_mtime_changes_key() {
    let cache = Cache::new(5, String::from("/tmp/cache"));
    let m1 = FileMeta { len: 100, mtime: 50, dev: 1, ino: 2 };
    let m2 = FileMeta { len: 100, mtime: 51, dev: 1, ino: 2 };
    let k1 = cache.entry_rel_path("same", &Some(m1));
    let k2 = cache.entry_rel_path("same", &Some(m2));
    assert_ne!(k1, k2);
}

#[test]
fn changed_requested_size_changes_key() {
    let meta = FileMeta { len: 100, mtime: 50, dev: 1, ino: 2 };
    let k1 = Cache::new(5, String::from("/c")).entry_rel_path("same", &Some(meta));
    let k2 = Cache::new(6, String::from("/c")).entry_rel_path("same", &Some(meta));
    assert_ne!(k1, k2);
}

#[test]
fn unchanged_identity_keeps_key() {
    let cache = Cache::new(5, String::from("/tmp/cache"));
    let meta = FileMeta { len: 100, mtime: 50, dev: 1, ino: 2 };
    let k1 = cache.entry_rel_path("same", &Some(meta));
    let k2 = cache.entry_rel_path("same", &Some(meta));
    assert_eq!(k1, k2);
}

#[test]
fn decode_entry_rejects_garbage() {
    let cache = Cache::new(5, String::from("/tmp/cache"));
    assert!(cache.decode_entry(vec![1, 2, 3, 4, 5]).is_none());
}

#[test]
fn decode_entry_recovers_dimensions() {
    // A real JPEG payload: its dimensions come back from its own header.
    let img = image::RgbImage::from_fn(9, 4, |x, y| image::Rgb([x as u8, y as u8, 7]));
    let mut data = std::io::Cursor::new(Vec::new());
    img.write_to(&mut data, image::ImageFormat::Jpeg).unwrap();
    let payload = data.into_inner();

    let cache = Cache::new(5, String::from("/tmp/cache"));
    let t = cache.decode_entry(payload.clone()).unwrap();
    assert_eq!(t.width, 9);
    assert_eq!(t.height, 4);
    assert_eq!(t.pixels, payload);
}
