use graphsync::filesystem::{is_ignored_name, is_temp_or_ignored, walk_step, WalkStep};
use graphsync::hashing::{hashes_equal, sha256_bytes, ContentHasher};
use graphsync::paths::PathError;

#[test]
fn ignores_editor_and_download_files() {
    for p in ["/r/.DS_Store", "/r/.#notes.md", "/r/a.tmp", "/r/a.md~", "/r/.a.swp", "/r/a.swx",
              "/r/x.lock", "/r/f.crdownload", "/r/f.part", "/r/f.partial", "/r/f.download",
              "/r/f.bak", "/r/f.temp", "/r/#auto#", "/"] {
        assert!(is_temp_or_ignored(p), "{p}");
    }
}

#[test]
fn keeps_ordinary_files() {
    for p in ["/r/pages/a.md", "/r/.gitkeep", "/r/.hidden", "/r/journal.txt", "/r/tmp"] {
        assert!(!is_temp_or_ignored(p), "{p}");
    }
}

#[test]
fn suffixes_compared_in_lower_case() {
    assert!(is_temp_or_ignored("/r/REPORT.TMP"));
    assert!(is_temp_or_ignored("/r/Archive.BAK"));
    assert!(is_ignored_name("X.TMP", "x.tmp"));
    assert!(!is_ignored_name("X.TMP", "X.TMP"));
}

#[test]
fn sha256_of_known_inputs() {
    assert_eq!(sha256_bytes(b""), "e3b0c44298fc1c149afbf4c8996fb92427ae41e4649b934ca495991b7852b855");
    assert_eq!(sha256_bytes(b"abc"), "ba7816bf8f01cfea414140de5dae2223b00361a396177a9cb410ff61f20015ad");
}

#[test]
fn hex_is_lower_case_high_nibble_first() {
    let h = sha256_bytes(&[0x00, 0x0f, 0xa5, 0xff]);
    assert_eq!(h.len(), 64);
    assert!(h.chars().all(|c| c.is_ascii_digit() || ('a'..='f').contains(&c)));
}

#[test]
fn hash_comparison_ignores_ascii_case() {
    let h = sha256_bytes(b"abc");
    assert!(hashes_equal(&h, &h.to_uppercase()));
    assert!(hashes_equal("AbC", "aBc"));
    assert!(!hashes_equal("abc", "abd"));
    assert!(!hashes_equal("abc", "ab"));
    assert!(!hashes_equal("é", "É"));
}

#[test]
fn streamed_hash_equals_whole_hash() {
    let mut h = ContentHasher::new();
    h.update(b"a");
    h.update(b"");
    h.update(b"bc");
    assert_eq!(h.finish(), "ba7816bf8f01cfea414140de5dae2223b00361a396177a9cb410ff61f20015ad");
    let data: Vec<u8> = (0..200_000u32).map(|i| (i % 251) as u8).collect();
    let mut h = ContentHasher::new();
    for chunk in data.chunks(65536) {
        h.update(chunk);
    }
    assert_eq!(h.finish(), sha256_bytes(&data));
    assert_eq!(ContentHasher::new().finish(), sha256_bytes(b""));
}

#[test]
fn walk_steps() {
    assert!(matches!(walk_step("/r", "/r/pages", true), WalkStep::Descend));
    assert!(matches!(walk_step("/r", "/r/a.tmp", false), WalkStep::Skip));
    assert!(matches!(walk_step("/r", "/r/pages/a.md", false), WalkStep::Record(p) if p == "pages/a.md"));
    assert!(matches!(walk_step("/r", "/r/x..y.md", false), WalkStep::Refuse(PathError::Traversal)));
    assert!(matches!(walk_step("/r", "/s/a.md", false), WalkStep::Refuse(PathError::OutsideRoot)));
}
