use filehost::ext::extension_of;
use filehost::paths::{stored_name, check_safe_name, join_under_root};
use filehost::idgen::IdGen;

#[test]
fn extension_from_ordinary_names() {
    assert_eq!(extension_of(Some(&b"report.pdf".to_vec())), b"pdf".to_vec());
    assert_eq!(extension_of(Some(&b"photo.png".to_vec())), b"png".to_vec());
    assert_eq!(extension_of(Some(&b"archive.tar.gz".to_vec())), b"gz".to_vec());
    assert_eq!(extension_of(Some(&b"dir/photo.jpeg".to_vec())), b"jpeg".to_vec());
}

#[test]
fn missing_or_unparsable_extension_defaults() {
    assert_eq!(extension_of(None), b"bin".to_vec());
    assert_eq!(extension_of(Some(&b"README".to_vec())), b"bin".to_vec());
    assert_eq!(extension_of(Some(&b".bashrc".to_vec())), b"bin".to_vec());
    assert_eq!(extension_of(Some(&b"trailing.".to_vec())), b"bin".to_vec());
    assert_eq!(extension_of(Some(&b"a.b/plain".to_vec())), b"bin".to_vec());
    assert_eq!(extension_of(Some(&b"dir/.hidden".to_vec())), b"bin".to_vec());
    assert_eq!(extension_of(Some(&b"".to_vec())), b"bin".to_vec());
}

#[test]
fn extension_with_separator_bytes_defaults() {
    assert_eq!(extension_of(Some(&b"weird.ex\\t".to_vec())), b"bin".to_vec());
    assert_eq!(extension_of(Some(&b"weird.ex\0t".to_vec())), b"bin".to_vec());
}

#[test]
fn stored_name_joins_id_and_extension() {
    assert_eq!(stored_name(b"ab12", b"png"), b"ab12.png".to_vec());
    assert_eq!(stored_name(b"Z9q0", b"bin"), b"Z9q0.bin".to_vec());
}

#[test]
fn safe_names_are_joined_under_the_root() {
    assert_eq!(
        join_under_root(b"./files", b"ab12.png"),
        Some(b"./files/ab12.png".to_vec())
    );
    assert_eq!(join_under_root(b"files", b"x.bin"), Some(b"files/x.bin".to_vec()));
}

#[test]
fn escaping_names_are_refused() {
    assert!(!check_safe_name(b""));
    assert!(!check_safe_name(b"."));
    assert!(!check_safe_name(b".."));
    assert!(!check_safe_name(b"../secret"));
    assert!(!check_safe_name(b".hidden"));
    assert!(!check_safe_name(b"a/b"));
    assert!(!check_safe_name(b"a\\b"));
    assert!(!check_safe_name(b"a\0b"));
    assert_eq!(join_under_root(b"./files", b"../etc/passwd"), None);
    assert_eq!(join_under_root(b"./files", b"sub/file"), None);
    assert!(check_safe_name(b"ab12.png"));
}

#[test]
fn generator_lengthens_codes_only_after_exhaustion() {
    // With one-character codes there are exactly 62 alphanumeric values; the
    // sixty-third code must be longer, and all codes stay pairwise distinct.
    let mut gen = IdGen::new(1);
    let mut seen: Vec<Vec<u8>> = Vec::new();
    for i in 0..100 {
        let id = gen.next_id();
        if i < 62 {
            assert_eq!(id.len(), 1);
        } else {
            assert_eq!(id.len(), 2);
        }
        assert!(!seen.contains(&id));
        seen.push(id);
    }
}

#[test]
fn generator_issues_distinct_codes_of_the_requested_length() {
    let mut gen = IdGen::new(4);
    let a = gen.next_id();
    let b = gen.next_id();
    let c = gen.next_id();
    assert_eq!(a.len(), 4);
    assert_eq!(b.len(), 4);
    assert_eq!(c.len(), 4);
    assert_ne!(a, b);
    assert_ne!(a, c);
    assert_ne!(b, c);
    assert!(a.iter().all(|b| b.is_ascii_alphanumeric()));
}
