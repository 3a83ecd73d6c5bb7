use lean_dup::digest::{hex_bytes, sha256_hex};
use lean_dup::lean_text::{first_token_match, parse_imports, short_name, split_lines, strip_comments_by_line};
use lean_dup::text::normalize;

#[test]
fn comments_are_blanked_line_by_line() {
    let lines = split_lines("a -- note\n/- block\nstill -/ b\nc");
    let stripped = strip_comments_by_line(&lines);
    assert_eq!(stripped.len(), 4);
    assert!(!stripped[0].contains("note"));
    assert!(!stripped[1].contains("block"));
    assert!(stripped[2].contains('b') && !stripped[2].contains("still"));
    assert_eq!(stripped[3], "c");
}

#[test]
fn imports_are_read_from_import_lines() {
    let lines = split_lines("import A.B\nimport C D\n-- import Hidden\ntheorem x : True := trivial\n");
    let imports = parse_imports(&strip_comments_by_line(&lines));
    assert!(imports.contains(&"A.B".to_owned()));
    assert!(imports.contains(&"C".to_owned()));
    assert!(imports.contains(&"D".to_owned()));
    assert!(!imports.contains(&"Hidden".to_owned()));
}

#[test]
fn token_matches_respect_name_boundaries() {
    let tokens = vec!["target".to_owned()];
    assert_eq!(first_token_match("theorem caller : True := target", &tokens), Some(26));
    assert_eq!(first_token_match("target_suffix", &tokens), None);
    assert_eq!(first_token_match("Tiny.target x", &vec!["Tiny.target".to_owned()]), Some(1));
    assert_eq!(short_name("Tiny.Sub.name"), "name");
}

#[test]
fn digests_and_normalized_text() {
    assert_eq!(
        sha256_hex("abc"),
        "ba7816bf8f01cfea414140de5dae2223b00361a396177a9cb410ff61f20015ad"
    );
    assert_eq!(hex_bytes(&[0x00, 0xff, 0x1a]), "00ff1a");
    assert_eq!(normalize("  a \t b\n c "), "a b c");
}
