use z6m_prover::path::{has_extension, join, stem_of, strip_extension};
use z6m_prover::text::{append_bool, append_hex8, chars_of, decimal_text, same_text};

#[test]
fn join_adds_one_separator() {
    assert_eq!(join("data", "blocks"), "data/blocks");
    assert_eq!(join("data/", "blocks"), "data/blocks");
    assert_eq!(join("", "blocks"), "blocks");
    assert_eq!(join("/", "blocks"), "/blocks");
}

#[test]
fn stems_are_read_like_the_standard_library_reads_them() {
    for path in [
        "a/b/input12.bin",
        "input12.bin",
        "input",
        ".hidden",
        "..",
        "a/..",
        ".",
        "",
        "/",
        "a/b/",
        "a/b/.",
        "a.b.c",
        "a/.b.c",
        "x.",
        "a//b.d//",
        "/tmp/ü.json",
        "a/./b.txt/././",
        "a/...",
        "...x",
    ] {
        let expected = std::path::Path::new(path)
            .file_stem()
            .and_then(|s| s.to_str())
            .unwrap_or("");
        assert_eq!(stem_of(path), expected, "{:?}", path);
        let ext = std::path::Path::new(path).extension().and_then(|s| s.to_str());
        for wanted in ["bin", "json", "c", "txt", "", "d", ".x"] {
            assert_eq!(has_extension(path, wanted), ext == Some(wanted), "{:?} {:?}", path, wanted);
        }
        let stripped = std::path::Path::new(path).with_extension("");
        assert_eq!(
            std::path::PathBuf::from(strip_extension(path)),
            stripped,
            "{:?}",
            path
        );
    }
}

#[test]
fn joining_agrees_with_the_standard_library() {
    for base in ["", "/", "a", "a/", "a/b", "/x/y/"] {
        for part in ["b", "24522000", "proof.bin"] {
            let expected = std::path::Path::new(base).join(part);
            assert_eq!(join(base, part), expected.to_str().unwrap());
        }
    }
}

#[test]
fn numbers_are_written_in_decimal() {
    for n in [0u64, 1, 9, 10, 99, 100, 24522000, u64::MAX] {
        assert_eq!(decimal_text(n), format!("{}", n));
    }
}

#[test]
fn words_are_written_in_hexadecimal() {
    for w in [0u32, 1, 0xff, 0xdeadbeef, 0x0123_4567, 0x89ab_cdef, u32::MAX] {
        let mut out = String::from("0x");
        append_hex8(&mut out, w);
        assert_eq!(out, format!("0x{:08x}", w));
    }
}

#[test]
fn truth_values_are_written_out() {
    let mut out = String::new();
    append_bool(&mut out, true);
    append_bool(&mut out, false);
    assert_eq!(out, "truefalse");
}

#[test]
fn texts_are_compared_by_their_characters() {
    assert!(same_text("bin", "bin"));
    assert!(!same_text("bin", "bi"));
    assert!(!same_text("bin", "bun"));
    assert_eq!(chars_of("aü"), vec!['a', 'ü']);
}
