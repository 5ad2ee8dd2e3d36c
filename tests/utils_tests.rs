use juicebox_omega::utils::{chunk_file_name, chunk_file_names, sanitize_filename};

#[test]
fn test_sanitize_filename() {
    // basic alphanumeric with extension
    assert_eq!(sanitize_filename("hello.txt"), "hello.txt");

    // directory traversal attempts
    assert_eq!(sanitize_filename("../hello.txt"), "hello.txt");
    assert_eq!(sanitize_filename("foo/bar.txt"), "foobar.txt");
    assert_eq!(sanitize_filename("/etc/passwd"), "etcpasswd");

    // special characters
    assert_eq!(sanitize_filename("hello-world_123.txt"), "hello-world_123.txt");
    assert_eq!(sanitize_filename("hello@world.txt"), "helloworld.txt");

    // leading dots
    assert_eq!(sanitize_filename(".hidden"), "hidden");
    assert_eq!(sanitize_filename("..hidden"), "hidden");
}

fn is_safe(name: &str) -> bool {
    !name.starts_with('.')
        && name
            .chars()
            .all(|c| c.is_ascii_alphanumeric() || c == '-' || c == '_' || c == '.')
}

#[test]
fn sanitize_adversarial_names_are_single_safe_segments() {
    let inputs = [
        "../../etc/passwd",
        "/abs/path",
        "a/b/../c",
        "....",
        "",
        "..\\..\\windows\\system32",
        "\u{2215}etc\u{2215}passwd",
        "\u{ff0e}\u{ff0e}/secret",
        ".",
        "..",
        "./.././x",
    ];
    for input in inputs {
        let out = sanitize_filename(input);
        assert!(is_safe(&out), "{:?} gave {:?}", input, out);
        assert!(!out.contains('/') && !out.contains('\\'));
        assert!(out != "." && out != "..");
    }
    assert_eq!(sanitize_filename("../../etc/passwd"), "etcpasswd");
    assert_eq!(sanitize_filename("/abs/path"), "abspath");
    assert_eq!(sanitize_filename("a/b/../c"), "ab..c");
    assert_eq!(sanitize_filename("...."), "");
    assert_eq!(sanitize_filename(""), "");
    assert_eq!(sanitize_filename("\u{2215}etc\u{2215}passwd"), "etcpasswd");
    assert_eq!(sanitize_filename("\u{ff0e}\u{ff0e}/secret"), "secret");
}

#[test]
fn sanitize_is_idempotent() {
    let inputs = ["../hello.txt", "..a..b", "x/../.y", "ok-name_1.tar.gz", "....", "é.txt"];
    for input in inputs {
        let once = sanitize_filename(input);
        assert_eq!(sanitize_filename(&once), once);
    }
}

#[test]
fn sanitize_keeps_inner_and_trailing_dots() {
    assert_eq!(sanitize_filename("archive.tar.gz"), "archive.tar.gz");
    assert_eq!(sanitize_filename("name."), "name.");
    assert_eq!(sanitize_filename("a b\tc"), "abc");
}

#[test]
fn chunk_file_names_are_decimal() {
    assert_eq!(chunk_file_name(0), "chunk_0");
    assert_eq!(chunk_file_name(7), "chunk_7");
    assert_eq!(chunk_file_name(10), "chunk_10");
    assert_eq!(chunk_file_name(1234567), "chunk_1234567");
}

#[test]
fn assembly_names_are_in_ascending_order() {
    assert_eq!(chunk_file_names(3), vec!["chunk_0", "chunk_1", "chunk_2"]);
    assert!(chunk_file_names(0).is_empty());
    let names = chunk_file_names(12);
    assert_eq!(names[11], "chunk_11");
}
