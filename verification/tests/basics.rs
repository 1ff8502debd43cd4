use anolisa::context::{Cli, CliContext, InstallMode};
use anolisa::order::{compare_bytes, Order};
use anolisa::paths::{absolute, dot_segment, join_path, parent, parts_of, under};
use anolisa::response::CliError;
use anolisa::text::{
    contains_word, eq_ignore_ascii_case, joined, number, parse_number, signed_number, split,
    trimmed, without_leading, without_trailing,
};

#[test]
fn the_context_is_a_snapshot_of_the_flags() {
    let cli = Cli {
        install_mode: InstallMode::System,
        prefix: Some("/p".to_string()),
        json: true,
        dry_run: false,
        verbose: true,
        quiet: false,
        no_color: true,
    };
    let c = CliContext::from_cli(&cli);
    assert_eq!(c.install_mode, InstallMode::System);
    assert_eq!(c.prefix.as_deref(), Some("/p"));
    assert!(c.json && !c.dry_run && c.verbose && !c.quiet && c.no_color);
    let d = c.clone();
    assert_eq!(d.prefix, c.prefix);
    assert_eq!(InstallMode::User.as_str(), "user");
    assert_eq!(InstallMode::System.as_str(), "system");
}

#[test]
fn errors_have_stable_codes() {
    assert_eq!(
        CliError::invalid("c", "r".to_string()).code(),
        "INVALID_ARGUMENT"
    );
    assert_eq!(
        CliError::runtime("c", "r".to_string()).code(),
        "EXECUTION_FAILED"
    );
    assert_eq!(
        CliError::not_implemented("c".to_string()).code(),
        "NOT_IMPLEMENTED"
    );
    let e = CliError::Degraded {
        command: "c".to_string(),
        reason: "r".to_string(),
    };
    assert_eq!((e.code(), e.reason().as_str()), ("DEGRADED", "r"));
}

#[test]
fn texts_are_trimmed_split_and_joined() {
    assert_eq!(trimmed("\u{3000} a b\t\n"), "a b");
    assert_eq!(split("/a//b", '/'), vec!["", "a", "", "b"]);
    assert_eq!(split("", '/'), vec![""]);
    assert_eq!(
        joined(&vec!["a".to_string(), "b".to_string()], ", "),
        "a, b"
    );
    assert_eq!(joined(&Vec::new(), ", "), "");
    assert_eq!(without_leading("//a/", '/'), "a/");
    assert_eq!(without_trailing("//a//", '/'), "//a");
    assert!(contains_word("a bc d", "bc"));
    assert!(!contains_word("a bc d", "b"));
    assert!(eq_ignore_ascii_case("True", "tRUE"));
    assert!(!eq_ignore_ascii_case("é", "É"));
}

#[test]
fn numbers_are_written_and_read_in_decimal() {
    assert_eq!(number(0), "0");
    assert_eq!(number(u64::MAX), u64::MAX.to_string());
    assert_eq!(signed_number(i32::MIN), i32::MIN.to_string());
    assert_eq!(parse_number("4294967295"), Some(u32::MAX));
    assert_eq!(parse_number("4294967296"), None);
    assert_eq!(parse_number("007"), Some(7));
    assert_eq!(parse_number(""), None);
    assert_eq!(parse_number("+1"), None);
}

#[test]
fn paths_are_read_part_by_part() {
    assert!(absolute("/a") && !absolute("a"));
    assert_eq!(parts_of("//a/./b/"), vec!["/", "a", "b"]);
    assert_eq!(parts_of("./a"), vec![".", "a"]);
    assert!(under("/a/b/c", "/a/b/"));
    assert!(!under("/a/bc", "/a/b"));
    assert!(dot_segment("/a/../b") && dot_segment("./a") && !dot_segment("/a/..b"));
    assert_eq!(join_path("/a", "b"), "/a/b");
    assert_eq!(join_path("/a/", "b"), "/a/b");
    assert_eq!(join_path("/a", "/b"), "/b");
    assert_eq!(parent("/a/b").as_deref(), Some("/a"));
    assert_eq!(parent("/a").as_deref(), Some("/"));
    assert_eq!(parent("/"), None);
    assert_eq!(parent("a").as_deref(), Some(""));
}

#[test]
fn bytes_are_compared_as_sequences() {
    assert!(matches!(
        compare_bytes(&b"a".to_vec(), &b"b".to_vec()),
        Order::Before
    ));
    assert!(matches!(
        compare_bytes(&b"ab".to_vec(), &b"a".to_vec()),
        Order::After
    ));
    assert!(matches!(
        compare_bytes(&b"a".to_vec(), &b"a".to_vec()),
        Order::Same
    ));
}
