use via::number::{parse_i64, parse_unsigned, signed_text, unsigned_text};
use via::order::comes_before;
use via::paths::ViaPaths;
use via::process::{check_run, check_step, Ran, Run, Step};
use via::text::{
    contains, join, next_word, pad, rsplit_once_char, split_char, split_once_char, trim,
    trim_end_text, trim_start_text,
};
use via::util::{format_ts, format_ts_at, normalize_secret_name, normalize_slug, now_ts};

#[test]
fn texts_are_trimmed_and_split() {
    assert_eq!(trim(" \u{a0}a b\u{3000}\n"), "a b");
    assert_eq!(trim_start_text("via-via-web", "via-"), "web");
    assert_eq!(trim_end_text("a::", ":"), "a");
    assert_eq!(split_once_char("a:b:c", ':'), Some(("a", "b:c")));
    assert_eq!(rsplit_once_char("a:b:c", ':'), Some(("a:b", "c")));
    assert_eq!(split_once_char("abc", ':'), None);
    assert_eq!(split_char("a,,b", ','), vec!["a", "", "b"]);
    assert_eq!(split_char("", ','), vec![""]);
    assert_eq!(next_word("  hostname  rig "), ("hostname", "  rig "));
    assert!(contains("abcabd", "abd"));
    assert!(contains("a", ""));
    assert!(!contains("", "a"));
}

#[test]
fn texts_are_padded_and_joined() {
    assert_eq!(pad("äb", 4), "äb  ");
    assert_eq!(pad("abcde", 4), "abcde");
    let parts = vec!["a".to_string(), "b".to_string()];
    assert_eq!(join(&parts, ", "), "a, b");
    assert_eq!(join(&vec![], ", "), "");
}

#[test]
fn numbers_are_written_and_read() {
    assert_eq!(signed_text(i64::MIN), "-9223372036854775808");
    assert_eq!(signed_text(0), "0");
    assert_eq!(unsigned_text(u64::MAX), "18446744073709551615");
    assert_eq!(parse_i64("-9223372036854775808"), Some(i64::MIN));
    assert_eq!(parse_i64("+7"), Some(7));
    assert_eq!(parse_i64("9223372036854775808"), None);
    assert_eq!(parse_i64(""), None);
    assert_eq!(parse_i64("-"), None);
    assert_eq!(parse_unsigned("65535", 65535), Some(65535));
    assert_eq!(parse_unsigned("65536", 65535), None);
    assert_eq!(parse_unsigned("x", 65535), None);
}

#[test]
fn names_have_an_order() {
    assert!(comes_before("a", "b"));
    assert!(comes_before("a", "aa"));
    assert!(!comes_before("b", "b"));
    assert!(comes_before("Z", "a"));
}

#[test]
fn slugs_and_secret_names_are_normal() {
    assert_eq!(normalize_slug("  My__Node..1 ").unwrap(), normalize_slug("my-node-1").unwrap());
    assert_eq!(normalize_secret_name("api key").unwrap(), "API_KEY");
    assert!(normalize_slug("---").is_err());
    assert!(normalize_slug("").is_err());
}

#[test]
fn times_are_shown() {
    assert_eq!(format_ts_at(0, 0), "1970-01-01 00:00:00 +0000");
    assert_eq!(format_ts_at(86_399, -3600 * 5), "1970-01-01 18:59:59 -0500");
    assert_eq!(format_ts_at(i64::MAX, 0), "9223372036854775807");
    assert!(format_ts(0).starts_with("19"));
    assert!(now_ts() > 1_600_000_000);
}

#[test]
fn paths_lie_under_the_home_directory() {
    let paths = ViaPaths::new(Some("/home/me".to_string())).unwrap();
    assert_eq!(paths.root, "/home/me/.via");
    assert_eq!(paths.mesh_key, "/home/me/.via/mesh.key");
    assert_eq!(paths.lux, "/home/me/.via/lux");
    assert!(ViaPaths::new(None).is_err());
    assert_eq!(paths.ensure()[0], "/home/me/.via");
}

#[test]
fn programs_say_what_became_of_them() {
    let run = Run::Program { program: "scp".to_string(), args: vec![] };
    let ended = |success: bool| Ran::Ended { success, status: "exit status: 1".to_string() };
    assert!(check_run(&run, &ended(true)).is_ok());
    assert_eq!(
        check_run(&run, &ended(false)).unwrap_err(),
        "scp failed with status exit status: 1"
    );
    assert_eq!(check_run(&run, &Ran::NotStarted).unwrap_err(), "failed to run scp");
    let shell = Run::Shell("false".to_string());
    assert_eq!(check_run(&shell, &ended(false)).unwrap_err(), "command failed: false");
    assert!(check_step(&Step { run: shell, required: false }, &ended(false)).is_ok());
}

#[test]
fn normalized_names_stay() {
    assert_eq!(normalize_secret_name("API_KEY").unwrap(), "API_KEY");
    assert_eq!(normalize_secret_name("my local.api--key").unwrap(), "MY_LOCAL_API_KEY");
    assert_eq!(normalize_secret_name("MY_LOCAL_API_KEY").unwrap(), "MY_LOCAL_API_KEY");
}
