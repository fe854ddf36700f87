use foundry_local::version::{contains_colon, get_version, id_has_version_prefix, strip_version};
use foundry_local::text::u16_to_string;

#[test]
fn get_version_reads_the_trailing_suffix() {
    assert_eq!(get_version("model-x:3"), 3);
    assert_eq!(get_version("qwen2.5-0.5b-instruct-cuda-gpu:2"), 2);
    assert_eq!(get_version("Phi-4-mini-instruct-generic-cpu:1"), 1);
    assert_eq!(get_version("a:b:12"), 12);
}

#[test]
fn get_version_is_minus_one_when_absent_or_unparsable() {
    assert_eq!(get_version("model-without-version"), -1);
    // A colon-free id never contributes a version, numeric or not.
    assert_eq!(get_version("7"), -1);
    assert_eq!(get_version("2024"), -1);
    assert_eq!(get_version(""), -1);
    assert_eq!(get_version("m:"), -1);
    assert_eq!(get_version("m:abc"), -1);
    assert_eq!(get_version("m:1.5"), -1);
    assert_eq!(get_version("m:+"), -1);
}

#[test]
fn get_version_handles_signs_and_range() {
    assert_eq!(get_version("m:-5"), -5);
    assert_eq!(get_version("m:+7"), 7);
    assert_eq!(get_version("m:2147483647"), 2147483647);
    assert_eq!(get_version("m:2147483648"), -1);
    assert_eq!(get_version("m:-2147483648"), -2147483648);
    assert_eq!(get_version("m:-2147483649"), -1);
    assert_eq!(get_version("m:99999999999999999999"), -1);
}

#[test]
fn strip_version_keeps_everything_before_the_first_colon() {
    assert_eq!(strip_version("m:1"), "m");
    assert_eq!(strip_version("a:b:12"), "a");
    assert_eq!(strip_version("no-colon"), "no-colon");
    assert_eq!(strip_version(":1"), "");
}

#[test]
fn contains_colon_spots_the_separator() {
    assert!(contains_colon("m:1"));
    assert!(!contains_colon("m"));
    assert!(!contains_colon(""));
}

#[test]
fn version_prefix_requires_the_colon_right_after_the_key() {
    assert!(id_has_version_prefix("m:1", "m"));
    assert!(id_has_version_prefix("m:", "m"));
    assert!(!id_has_version_prefix("m", "m"));
    assert!(!id_has_version_prefix("mx:1", "m"));
    assert!(!id_has_version_prefix("n:1", "m"));
}

#[test]
fn u16_renders_in_decimal() {
    assert_eq!(u16_to_string(0), "0");
    assert_eq!(u16_to_string(7), "7");
    assert_eq!(u16_to_string(503), "503");
    assert_eq!(u16_to_string(65535), "65535");
}
