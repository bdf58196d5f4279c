use deploy::config::SshConfig;
use deploy::config::settings_source_path;
use deploy::config::settings_target_path;
use deploy::text::i32_decimal;
use deploy::text::is_blank;
use deploy::text::str_has_substring;
use deploy::text::str_has_suffix;
use deploy::text::u64_decimal;
use deploy::text::vec_has_substring;

#[test]
fn the_endpoint_is_host_colon_port() {
    let ssh = SshConfig {
        host: "10.0.0.5".to_string(),
        port: 2222,
        username: "u".to_string(),
        password: "SECRET-REDACTED".to_string(),
        timeout_secs: None,
    };
    assert_eq!(ssh.endpoint(), "10.0.0.5:2222");
}

#[test]
fn decimal_rendering_is_exact() {
    assert_eq!(u64_decimal(0), "0");
    assert_eq!(u64_decimal(7), "7");
    assert_eq!(u64_decimal(407), "407");
    assert_eq!(u64_decimal(18446744073709551615), "18446744073709551615");
    assert_eq!(i32_decimal(0), "0");
    assert_eq!(i32_decimal(-1), "-1");
    assert_eq!(i32_decimal(i32::MIN), "-2147483648");
    assert_eq!(i32_decimal(i32::MAX), "2147483647");
}

#[test]
fn blankness_means_whitespace_only() {
    assert!(is_blank(""));
    assert!(is_blank(" \t\r\n"));
    assert!(!is_blank(" x "));
}

#[test]
fn substring_and_suffix_search_work_by_content() {
    assert!(str_has_substring("a/temp/b", "/temp/"));
    assert!(!str_has_substring("a/tempo/b", "/temp/"));
    assert!(str_has_substring("abc", ""));
    assert!(str_has_suffix("dir/md5_cache.json", "md5_cache.json"));
    assert!(!str_has_suffix("md5_cache.json.bak", "md5_cache.json"));
    assert!(vec_has_substring(&b"xx.DS_Storeyy".to_vec(), &b".DS_Store".to_vec()));
    assert!(!vec_has_substring(&b"xx.DS_Storyy".to_vec(), &b".DS_Store".to_vec()));
}

#[test]
fn settings_paths_follow_the_profile() {
    let home = "/opt/buildtool".to_string();
    assert_eq!(settings_target_path(&home), "/opt/buildtool/conf/settings.xml");
    assert_eq!(
        settings_source_path(&home, None),
        "/opt/buildtool/conf/settings/settings.xml"
    );
    let profile = "alpha".to_string();
    assert_eq!(
        settings_source_path(&home, Some(&profile)),
        "/opt/buildtool/conf/settings/settings-alpha.xml"
    );
}
