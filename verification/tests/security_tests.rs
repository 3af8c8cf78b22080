use facepass::config::SecurityConfig;
use facepass::error::Error;
use facepass::security::{
    check_camera_access, check_security, contains_str, is_lid_closed, is_ssh_session, parse_u32, resolve_current_user_from_sources,
    split_fields, split_lines, uid_to_username, user_exists,
};

const PASSWD: &str = "root:x:0:0:root:/root:/bin/bash\n\
daemon:x:1:1:daemon:/usr/sbin:/usr/sbin/nologin\n\
alice:x:1000:1000:Alice,,,:/home/alice:/bin/bash\n";

#[test]
fn test_resolve_current_user_prefers_invoker_sources() {
    let user = resolve_current_user_from_sources(
        Some("sudo-user".to_string()),
        Some("doas-user".to_string()),
        Some("pkexec-user".to_string()),
        Some("real-user".to_string()),
        Some("env-user".to_string()),
        Some("logname-user".to_string()),
    );

    assert_eq!(user.as_deref(), Some("sudo-user"));
}

#[test]
fn test_resolve_current_user_falls_back_to_real_uid_before_env() {
    let user = resolve_current_user_from_sources(
        None,
        None,
        None,
        Some("real-user".to_string()),
        Some("env-user".to_string()),
        Some("logname-user".to_string()),
    );

    assert_eq!(user.as_deref(), Some("real-user"));
}

#[test]
fn test_resolve_current_user_skips_empty_names() {
    let user = resolve_current_user_from_sources(
        Some(String::new()),
        None,
        Some(String::new()),
        None,
        Some("env-user".to_string()),
        Some("logname-user".to_string()),
    );
    assert_eq!(user.as_deref(), Some("env-user"));
    let none = resolve_current_user_from_sources(None, None, None, None, None, None);
    assert_eq!(none, None);
}

#[test]
fn test_user_exists() {
    assert!(user_exists(PASSWD, "root"));
    assert!(!user_exists(PASSWD, "nonexistent_user_12345"));
}

#[test]
fn test_user_exists_matches_whole_name_only() {
    assert!(user_exists(PASSWD, "alice"));
    assert!(!user_exists(PASSWD, "alic"));
    assert!(!user_exists(PASSWD, "x"));
    assert!(!user_exists("", "root"));
}

#[test]
fn test_uid_to_username_reads_third_field() {
    assert_eq!(uid_to_username(PASSWD, 0).as_deref(), Some("root"));
    assert_eq!(uid_to_username(PASSWD, 1000).as_deref(), Some("alice"));
    assert_eq!(uid_to_username(PASSWD, 42), None);
    assert_eq!(uid_to_username("bad:x:notanumber:0\n", 0), None);
}

#[test]
fn test_split_lines_and_fields() {
    let lines = split_lines("a\r\nb\n\nc");
    assert_eq!(lines, vec!["a".to_string(), "b".to_string(), String::new(), "c".to_string()]);
    assert_eq!(split_lines("x\n"), vec!["x".to_string()]);
    assert!(split_lines("").is_empty());
    assert_eq!(split_fields("a::b"), vec!["a".to_string(), String::new(), "b".to_string()]);
    assert_eq!(split_fields(""), vec![String::new()]);
}

#[test]
fn test_parse_u32_bounds() {
    assert_eq!(parse_u32("4294967295"), Some(u32::MAX));
    assert_eq!(parse_u32("4294967296"), None);
    assert_eq!(parse_u32("+17"), Some(17));
    assert_eq!(parse_u32("-1"), None);
    assert_eq!(parse_u32(""), None);
}

#[test]
fn test_lid_detection() {
    let result = is_lid_closed(&Vec::new(), &Vec::new());
    assert!(!result);
}

#[test]
fn test_lid_state_files_decide_in_order() {
    let acpi = vec![None, Some("state:      closed\n".to_string()), Some("state: open".to_string())];
    assert!(is_lid_closed(&acpi, &Vec::new()));
    let acpi = vec![Some("state:      open\n".to_string()), Some("closed".to_string())];
    assert!(!is_lid_closed(&acpi, &vec!["closed".to_string()]));
    let acpi = vec![Some("unknown".to_string())];
    assert!(is_lid_closed(&acpi, &vec!["  closed\n".to_string()]));
    assert!(!is_lid_closed(&acpi, &vec!["open".to_string()]));
}

#[test]
fn test_contains_str() {
    assert!(contains_str("state: closed", "closed"));
    assert!(!contains_str("clo", "closed"));
    assert!(contains_str("anything", ""));
}

#[test]
fn test_check_security_rules() {
    let config = SecurityConfig { ignore_ssh: true, ignore_closed_lid: true, show_notification: false };
    assert_eq!(
        check_security(&config, true, true),
        Err(Error::SecurityCheck("Face authentication disabled for SSH sessions".to_string()))
    );
    assert_eq!(
        check_security(&config, false, true),
        Err(Error::SecurityCheck("Face authentication disabled when lid is closed".to_string()))
    );
    assert_eq!(check_security(&config, false, false), Ok(()));
    let lenient = SecurityConfig { ignore_ssh: false, ignore_closed_lid: false, show_notification: true };
    assert_eq!(check_security(&lenient, true, true), Ok(()));
}

#[test]
fn test_check_camera_access_errors() {
    assert_eq!(
        check_camera_access("/dev/video9", false, Ok(0o020660)),
        Err(Error::Camera("Camera device not found: /dev/video9".to_string()))
    );
    assert_eq!(
        check_camera_access("/dev/video0", true, Err("Permission denied".to_string())),
        Err(Error::Camera("Cannot access camera device /dev/video0: Permission denied".to_string()))
    );
    assert_eq!(
        check_camera_access("/tmp/file", true, Ok(0o100644)),
        Err(Error::Camera("Not a character device: /tmp/file".to_string()))
    );
    assert_eq!(check_camera_access("/dev/video0", true, Ok(0o020660)), Ok(()));
}

#[test]
fn test_ssh_detection() {
    assert!(!is_ssh_session(false, false, false));
    assert!(is_ssh_session(false, false, true));
    assert!(is_ssh_session(true, false, false));
}
