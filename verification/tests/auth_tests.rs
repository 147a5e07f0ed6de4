use opencodex::auth::{
    can_execute, classify_command, get_permission_level, is_path_within_sandbox, CommandRisk,
    PermissionLevel, DEFAULT_UPLOAD_LIMIT,
};

#[test]
fn test_classify_help_is_low() {
    assert_eq!(classify_command("/help"), CommandRisk::Low);
    assert_eq!(classify_command("/pwd"), CommandRisk::Low);
    assert_eq!(classify_command("/availabletools"), CommandRisk::Low);
}

#[test]
fn test_classify_down_is_medium() {
    assert_eq!(classify_command("/down somefile.txt"), CommandRisk::Medium);
    assert_eq!(classify_command("/allowedtools"), CommandRisk::Medium);
}

#[test]
fn test_classify_cd_is_high() {
    assert_eq!(classify_command("/cd /tmp"), CommandRisk::High);
    assert_eq!(classify_command("/allowed add Bash"), CommandRisk::High);
}

#[test]
fn test_classify_shell_is_high() {
    assert_eq!(classify_command("!ls -la"), CommandRisk::High);
    assert_eq!(classify_command("!rm -rf /"), CommandRisk::High);
}

#[test]
fn test_classify_stop_is_critical() {
    assert_eq!(classify_command("/stop"), CommandRisk::Critical);
    assert_eq!(classify_command("/clear"), CommandRisk::Critical);
    assert_eq!(classify_command("/start"), CommandRisk::Critical);
    assert_eq!(classify_command("/public"), CommandRisk::Critical);
}

#[test]
fn test_classify_ai_prompt_is_high() {
    assert_eq!(classify_command("explain this code"), CommandRisk::High);
}

#[test]
fn test_classify_mixed_case_command() {
    assert_eq!(classify_command("  /HELP  "), CommandRisk::Low);
    assert_eq!(classify_command("/Stop now"), CommandRisk::Critical);
}

#[test]
fn test_owner_can_execute_all() {
    assert!(can_execute(PermissionLevel::Owner, CommandRisk::Low));
    assert!(can_execute(PermissionLevel::Owner, CommandRisk::Medium));
    assert!(can_execute(PermissionLevel::Owner, CommandRisk::High));
    assert!(can_execute(PermissionLevel::Owner, CommandRisk::Critical));
}

#[test]
fn test_public_can_only_execute_low() {
    assert!(can_execute(PermissionLevel::Public, CommandRisk::Low));
    assert!(!can_execute(PermissionLevel::Public, CommandRisk::Medium));
    assert!(!can_execute(PermissionLevel::Public, CommandRisk::High));
    assert!(!can_execute(PermissionLevel::Public, CommandRisk::Critical));
}

#[test]
fn test_denied_cannot_execute_anything() {
    assert!(!can_execute(PermissionLevel::Denied, CommandRisk::Low));
    assert!(!can_execute(PermissionLevel::Denied, CommandRisk::Critical));
}

#[test]
fn test_get_permission_owner() {
    assert_eq!(get_permission_level(123, Some(123), false), PermissionLevel::Owner);
}

#[test]
fn test_get_permission_public() {
    assert_eq!(get_permission_level(456, Some(123), true), PermissionLevel::Public);
}

#[test]
fn test_get_permission_denied() {
    assert_eq!(get_permission_level(456, Some(123), false), PermissionLevel::Denied);
}

#[test]
fn test_get_permission_no_owner_imprints() {
    assert_eq!(get_permission_level(789, None, false), PermissionLevel::Owner);
}

#[test]
fn test_path_within_root() {
    assert!(is_path_within_sandbox("/srv/project/sub", "/srv/project"));
    assert!(is_path_within_sandbox("/srv/project", "/srv/project"));
    assert!(is_path_within_sandbox("/srv/project/a/b/c", "/"));
}

#[test]
fn test_path_outside_root() {
    assert!(!is_path_within_sandbox("/srv", "/srv/project"));
    assert!(!is_path_within_sandbox("/srv/projectx", "/srv/project"));
    assert!(!is_path_within_sandbox("/etc/passwd", "/srv/project"));
}

#[test]
fn test_upload_limit_is_50mb() {
    assert_eq!(DEFAULT_UPLOAD_LIMIT, 50 * 1024 * 1024);
}
