use oxidizr_arch::config::aur_helpers;
use oxidizr_arch::config::security;
use oxidizr_arch::utils::worker::{aur_helper_candidates, backup_path, is_safe_path, is_valid_package_name};

#[test]
fn test_package_name_validation() {
    // Valid package names
    assert!(is_valid_package_name("firefox"));
    assert!(is_valid_package_name("lib32-glibc"));
    assert!(is_valid_package_name("python3.11"));
    assert!(is_valid_package_name("gcc_fortran"));
    assert!(is_valid_package_name("qt5+base"));

    // Invalid package names
    assert!(!is_valid_package_name("")); // Empty
    assert!(!is_valid_package_name("-malicious")); // Starts with dash
    assert!(!is_valid_package_name("package; rm -rf /")); // Command injection
    assert!(!is_valid_package_name("package$(whoami)")); // Command substitution
    assert!(!is_valid_package_name("package`id`")); // Backticks
    assert!(!is_valid_package_name("package|cat")); // Pipe
    assert!(!is_valid_package_name("package&")); // Background
    assert!(!is_valid_package_name("package>")); // Redirect
    assert!(!is_valid_package_name("package<")); // Redirect
    assert!(!is_valid_package_name("package\"")); // Quote
    assert!(!is_valid_package_name("package'")); // Quote
    assert!(!is_valid_package_name("package\n")); // Newline
    assert!(!is_valid_package_name("package\r")); // Carriage return
}

#[test]
fn test_path_traversal_validation() {
    // Valid paths
    assert!(is_safe_path("/usr/bin/ls"));
    assert!(is_safe_path("bin/ls"));
    assert!(is_safe_path("./bin/ls"));
    assert!(is_safe_path("/usr/lib/uutils/coreutils"));

    // Invalid paths - directory traversal attempts
    assert!(!is_safe_path("../etc/passwd"));
    assert!(!is_safe_path("/usr/bin/../../../etc/shadow"));
    assert!(!is_safe_path("../../root/.ssh/id_rsa"));
    assert!(!is_safe_path("/usr/bin/.."));
    assert!(!is_safe_path("bin/../../etc/passwd"));
}

#[test]
fn test_backup_path_format() {
    let backup = backup_path("/usr/bin/ls");
    assert!(backup.contains(".ls.oxidizr.bak"));
    let parent = std::path::Path::new(&backup).parent().unwrap().to_path_buf();
    assert!(parent == std::path::Path::new("/usr/bin"));
}

#[test]
fn test_package_name_length_limit() {
    let long_name = "a".repeat(security::MAX_PACKAGE_NAME_LENGTH + 1);
    assert!(!is_valid_package_name(&long_name));

    let max_name = "a".repeat(security::MAX_PACKAGE_NAME_LENGTH);
    assert!(is_valid_package_name(&max_name));
}

#[test]
fn test_path_length_limit() {
    let long_path = format!("{}/{}", "/usr", "a".repeat(security::MAX_PATH_LENGTH));
    assert!(!is_safe_path(&long_path));
}

#[test]
fn test_aur_helper_whitelist() {
    // Ensure only whitelisted helpers are allowed
    let helpers = aur_helper_candidates("");
    for helper in helpers {
        assert!(aur_helpers::DEFAULT_HELPERS.contains(&helper.as_str()));
    }
}

#[test]
fn test_no_shell_metacharacters_in_commands() {
    // Test that command building doesn't allow shell metacharacters
    let dangerous_chars = vec![";", "|", "&", ">", "<", "`", "$", "(", ")", "{", "}", "[", "]", "\\", "'", "\""];

    for ch in dangerous_chars {
        let bad_package = format!("package{}", ch);
        assert!(!is_valid_package_name(&bad_package), "Failed to reject package with {}", ch);
    }
}

#[test]
fn test_symlink_target_validation() {
    // Ensure symlink targets are validated
    let valid_targets = vec!["/usr/bin/coreutils", "/usr/lib/uutils/coreutils/ls", "/usr/lib/cargo/bin/find"];

    for target in valid_targets {
        assert!(is_safe_path(target), "Valid path rejected: {:?}", target);
    }

    let invalid_targets = vec!["../../../etc/passwd", "/etc/../etc/../etc/shadow"];

    for target in invalid_targets {
        assert!(!is_safe_path(target), "Invalid path accepted: {:?}", target);
    }
}
