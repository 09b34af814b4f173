use echo_rust_agent_proxy::config::SecurityConfig;
use echo_rust_agent_proxy::safety::{check_base_command, is_command_safe};

fn test_config() -> SecurityConfig {
    SecurityConfig {
        denylist: vec![
            "rm -rf".to_string(),
            "rm -r /".to_string(),
            "$(echo rm) -rf /tmp".to_string(),
            "mkfs".to_string(),
            "dd if=/dev/zero".to_string(),
        ],
    }
}

fn strings(v: &[&str]) -> Vec<String> {
    v.iter().map(|s| s.to_string()).collect()
}

#[test]
fn test_safe_command() {
    let config = test_config();
    assert!(is_command_safe("ls -la", &config).is_ok());
    assert!(is_command_safe("echo hello", &config).is_ok());
    assert!(is_command_safe("cat file.txt", &config).is_ok());
}

#[test]
fn test_direct_dangerous_command() {
    let config = test_config();
    assert!(is_command_safe("rm -rf /home", &config).is_err());
    assert!(is_command_safe("mkfs.ext4 /dev/sda", &config).is_err());
}

#[test]
fn test_obfuscated_command() {
    let config = test_config();
    assert!(is_command_safe(r#"rm"-rf" /home"#, &config).is_err());
    assert!(is_command_safe("r'm' -rf /tmp", &config).is_err());
    assert!(is_command_safe("$(echo rm) -rf /tmp", &config).is_err());
}

#[test]
fn test_command_chaining() {
    let config = test_config();
    assert!(is_command_safe("ls && rm -rf /tmp/test", &config).is_err());
    assert!(is_command_safe("echo hi; rm -r /", &config).is_err());
}

#[test]
fn test_base_command_blocking() {
    let config = test_config();
    assert!(is_command_safe("rm important.txt", &config).is_err());
    assert!(is_command_safe("dd if=/dev/zero of=/dev/sda", &config).is_err());
}

#[test]
fn deny_list_reason_names_the_first_matching_entry() {
    let config = test_config();
    assert_eq!(
        is_command_safe("RM -RF build", &config),
        Err("Command contains dangerous keyword: rm -rf".to_string())
    );
    assert_eq!(
        is_command_safe("sudo mkfs /dev/sdb", &config),
        Err("Command contains dangerous keyword: mkfs".to_string())
    );
}

#[test]
fn hard_coded_rm_patterns_are_refused_with_any_denylist() {
    let empty = SecurityConfig { denylist: vec![] };
    assert_eq!(
        is_command_safe("sudo rm notes.txt", &empty),
        Err("Dangerous rm command blocked for safety.".to_string())
    );
    assert_eq!(
        is_command_safe("ls; rm -rf / --no-preserve-root", &empty),
        Err("Dangerous rm command blocked for safety.".to_string())
    );
}

#[test]
fn disguised_program_with_risky_target_is_refused() {
    let empty = SecurityConfig { denylist: vec![] };
    assert_eq!(
        is_command_safe("echo `shred` /home/me/file", &empty),
        Err("Obfuscated dangerous command detected: shred".to_string())
    );
    // disguised but harmless target: falls through to the first-word check
    assert!(is_command_safe("echo shred now", &empty).is_ok());
}

#[test]
fn first_word_checks() {
    let empty = SecurityConfig { denylist: vec![] };
    assert_eq!(
        is_command_safe("'RM' notes", &empty),
        Err("Dangerous base command blocked: RM".to_string())
    );
    let custom = SecurityConfig { denylist: vec!["CURL".to_string()] };
    // the quoted word hides `curl` from the substring check but not from the word check
    assert_eq!(
        is_command_safe("c\"url\" example.com", &custom),
        Err("Base command 'curl' is blocked".to_string())
    );
    // an unclosed quote leaves the word check out
    assert!(is_command_safe("echo 'unclosed", &empty).is_ok());
}

#[test]
fn check_base_command_on_words() {
    let deny = strings(&["wget"]);
    assert_eq!(
        check_base_command(&strings(&["WGET", "x"]), &deny),
        Err("Base command 'WGET' is blocked".to_string())
    );
    assert_eq!(
        check_base_command(&strings(&["parted", "-l"]), &deny),
        Err("Dangerous base command blocked: parted".to_string())
    );
    assert_eq!(check_base_command(&strings(&["ls"]), &deny), Ok(()));
    assert_eq!(check_base_command(&strings(&[]), &deny), Ok(()));
}

#[test]
fn larger_denylist_still_refuses() {
    let small = SecurityConfig { denylist: strings(&["curl"]) };
    let large = SecurityConfig { denylist: strings(&["wget", "curl", "nc"]) };
    for cmd in ["curl http://x", "rm x", "sudo rm -f a", "echo $(rm) -r /tmp"] {
        assert!(is_command_safe(cmd, &small).is_err());
        assert!(is_command_safe(cmd, &large).is_err());
    }
}

#[test]
fn disguise_forms_with_flags() {
    let empty = SecurityConfig { denylist: vec![] };
    for cmd in ["echo $(rm) -r /tmp", "x=`rm` -f y", "wipefs-a /dev/sdb", "do 'dd' /root"] {
        assert!(is_command_safe(cmd, &empty).is_err(), "{}", cmd);
    }
    assert_eq!(
        is_command_safe("echo $(rm) -r /tmp", &empty),
        Err("Obfuscated dangerous command detected: rm".to_string())
    );
}

#[test]
fn ascii_case_does_not_change_the_verdict() {
    let config = test_config();
    let empty = SecurityConfig { denylist: vec![] };
    let pairs = [
        ("RM -RF /home", "rm -rf /home"),
        ("Echo Hi", "echo hi"),
        ("SUDO RM x", "sudo rm x"),
        ("Shred notes.txt", "shred notes.txt"),
        ("LS -LA", "ls -la"),
        ("WipeFs -a /dev/sdb", "wipefs -a /dev/sdb"),
    ];
    for (a, b) in pairs.iter() {
        assert_eq!(is_command_safe(a, &config).is_ok(), is_command_safe(b, &config).is_ok());
        assert_eq!(is_command_safe(a, &empty).is_ok(), is_command_safe(b, &empty).is_ok());
    }
    assert!(is_command_safe("RM -RF /home", &config).is_err());
    assert!(is_command_safe("Shred notes.txt", &empty).is_err());
    assert!(is_command_safe("Echo Hi", &config).is_ok());
}
