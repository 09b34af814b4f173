use echo_rust_agent_proxy::chat::{Message, Role};
use echo_rust_agent_proxy::commands::{
    blocked_log_entry, extract_command, plan_command, record_command_output, CommandPlan,
};
use echo_rust_agent_proxy::config::SecurityConfig;

#[test]
fn command_on_its_own_line() {
    assert_eq!(extract_command("COMMAND: ls -la"), Some("ls -la".to_string()));
}

#[test]
fn command_after_other_lines_and_indented() {
    let reply = "Let me look.\n   COMMAND:   cat notes.txt  \nCOMMAND: rm x\n";
    assert_eq!(extract_command(reply), Some("cat notes.txt".to_string()));
}

#[test]
fn command_with_crlf_line_end() {
    assert_eq!(extract_command("hi\r\nCOMMAND: pwd\r\n"), Some("pwd".to_string()));
}

#[test]
fn no_command_line() {
    assert_eq!(extract_command("The answer is 42.\nno COMMAND: here"), None);
    assert_eq!(extract_command(""), None);
    assert_eq!(extract_command("command: lower case does not count"), None);
}

#[test]
fn empty_command() {
    assert_eq!(extract_command("COMMAND:"), Some(String::new()));
}

#[test]
fn refused_command_is_reported_to_the_model() {
    let config = SecurityConfig { denylist: vec!["mkfs".to_string()] };
    let mut messages = vec![Message::new(Role::User, "format it".to_string())];
    match plan_command(&mut messages, "mkfs /dev/sdb", &config) {
        CommandPlan::Blocked { reason } => {
            assert_eq!(reason, "Command contains dangerous keyword: mkfs");
            assert_eq!(blocked_log_entry(&reason), "Blocked: Command contains dangerous keyword: mkfs");
        }
        CommandPlan::Run { .. } => panic!("should be refused"),
    }
    assert_eq!(messages.len(), 2);
    assert_eq!(messages[1].role, Role::Assistant);
    assert_eq!(messages[1].content, "Safety block: Command contains dangerous keyword: mkfs");
}

#[test]
fn allowed_command_is_trimmed_and_conversation_unchanged() {
    let config = SecurityConfig { denylist: vec![] };
    let mut messages = vec![];
    match plan_command(&mut messages, "  ls -la \n", &config) {
        CommandPlan::Run { command } => assert_eq!(command, "ls -la"),
        CommandPlan::Blocked { .. } => panic!("should run"),
    }
    assert!(messages.is_empty());
}

#[test]
fn command_output_becomes_a_tool_message() {
    let mut messages = vec![];
    record_command_output(&mut messages, " echo hi ", "hi\n", "");
    assert_eq!(messages.len(), 1);
    assert_eq!(messages[0].role, Role::Tool);
    assert_eq!(
        messages[0].content,
        "Tool output from COMMAND 'echo hi':\nSTDOUT:\nhi\n\nSTDERR:\n"
    );
}
