use echo_rust_agent_proxy::agent::{
    compose_system_prompt, opening_messages, resolve_home_dir, resolve_path, take_user_line,
    turn_step, SessionRequest, TurnAction, TurnEvent, UserInput,
};
use echo_rust_agent_proxy::chat::Role;

#[test]
fn home_dir_choice() {
    assert_eq!(resolve_home_dir(&Some("/work".to_string()), Some("/home/u".to_string())), "/work");
    assert_eq!(resolve_home_dir(&Some("   ".to_string()), Some("/home/u".to_string())), "/home/u");
    assert_eq!(resolve_home_dir(&None, None), "/home/user/Documents");
}

#[test]
fn paths_are_joined() {
    assert_eq!(resolve_path("/home/u", "ctx.txt"), "/home/u/ctx.txt");
    assert_eq!(resolve_path("/home/u/", "ctx.txt"), "/home/u/ctx.txt");
    assert_eq!(resolve_path("/home/u", "/etc/ctx.txt"), "/etc/ctx.txt");
    assert_eq!(resolve_path("", "db.sqlite"), "db.sqlite");
}

#[test]
fn system_prompt_composition() {
    assert_eq!(compose_system_prompt("  You are Echo.\n", "\nfacts\n"), "You are Echo.\n\nfacts");
    let m = opening_messages("p".to_string());
    assert_eq!(m.len(), 1);
    assert_eq!(m[0].role, Role::System);
}

#[test]
fn exit_words() {
    let mut m = vec![];
    assert!(matches!(take_user_line(&mut m, "  QuIt \n"), UserInput::Exit));
    assert!(matches!(take_user_line(&mut m, "exit"), UserInput::Exit));
    assert!(m.is_empty());
    match take_user_line(&mut m, "  exiting now \n") {
        UserInput::Prompt(t) => assert_eq!(t, "exiting now"),
        UserInput::Exit => panic!("not an exit word"),
    }
    assert_eq!(m.len(), 1);
    assert_eq!(m[0].content, "exiting now");
}

#[test]
fn turn_steps() {
    let mut m = vec![];
    match turn_step(&mut m, 1000, TurnEvent::Interrupted, None) {
        TurnAction::Stopped(t) => assert_eq!(t, "[Generation stopped by user]"),
        _ => panic!(),
    }
    assert!(m.is_empty());

    let reply = "<json>{\"name\":\"x\"}</json>\nCOMMAND: ls".to_string();
    assert!(matches!(turn_step(&mut m, 1000, TurnEvent::Reply(reply), None), TurnAction::RunJsonTool(j) if j == "{\"name\":\"x\"}"));
    assert_eq!(m.len(), 1);
    assert_eq!(m[0].role, Role::Assistant);

    let reply = "COMMAND: ls".to_string();
    let session = Some(SessionRequest::End { name: "dev".to_string() });
    assert!(matches!(turn_step(&mut m, 1000, TurnEvent::Reply(reply.clone()), session), TurnAction::EndSession(n) if n == "dev"));
    assert!(matches!(turn_step(&mut m, 1000, TurnEvent::Reply(reply), None), TurnAction::RunCommand(c) if c == "ls"));

    match turn_step(&mut m, 1000, TurnEvent::Reply("All done.".to_string()), None) {
        TurnAction::Answer { text, summarize } => {
            assert_eq!(text, "All done.");
            assert!(!summarize);
        }
        _ => panic!(),
    }
    match turn_step(&mut m, 10, TurnEvent::Reply("All done.".to_string()), None) {
        TurnAction::Answer { summarize, .. } => assert!(summarize),
        _ => panic!(),
    }
    assert_eq!(m.len(), 5);
}
