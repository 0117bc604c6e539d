use snapviewer::protocol::{ControllerSession, EventQueue, LinkState, SubmitAction};

fn session() -> ControllerSession {
    ControllerSession::new(String::from("alpha line\nBeta Line\ngamma"))
}

fn submit_line(s: &mut ControllerSession, line: &str) -> SubmitAction {
    s.input_changed(String::from(line));
    s.submit()
}

#[test]
fn at_most_one_in_flight() {
    let mut s = session();
    let first = submit_line(&mut s, "SELECT * FROM allocs");
    assert!(matches!(first, SubmitAction::Dispatch(ref c) if c == "SELECT * FROM allocs"));
    assert_eq!(s.state, LinkState::Pending);

    // a second submission before the reply must be refused locally and must
    // not produce a second outbound send
    let second = submit_line(&mut s, "SELECT 2");
    assert!(matches!(second, SubmitAction::Busy));
    assert_eq!(s.state, LinkState::Pending);
    let last = s.repl_lines.last().unwrap();
    assert!(last.contains("Busy - previous query still in-flight."));

    // once the reply is observed the link opens again
    s.sql_result(String::from("SQL execution OK"));
    assert_eq!(s.state, LinkState::Idle);
    let third = submit_line(&mut s, "SELECT 3");
    assert!(matches!(third, SubmitAction::Dispatch(_)));
}

#[test]
fn local_commands_never_touch_the_link() {
    let mut s = session();
    assert!(matches!(submit_line(&mut s, "--help"), SubmitAction::AnsweredLocally));
    assert!(matches!(submit_line(&mut s, "--schema"), SubmitAction::AnsweredLocally));
    assert_eq!(s.state, LinkState::Idle);
    assert!(matches!(submit_line(&mut s, "   "), SubmitAction::Kept));
    let n = s.repl_lines.len();
    assert!(matches!(submit_line(&mut s, "--clear"), SubmitAction::Cleared));
    assert_eq!(s.repl_lines.len(), 4);
    assert!(n > 4);
}

#[test]
fn prompt_lines_carry_a_clock_stamp() {
    let mut s = session();
    submit_line(&mut s, "--help");
    // [HH:MM:SS] > --help
    let prompt = &s.repl_lines[s.repl_lines.len() - 2];
    let bytes = prompt.as_bytes();
    assert_eq!(bytes[0], b'[');
    assert_eq!(bytes[9], b']');
    assert!(prompt.ends_with("> --help"));
}

#[test]
fn find_is_case_insensitive_both_ways() {
    let mut s = session();
    let action = submit_line(&mut s, "--find BETA");
    assert!(matches!(action, SubmitAction::AnsweredLocally));
    let reply = s.repl_lines.last().unwrap();
    assert!(reply.contains("Found 1 matching lines for 'BETA':"));
    assert!(reply.contains("Beta Line"));

    let action = submit_line(&mut s, "--find nothing-here");
    assert!(matches!(action, SubmitAction::AnsweredLocally));
    assert!(s.repl_lines.last().unwrap().contains("No matches found for 'nothing-here'."));

    let action = submit_line(&mut s, "--find");
    assert!(matches!(action, SubmitAction::AnsweredLocally));
    assert!(s.repl_lines.last().unwrap().contains("Usage: --find <pattern>"));

    let action = submit_line(&mut s, "--find line");
    assert!(matches!(action, SubmitAction::AnsweredLocally));
    assert!(s.repl_lines.last().unwrap().contains("Found 2 matching lines for 'line':"));
}

#[test]
fn history_recall_walks_both_ways() {
    let mut s = session();
    submit_line(&mut s, "--help");
    s.sql_result(String::from("x"));
    submit_line(&mut s, "--schema");
    assert_eq!(s.command_history, vec![String::from("--help"), String::from("--schema")]);
    s.history_up();
    assert_eq!(s.repl_input, "--schema");
    s.history_up();
    assert_eq!(s.repl_input, "--help");
    s.history_down();
    assert_eq!(s.repl_input, "--schema");
    s.history_down();
    assert_eq!(s.repl_input, "");
    // a repeated command is not duplicated
    submit_line(&mut s, "--schema");
    assert_eq!(s.command_history.len(), 2);
}

#[test]
fn event_queue_drops_when_full() {
    let mut q = EventQueue::new(2);
    assert!(q.push(String::from("a")));
    assert!(q.push(String::from("b")));
    assert!(!q.push(String::from("c")));
    let drained = q.drain();
    assert_eq!(drained, vec![String::from("a"), String::from("b")]);
    assert_eq!(q.items.len(), 0);
    assert!(q.push(String::from("d")));
}

#[test]
fn renderer_event_replaces_the_message_pane() {
    let mut s = session();
    s.renderer_event(String::from("Allocation #3"));
    assert_eq!(s.message_text, "Allocation #3");
    s.toggle_repl();
    assert!(!s.repl_visible);
}
