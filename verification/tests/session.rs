//! The session state machine, driven end to end over plain strings.

use networkingirc::registry::{marker_line, Registry};
use networkingirc::session::{Session, SessionState};
use networkingirc::IrcError;

const ADDR: &str = "127.0.0.1:6667";

fn handshaken(reg: &mut Registry) -> Session {
    let mut sess = Session::new(ADDR.to_string());
    let step = sess.handle_line(reg, "USER cardinal hephaestus 127.0.0.1:2323 Julian");
    assert_eq!(step.outputs, vec![format!("PING {} :12345", ADDR)]);
    assert!(!step.close);
    let step = sess.handle_line(reg, &format!("PONG {} :12345", ADDR));
    assert!(!step.close);
    sess
}

#[test]
fn first_line_must_be_user() {
    let mut reg = Registry::new();
    let mut sess = Session::new(ADDR.to_string());
    let step = sess.handle_line(&mut reg, "NICK cardinal");
    assert_eq!(
        step.outputs,
        vec!["392 the first command should be USER \r\n".to_string()]
    );
    assert!(step.close);
    assert!(matches!(step.error, Some(IrcError::MissingUser)));
    assert_eq!(sess.state(), SessionState::Closed);
    // The user collection gained no entry.
    assert_eq!(reg.users_count(), 0);
}

#[test]
fn second_line_must_be_pong() {
    let mut reg = Registry::new();
    let mut sess = Session::new(ADDR.to_string());
    sess.handle_line(&mut reg, "USER cardinal hephaestus 127.0.0.1:2323 Julian");
    let step = sess.handle_line(&mut reg, "LIST");
    assert_eq!(
        step.outputs,
        vec!["392 the second command should be PONG \r\n".to_string()]
    );
    assert!(step.close);
    assert!(matches!(step.error, Some(IrcError::DoSWarning)));
    assert_eq!(sess.state(), SessionState::Closed);
}

#[test]
fn handshake_auto_joins_welcome() {
    let mut reg = Registry::new();
    let mut sess = Session::new(ADDR.to_string());
    let step = sess.handle_line(&mut reg, "USER cardinal hephaestus 127.0.0.1:2323 Julian");
    assert_eq!(step.outputs, vec![format!("PING {} :12345", ADDR)]);
    let step = sess.handle_line(&mut reg, &format!("PONG {} :12345", ADDR));
    // The session is auto-joined to Welcome and the seeded marker line
    // arrives before any other output.
    assert_eq!(sess.state(), SessionState::Active);
    assert_eq!(sess.current_channel(), "Welcome");
    assert!(reg.is_member("Welcome", sess.user_id()));
    assert!(!step.outputs.is_empty());
    assert_eq!(step.outputs[0], format!("{}\n", marker_line("Welcome")));
}

#[test]
fn free_text_goes_to_the_current_board() {
    let mut reg = Registry::new();
    let mut sess = handshaken(&mut reg);
    let step = sess.handle_line(&mut reg, "hello everyone");
    assert!(step.outputs.is_empty());
    assert!(!step.close);
    let lines = reg.read_board("Welcome").unwrap();
    assert_eq!(
        lines,
        vec![marker_line("Welcome"), "hello everyone".to_string()]
    );
}

#[test]
fn join_switches_and_replays_the_board() {
    let mut reg = Registry::new();
    let mut sess = handshaken(&mut reg);
    let step = sess.handle_line(&mut reg, "JOIN room1,room2");
    assert_eq!(sess.current_channel(), "room1");
    assert_eq!(step.outputs, vec![format!("{}\n", marker_line("room1"))]);
    assert!(reg.is_member("room1", sess.user_id()));
    assert!(reg.is_member("room2", sess.user_id()));
    // Delivery is pull: only re-joining replays new content.
    sess.handle_line(&mut reg, "a line");
    let step = sess.handle_line(&mut reg, "JOIN room1");
    assert_eq!(
        step.outputs,
        vec![
            format!("{}\n", marker_line("room1")),
            "a line\n".to_string()
        ]
    );
}

#[test]
fn list_and_names_snapshots() {
    let mut reg = Registry::new();
    let mut sess = handshaken(&mut reg);
    sess.handle_line(&mut reg, "JOIN room1");
    let step = sess.handle_line(&mut reg, "LIST");
    assert_eq!(
        step.outputs,
        vec!["Welcome\n".to_string(), "room1\n".to_string()]
    );
    // LIST with queries returns the topic, or the name when no topic is
    // set, for each existing channel queried.
    let step = sess.handle_line(&mut reg, "LIST room1,ghost");
    assert_eq!(step.outputs, vec!["room1\n".to_string()]);
    let step = sess.handle_line(&mut reg, "NAMES");
    assert_eq!(step.outputs, vec!["cardinal\n".to_string()]);
    // NAMES with a channel list is accepted but produces no output.
    let step = sess.handle_line(&mut reg, "NAMES room1");
    assert!(step.outputs.is_empty());
    assert!(!step.close);
}

#[test]
fn part_removes_membership_only() {
    let mut reg = Registry::new();
    let mut sess = handshaken(&mut reg);
    sess.handle_line(&mut reg, "JOIN room1");
    sess.handle_line(&mut reg, "posted before part");
    let step = sess.handle_line(&mut reg, "PART room1");
    assert!(step.outputs.is_empty());
    assert!(!reg.is_member("room1", sess.user_id()));
    // The board is unaffected by PART.
    let lines = reg.read_board("room1").unwrap();
    assert_eq!(
        lines,
        vec![marker_line("room1"), "posted before part".to_string()]
    );
}

#[test]
fn quit_closes_the_session() {
    let mut reg = Registry::new();
    let mut sess = handshaken(&mut reg);
    let step = sess.handle_line(&mut reg, "QUIT");
    assert!(step.close);
    assert!(step.error.is_none());
    assert_eq!(sess.state(), SessionState::Closed);
}

#[test]
fn parse_failure_is_fatal_only_during_handshake() {
    let mut reg = Registry::new();
    let mut sess = Session::new(ADDR.to_string());
    let step = sess.handle_line(&mut reg, ":prefixonly");
    assert!(step.close);
    assert!(matches!(step.error, Some(IrcError::CommandParse(_))));
    assert_eq!(sess.state(), SessionState::Closed);

    // Once active, a malformed line is dropped and the session goes on.
    let mut reg = Registry::new();
    let mut sess = handshaken(&mut reg);
    let step = sess.handle_line(&mut reg, ":prefixonly");
    assert!(!step.close);
    assert!(step.error.is_none());
    assert_eq!(sess.state(), SessionState::Active);
}

#[test]
fn other_recognized_commands_are_no_ops() {
    let mut reg = Registry::new();
    let mut sess = handshaken(&mut reg);
    let step = sess.handle_line(&mut reg, "PASS secret");
    assert!(step.outputs.is_empty());
    assert!(!step.close);
    assert!(step.error.is_none());
    assert_eq!(sess.state(), SessionState::Active);
}
