//! The shared registry: channels, boards, and users.

use networkingirc::registry::{marker_line, Registry};
use networkingirc::user::User;
use networkingirc::IrcError;

fn user(name: &str) -> User {
    User::new(
        name.to_string(),
        "localhost".to_string(),
        "Some Body".to_string(),
        "127.0.0.1:6667".to_string(),
    )
}

#[test]
fn join_creates_exactly_once() {
    let mut reg = Registry::new();
    let a = reg.register_user(user("a"));
    let b = reg.register_user(user("b"));
    let c = reg.register_user(user("c"));
    // For a channel name never seen before, exactly the first join
    // observes created == true; membership is the union of all joiners,
    // and joining again adds nothing.
    assert!(reg.join_channel("fresh", a));
    assert!(!reg.join_channel("fresh", b));
    assert!(!reg.join_channel("fresh", c));
    assert!(!reg.join_channel("fresh", a));
    assert!(reg.is_member("fresh", a));
    assert!(reg.is_member("fresh", b));
    assert!(reg.is_member("fresh", c));
}

#[test]
fn leave_of_absent_user_is_no_op() {
    let mut reg = Registry::new();
    let a = reg.register_user(user("a"));
    reg.join_channel("room", a);
    // Neither an unknown user in a known channel nor any user in an
    // unknown channel causes an error or a change.
    reg.leave_channel("room", 999);
    reg.leave_channel("nowhere", a);
    assert!(reg.is_member("room", a));
    assert_eq!(reg.list_channels(), vec!["room".to_string()]);
    // A real leave removes exactly the membership.
    reg.leave_channel("room", a);
    assert!(!reg.is_member("room", a));
    assert_eq!(reg.list_channels(), vec!["room".to_string()]);
}

#[test]
fn board_append_order_is_preserved() {
    let mut reg = Registry::new();
    reg.ensure_board("chan");
    reg.post_message("chan", "L1").unwrap();
    reg.post_message("chan", "L2").unwrap();
    reg.post_message("chan", "L3").unwrap();
    let lines = reg.read_board("chan").unwrap();
    assert_eq!(
        lines,
        vec![
            marker_line("chan"),
            "L1".to_string(),
            "L2".to_string(),
            "L3".to_string()
        ]
    );
}

#[test]
fn marker_line_text() {
    assert_eq!(
        marker_line("Welcome"),
        "server => this is the beginning of: Welcome".to_string()
    );
}

#[test]
fn ensure_board_is_idempotent() {
    let mut reg = Registry::new();
    reg.ensure_board("chan");
    reg.post_message("chan", "kept").unwrap();
    reg.ensure_board("chan");
    let lines = reg.read_board("chan").unwrap();
    assert_eq!(lines, vec![marker_line("chan"), "kept".to_string()]);
}

#[test]
fn post_to_missing_board_fails() {
    let mut reg = Registry::new();
    let r = reg.post_message("nowhere", "lost");
    assert!(matches!(r, Err(IrcError::UnknownChannel)));
    assert!(reg.read_board("nowhere").is_none());
}

#[test]
fn user_ids_are_a_monotonic_counter() {
    let mut reg = Registry::new();
    let a = reg.register_user(user("a"));
    let b = reg.register_user(user("b"));
    // Two users with identical registration fields still get distinct
    // identifiers: identity never derives from the record's contents.
    let c = reg.register_user(user("a"));
    assert_eq!(a, 0);
    assert_eq!(b, 1);
    assert_eq!(c, 2);
    assert_eq!(reg.users_count(), 3);
}

#[test]
fn snapshots_list_in_creation_order() {
    let mut reg = Registry::new();
    let a = reg.register_user(user("alpha"));
    let mut nicked = user("beta");
    nicked.nick("bee".to_string());
    reg.register_user(nicked);
    reg.join_channel("one", a);
    reg.join_channel("two", a);
    assert_eq!(
        reg.list_channels(),
        vec!["one".to_string(), "two".to_string()]
    );
    assert_eq!(
        reg.list_users(),
        vec!["alpha".to_string(), "bee".to_string()]
    );
    // Topics: no channel here has a topic, so queries of existing
    // channels echo the name; unknown channels produce nothing.
    let queries = vec![
        "two".to_string(),
        "ghost".to_string(),
        "one".to_string(),
    ];
    assert_eq!(
        reg.list_topics(&queries),
        vec!["two".to_string(), "one".to_string()]
    );
}
