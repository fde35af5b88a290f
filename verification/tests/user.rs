//! User records: signatures, their inverse, hashing, and channel
//! metadata.

use networkingirc::channel::ChannelMeta;
use networkingirc::user::User;

fn cardinal() -> User {
    User::new(
        "cardinal".to_string(),
        "hephaestus".to_string(),
        "Julian Lazaras".to_string(),
        "127.0.0.1:2323".to_string(),
    )
}

#[test]
fn sig_with_and_without_nick() {
    let mut u = cardinal();
    assert_eq!(u.sig(), "cardinal@hephaestus".to_string());
    u.nick("birdy".to_string());
    assert_eq!(u.sig(), "birdy!cardinal@hephaestus".to_string());
    assert_eq!(u.username(), "cardinal");
}

#[test]
fn parse_sig_inverts_sig() {
    assert_eq!(
        User::parse_sig("birdy!cardinal@hephaestus"),
        (
            Some("birdy".to_string()),
            "cardinal".to_string(),
            "hephaestus".to_string()
        )
    );
    assert_eq!(
        User::parse_sig("cardinal@hephaestus"),
        (None, "cardinal".to_string(), "hephaestus".to_string())
    );
    // Without an at sign the whole remainder is the username.
    assert_eq!(
        User::parse_sig("lonely"),
        (None, "lonely".to_string(), String::new())
    );
}

#[test]
fn gen_hash_is_structural() {
    let a = cardinal();
    let b = cardinal();
    assert_eq!(a.gen_hash(), b.gen_hash());
    let mut c = cardinal();
    c.nick("birdy".to_string());
    // The hash covers the nickname tag, so it is stable per record, not
    // per registration; identity comes from the registry's counter.
    assert_eq!(c.gen_hash(), c.gen_hash());
}

#[test]
fn channel_meta_membership() {
    let mut meta = ChannelMeta::new("room".to_string(), 7);
    assert!(meta.contains_user(7));
    assert!(!meta.contains_user(8));
    meta.join(8);
    meta.join(8);
    assert!(meta.contains_user(8));
    meta.leave(8);
    assert!(!meta.contains_user(8));
    // Leaving a user that was never a member changes nothing.
    meta.leave(99);
    assert!(meta.contains_user(7));
    assert_eq!(meta.name(), "room");
    assert!(meta.topic().is_none());
}
