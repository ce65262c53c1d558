use rusty_libc::start::{entry_offsets, rust_eh_personality};

#[test]
fn envp_follows_arguments() {
    assert_eq!(entry_offsets(0), (1, 2));
    assert_eq!(entry_offsets(3), (1, 5));
}

#[test]
fn personality_does_nothing() {
    rust_eh_personality();
}
