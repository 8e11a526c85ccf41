use termhub::session::{BackendMode, CreatePtyOptions, SessionError, SessionRegistry};

fn opts(id: &str, cwd: &str) -> CreatePtyOptions {
    CreatePtyOptions { id: id.to_string(), cwd: cwd.to_string() }
}

#[test]
fn create_then_get_cwd() {
    let mut reg: SessionRegistry<u32> = SessionRegistry::new();
    assert!(reg.create(opts("t1", "/tmp"), BackendMode::RealPty, 1).is_none());
    assert_eq!(reg.get_cwd(&"t1".to_string()), Some("/tmp".to_string()));
    assert!(reg.contains(&"t1".to_string()));
}

#[test]
fn kill_unknown_is_noop_and_kill_known_removes() {
    let mut reg: SessionRegistry<u32> = SessionRegistry::new();
    reg.create(opts("a", "/a"), BackendMode::RealPty, 1);
    assert!(reg.kill(&"zzz".to_string()).is_none());
    assert_eq!(reg.get_cwd(&"a".to_string()), Some("/a".to_string()));
    let killed = reg.kill(&"a".to_string()).unwrap();
    assert_eq!(killed.handles, 1);
    assert_eq!(killed.cwd, "/a");
    assert!(matches!(reg.write_target(&"a".to_string()), Err(SessionError::NotFound)));
    assert!(reg.kill(&"a".to_string()).is_none());
}

#[test]
fn write_target_finds_the_right_session() {
    let mut reg: SessionRegistry<u32> = SessionRegistry::new();
    reg.create(opts("a", "/a"), BackendMode::RealPty, 10);
    reg.create(opts("b", "/b"), BackendMode::DegradedPipes, 20);
    assert_eq!(reg.write_target(&"a".to_string()).ok(), Some(&10));
    assert_eq!(reg.write_target(&"b".to_string()).ok(), Some(&20));
    assert_eq!(reg.get_cwd(&"b".to_string()), Some("/b".to_string()));
}

#[test]
fn resize_target_only_for_live_pty_sessions() {
    let mut reg: SessionRegistry<u32> = SessionRegistry::new();
    reg.create(opts("p", "/p"), BackendMode::RealPty, 1);
    reg.create(opts("d", "/d"), BackendMode::DegradedPipes, 2);
    assert_eq!(reg.resize_target(&"p".to_string()), Some(&1));
    assert_eq!(reg.resize_target(&"d".to_string()), None);
    assert_eq!(reg.resize_target(&"none".to_string()), None);
}

#[test]
fn restart_unknown_fails_known_takes_new_cwd() {
    let mut reg: SessionRegistry<u32> = SessionRegistry::new();
    assert!(matches!(reg.begin_restart(&"x".to_string()), Err(SessionError::NotFound)));
    let first = reg.next_generation();
    reg.create(opts("x", "/old"), BackendMode::RealPty, 1);
    let old = reg.begin_restart(&"x".to_string()).ok().unwrap();
    assert_eq!(old.generation, first);
    reg.create(opts("x", "/new"), BackendMode::RealPty, 2);
    assert_eq!(reg.get_cwd(&"x".to_string()), Some("/new".to_string()));
    // the old process's exit does not touch the new session
    assert!(reg.on_exit(&"x".to_string(), old.generation).is_none());
    assert_eq!(reg.get_cwd(&"x".to_string()), Some("/new".to_string()));
}

#[test]
fn exit_removes_the_watched_session() {
    let mut reg: SessionRegistry<u32> = SessionRegistry::new();
    let g = reg.next_generation();
    reg.create(opts("e", "/e"), BackendMode::RealPty, 7);
    let gone = reg.on_exit(&"e".to_string(), g).unwrap();
    assert_eq!(gone.handles, 7);
    assert_eq!(reg.get_cwd(&"e".to_string()), None);
    assert!(reg.on_exit(&"e".to_string(), g).is_none());
}

#[test]
fn create_on_live_id_hands_back_the_old_session() {
    let mut reg: SessionRegistry<u32> = SessionRegistry::new();
    reg.create(opts("s", "/one"), BackendMode::RealPty, 1);
    let displaced = reg.create(opts("s", "/two"), BackendMode::DegradedPipes, 2).unwrap();
    assert_eq!(displaced.handles, 1);
    assert_eq!(displaced.cwd, "/one");
    assert_eq!(reg.get_cwd(&"s".to_string()), Some("/two".to_string()));
    assert_eq!(reg.resize_target(&"s".to_string()), None);
}

#[test]
fn generations_increase() {
    let mut reg: SessionRegistry<u32> = SessionRegistry::new();
    assert_eq!(reg.next_generation(), 0);
    assert!(reg.has_capacity());
    reg.create(opts("a", "/"), BackendMode::RealPty, 0);
    reg.create(opts("b", "/"), BackendMode::RealPty, 0);
    assert_eq!(reg.next_generation(), 2);
    assert_eq!(reg.get(&"b".to_string()).unwrap().generation, 1);
}

#[test]
fn error_message_text() {
    assert_eq!(SessionError::NotFound.message(), "PTY instance not found");
}

#[test]
fn operations_on_one_session_leave_another_alone() {
    let mut reg: SessionRegistry<u32> = SessionRegistry::new();
    let g = reg.next_generation();
    reg.create(opts("a", "/a"), BackendMode::RealPty, 1);
    reg.create(opts("b", "/b"), BackendMode::RealPty, 2);
    reg.create(opts("a", "/a2"), BackendMode::RealPty, 3);
    assert!(reg.on_exit(&"a".to_string(), g).is_none());
    reg.kill(&"a".to_string());
    assert_eq!(reg.write_target(&"b".to_string()).ok(), Some(&2));
    assert_eq!(reg.resize_target(&"b".to_string()), Some(&2));
    assert_eq!(reg.get_cwd(&"b".to_string()), Some("/b".to_string()));
}
