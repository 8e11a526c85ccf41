use termhub::relay::{
    exit_event, fallback_banner, pipe_exit_code, pty_exit_code, relay_step, RelayStep, READ_CHUNK_SIZE,
};

#[test]
fn relay_emits_decoded_chunk_under_its_id() {
    let mut buf = [0u8; READ_CHUNK_SIZE];
    buf[..3].copy_from_slice(b"hi\n");
    match relay_step(&"a".to_string(), &buf, Some(3)) {
        RelayStep::Emit(e) => {
            assert_eq!(e.id, "a");
            assert_eq!(e.data, "hi\n");
        }
        RelayStep::Stop => panic!("expected output"),
    }
}

#[test]
fn relay_replaces_invalid_bytes() {
    let buf = [0x61u8, 0xff, 0x62];
    match relay_step(&"b".to_string(), &buf, Some(3)) {
        RelayStep::Emit(e) => assert_eq!(e.data, "a\u{fffd}b"),
        RelayStep::Stop => panic!("expected output"),
    }
}

#[test]
fn relay_stops_on_eof_and_error() {
    let buf = [0u8; 8];
    assert!(matches!(relay_step(&"c".to_string(), &buf, Some(0)), RelayStep::Stop));
    assert!(matches!(relay_step(&"c".to_string(), &buf, None), RelayStep::Stop));
}

#[test]
fn separate_sessions_keep_their_own_ids() {
    let buf = *b"from-a";
    let a = relay_step(&"a".to_string(), &buf, Some(6));
    let b = relay_step(&"b".to_string(), &buf, Some(6));
    match (a, b) {
        (RelayStep::Emit(x), RelayStep::Emit(y)) => {
            assert_eq!(x.id, "a");
            assert_eq!(y.id, "b");
        }
        _ => panic!("expected output"),
    }
}

#[test]
fn exit_codes() {
    assert_eq!(pty_exit_code(Some(7)), 7);
    assert_eq!(pty_exit_code(None), 1);
    assert_eq!(pipe_exit_code(Some(Some(7))), 7);
    assert_eq!(pipe_exit_code(Some(None)), 1);
    assert_eq!(pipe_exit_code(None), 1);
    let e = exit_event(&"t".to_string(), 7);
    assert_eq!((e.id.as_str(), e.exit_code), ("t", 7));
}

#[test]
fn fallback_banner_text() {
    let e = fallback_banner(&"f".to_string());
    assert_eq!(e.id, "f");
    assert_eq!(e.data, "[Terminal - fallback mode]\r\n");
}
