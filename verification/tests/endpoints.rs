use tcp_tunnel::cli::{select_mode, Mode};
use tcp_tunnel::commu_client_securecrt::{CommuClientSideSecureCrt, UploadError};
use tcp_tunnel::commu_client_subprocess::CommuClientSideSubprocess;
use tcp_tunnel::commu_client_webterminal::CommuClientSideWebterminal;
use tcp_tunnel::proxy::LoggingWriter;
use tcp_tunnel::subprocess::{SubprocessClientSide, SubprocessServerSide};
use tcp_tunnel::websocket::{InboundStep, Incoming, Refusal};

fn args(v: &[&str]) -> Vec<String> {
    v.iter().map(|s| s.to_string()).collect()
}

#[test]
fn mode_from_command_line() {
    assert_eq!(select_mode(&args(&["prog", "subprocess_server"])), Some(Mode::SubprocessServer));
    assert_eq!(select_mode(&args(&["prog", "subprocess_client"])), Some(Mode::SubprocessClient));
    assert_eq!(select_mode(&args(&["prog", "other"])), None);
    assert_eq!(select_mode(&args(&["prog"])), None);
    assert_eq!(select_mode(&args(&["prog", "subprocess_server", "x"])), None);
}

#[test]
fn webterminal_forwards_non_empty_binary() {
    match CommuClientSideWebterminal::inbound_step(Incoming::Binary(vec![1, 2, 3])) {
        InboundStep::Forward(b) => assert_eq!(b, vec![1, 2, 3]),
        other => panic!("unexpected {:?}", other),
    }
    assert!(matches!(CommuClientSideWebterminal::inbound_step(Incoming::Binary(vec![])), InboundStep::Ignore));
    assert!(matches!(CommuClientSideWebterminal::inbound_step(Incoming::Ping(vec![9])), InboundStep::Ignore));
    assert!(matches!(CommuClientSideWebterminal::inbound_step(Incoming::Pong(vec![])), InboundStep::Ignore));
    assert!(matches!(CommuClientSideWebterminal::inbound_step(Incoming::Close), InboundStep::Finish));
    assert!(matches!(CommuClientSideWebterminal::inbound_step(Incoming::Broken), InboundStep::Finish));
    match CommuClientSideWebterminal::inbound_step(Incoming::Text("hi".to_string())) {
        InboundStep::Refuse(Refusal::UnexpectedText(t)) => assert_eq!(t, "hi"),
        other => panic!("unexpected {:?}", other),
    }
}

#[test]
fn subprocess_server_forwards_every_binary() {
    match SubprocessServerSide::inbound_step(Incoming::Binary(vec![])) {
        InboundStep::Forward(b) => assert!(b.is_empty()),
        other => panic!("unexpected {:?}", other),
    }
    match SubprocessServerSide::inbound_step(Incoming::Binary(b"ls\n".to_vec())) {
        InboundStep::Forward(b) => assert_eq!(b, b"ls\n".to_vec()),
        other => panic!("unexpected {:?}", other),
    }
    assert!(matches!(SubprocessServerSide::inbound_step(Incoming::Ping(vec![])), InboundStep::Ignore));
    assert!(matches!(SubprocessServerSide::inbound_step(Incoming::Pong(vec![])), InboundStep::Ignore));
    assert!(matches!(
        SubprocessServerSide::inbound_step(Incoming::Close),
        InboundStep::Refuse(Refusal::UnhandledClose)
    ));
    assert!(matches!(SubprocessServerSide::inbound_step(Incoming::Broken), InboundStep::Finish));
    assert!(matches!(
        SubprocessServerSide::inbound_step(Incoming::Text("t".to_string())),
        InboundStep::Refuse(Refusal::UnexpectedText(_))
    ));
}

#[test]
fn polling_root_uploads_nothing() {
    assert_eq!(CommuClientSideSecureCrt::parse_upload(b"/"), Ok(None));
}

#[test]
fn polling_path_carries_a_chunk() {
    assert_eq!(CommuClientSideSecureCrt::parse_upload(b"/aGVsbG8="), Ok(Some(b"hello".to_vec())));
    assert_eq!(CommuClientSideSecureCrt::parse_upload(b"//w=="), Ok(Some(vec![255u8])));
    assert_eq!(CommuClientSideSecureCrt::parse_upload(b"*"), Ok(Some(Vec::new())));
}

#[test]
fn polling_path_with_bad_base64_is_refused() {
    assert_eq!(CommuClientSideSecureCrt::parse_upload(b"/favicon.ico"), Err(UploadError::InvalidBase64));
    assert_eq!(CommuClientSideSecureCrt::parse_upload(b"/aGVsbG8"), Err(UploadError::InvalidBase64));
}

#[test]
fn response_body_is_the_waiting_chunk() {
    assert_eq!(CommuClientSideSecureCrt::response_body(Some(b"out".to_vec())), b"out".to_vec());
    assert_eq!(CommuClientSideSecureCrt::response_body(None), Vec::<u8>::new());
}

#[test]
fn endpoints_construct() {
    let _ = SubprocessClientSide::new();
    let _ = SubprocessServerSide::new();
    let _ = CommuClientSideSubprocess::new();
    let _ = CommuClientSideWebterminal::new();
    let _ = CommuClientSideSecureCrt::new();
}

#[test]
fn logging_writer_keeps_tag_and_inner() {
    let w = LoggingWriter::new("->visitor".to_owned(), vec![1u8]);
    assert_eq!(w.tag, "->visitor");
    assert_eq!(w.inner, vec![1u8]);
}

fn run_loop(step: fn(Incoming) -> InboundStep, msgs: Vec<Incoming>) -> Vec<Vec<u8>> {
    let mut forwarded = Vec::new();
    for m in msgs {
        match step(m) {
            InboundStep::Forward(b) => forwarded.push(b),
            InboundStep::Ignore => continue,
            InboundStep::Finish | InboundStep::Refuse(_) => break,
        }
    }
    forwarded
}

#[test]
fn webterminal_loop_forwards_in_order_until_close() {
    let msgs = vec![
        Incoming::Binary(b"a".to_vec()),
        Incoming::Ping(vec![]),
        Incoming::Binary(vec![]),
        Incoming::Binary(b"bc".to_vec()),
        Incoming::Close,
        Incoming::Binary(b"late".to_vec()),
    ];
    assert_eq!(
        run_loop(CommuClientSideWebterminal::inbound_step, msgs),
        vec![b"a".to_vec(), b"bc".to_vec()]
    );
}

#[test]
fn server_loop_forwards_in_order_until_end() {
    let msgs = vec![
        Incoming::Binary(vec![]),
        Incoming::Pong(vec![1]),
        Incoming::Binary(b"x".to_vec()),
        Incoming::Broken,
        Incoming::Binary(b"late".to_vec()),
    ];
    assert_eq!(
        run_loop(SubprocessServerSide::inbound_step, msgs),
        vec![Vec::new(), b"x".to_vec()]
    );
}
