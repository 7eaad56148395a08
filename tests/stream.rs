use framed_proxy::proxy_logic::ProxyLogic;
use framed_proxy::stream_frame::{encode_frame, FrameError, FrameRead, FrameReader, MAX_MESSAGE_SIZE};
use framed_proxy::stream_session::{failure_report, SessionPhase, SessionStep, StreamSession};
use framed_proxy::tcp_headers::{CustomTcpHeadersProcessor, HEADERS_LENGTH};

fn frame(body: &[u8]) -> Vec<u8> {
    encode_frame(body).unwrap()
}

/// Feeds `bytes` to a fresh reader in chunks of `chunk` bytes, until it decides.
fn read_in_chunks(bytes: &[u8], chunk: usize) -> FrameRead {
    let mut reader = FrameReader::new();
    for piece in bytes.chunks(chunk) {
        match reader.push(piece) {
            FrameRead::Pending => continue,
            done => return done,
        }
    }
    reader.push(&[])
}

fn body_of(r: FrameRead) -> Vec<u8> {
    match r {
        FrameRead::Complete(b) => b,
        other => panic!("expected a frame, got {:?}", other),
    }
}

#[test]
fn add_headers_puts_big_endian_length_first() {
    assert_eq!(CustomTcpHeadersProcessor::add_headers(b"hi"), vec![0, 0, 0, 2, b'h', b'i']);
    assert_eq!(CustomTcpHeadersProcessor::add_headers(b""), vec![0, 0, 0, 0]);
    let long = vec![7u8; 0x0102];
    assert_eq!(&CustomTcpHeadersProcessor::add_headers(&long)[..4], &[0, 0, 1, 2]);
}

#[test]
fn parse_headers_splits_length_and_rest() {
    let (len, rest) = CustomTcpHeadersProcessor::parse_headers(vec![0x01, 0x02, 0x03, 0x04, 9, 8]);
    assert_eq!(len, 0x0102_0304);
    assert_eq!(rest, vec![9, 8]);
    let (len, rest) = CustomTcpHeadersProcessor::parse_headers(vec![0, 0, 0, 7]);
    assert_eq!(len, 7);
    assert!(rest.is_empty());
    assert_eq!(HEADERS_LENGTH, 4);
}

#[test]
fn frame_round_trip_any_chunking() {
    for size in [0usize, 1, 3, 4, 99, 100, 101, 5000, MAX_MESSAGE_SIZE] {
        let body: Vec<u8> = (0..size).map(|i| (i * 31 % 251) as u8).collect();
        let mut wire = frame(&body);
        wire.extend_from_slice(b"surplus");
        for chunk in [1usize, 2, 5, 100, 20000] {
            assert_eq!(body_of(read_in_chunks(&wire, chunk)), body, "size {} chunk {}", size, chunk);
        }
    }
}

#[test]
fn oversize_frame_is_refused_after_the_prefix() {
    let mut wire = vec![0x00, 0x00, 0x27, 0x11];
    wire.extend(std::iter::repeat(b'a').take(10_001));
    let mut reader = FrameReader::new();
    assert!(matches!(reader.push(&wire[..2]), FrameRead::Pending));
    match reader.push(&wire[2..4]) {
        FrameRead::Failed(FrameError::OversizeFrame(n)) => assert_eq!(n, 10_001),
        other => panic!("expected refusal, got {:?}", other),
    }
    assert!(matches!(read_in_chunks(&wire, 100), FrameRead::Failed(FrameError::OversizeFrame(10_001))));
}

#[test]
fn largest_allowed_frame_is_read() {
    let body = vec![1u8; 10_000];
    assert_eq!(body_of(read_in_chunks(&frame(&body), 100)).len(), 10_000);
}

#[test]
fn closed_connection_before_frame_end_is_short_read() {
    let wire = frame(b"Connect");
    match read_in_chunks(&wire[..6], 3) {
        FrameRead::Failed(e) => {
            assert_eq!(e, FrameError::ShortRead);
            assert_eq!(e.message(), "Issue with the TCP read, got 0 bytes");
        }
        other => panic!("expected short read, got {:?}", other),
    }
    let mut reader = FrameReader::new();
    assert!(matches!(reader.push(&[]), FrameRead::Failed(FrameError::ShortRead)));
}

#[test]
fn frame_error_texts() {
    assert_eq!(
        FrameError::OversizeFrame(10_001).message(),
        "The maximum message size is 10000, you gave bigger message"
    );
    assert_eq!(FrameError::Oversize.message(), "Maximum allowed length is 4294967295");
}

fn reply_body(step: SessionStep) -> Vec<u8> {
    match step {
        SessionStep::Reply(b) | SessionStep::Finish(b) => b,
        other => panic!("expected a reply, got {:?}", other),
    }
}

/// Reads one frame from the client's bytes and hands its body to the session.
fn deliver(session: &mut StreamSession, wire: &[u8]) -> SessionStep {
    let body = body_of(read_in_chunks(wire, 100));
    session.on_frame(&body)
}

#[test]
fn stream_happy_path() {
    let mut session = StreamSession::new();
    let connect = [&[0u8, 0, 0, 7][..], b"Connect"].concat();
    let step = deliver(&mut session, &connect);
    assert_eq!(frame(&reply_body(step)), [&[0u8, 0, 0, 6][..], b"Accept"].concat());
    assert_eq!(session.current_phase(), SessionPhase::Request);

    let get = [&[0u8, 0, 0, 0x0e][..], b"GET:http://x/y"].concat();
    let url = match deliver(&mut session, &get) {
        SessionStep::Fetch(u) => u,
        other => panic!("expected a fetch, got {:?}", other),
    };
    assert_eq!(url, "http://x/y");
    assert!(ProxyLogic::is_success(200));
    let content = ProxyLogic::content_to_send(&url, 200, b"hi".to_vec());
    let step = session.on_content(Ok(content));
    assert_eq!(frame(&reply_body(step)), [&[0u8, 0, 0, 2][..], b"hi"].concat());
    assert_eq!(session.current_phase(), SessionPhase::Farewell);

    let bye = [&[0u8, 0, 0, 3][..], b"BYE"].concat();
    match deliver(&mut session, &bye) {
        SessionStep::Finish(b) => assert_eq!(frame(&b), [&[0u8, 0, 0, 3][..], b"BYE"].concat()),
        other => panic!("expected the farewell, got {:?}", other),
    }
    assert_eq!(session.current_phase(), SessionPhase::Closed);
}

#[test]
fn stream_non_200_sends_error_page() {
    let mut session = StreamSession::new();
    deliver(&mut session, &frame(b"Connect"));
    let url = match deliver(&mut session, &frame(b"GET:http://x/y")) {
        SessionStep::Fetch(u) => u,
        other => panic!("expected a fetch, got {:?}", other),
    };
    assert!(!ProxyLogic::is_success(404));
    let content = ProxyLogic::content_to_send(&url, 404, b"ignored".to_vec());
    let page = String::from_utf8(reply_body(session.on_content(Ok(content)))).unwrap();
    assert!(page.contains("<title>Error 404 Not Found</title>"));
    assert!(page.contains("Error 404"));
    assert!(page.contains("http://x/y"));
    assert!(page.contains("<title>Error 404 Not Found</title>"));
    assert!(page.contains("Received 404 Not Found error from http://x/y url"));
}

#[test]
fn stream_bad_greeting() {
    let mut session = StreamSession::new();
    let hello = [&[0u8, 0, 0, 5][..], b"HELLO"].concat();
    match deliver(&mut session, &hello) {
        SessionStep::Abort(b) => assert_eq!(b, b"Error occurred: Expected connect message\n".to_vec()),
        other => panic!("expected an abort, got {:?}", other),
    }
    assert_eq!(session.current_phase(), SessionPhase::Closed);
}

#[test]
fn stream_bad_request_and_bad_farewell() {
    let mut session = StreamSession::new();
    deliver(&mut session, &frame(b"Connect"));
    match deliver(&mut session, &frame(b"POST:http://x")) {
        SessionStep::Abort(b) => assert_eq!(
            b,
            b"Error occurred: Invalid message structure! Use GET:URL format.\n".to_vec()
        ),
        other => panic!("expected an abort, got {:?}", other),
    }

    let mut session = StreamSession::new();
    deliver(&mut session, &frame(b"Connect"));
    deliver(&mut session, &frame(b"GET:http://x"));
    session.on_content(Ok(b"body".to_vec()));
    match deliver(&mut session, &frame(b"BYE!")) {
        SessionStep::Abort(b) => assert_eq!(b, b"Error occurred: Expected bye message\n".to_vec()),
        other => panic!("expected an abort, got {:?}", other),
    }
}

#[test]
fn stream_fetch_failure_is_reported() {
    let mut session = StreamSession::new();
    deliver(&mut session, &frame(b"Connect"));
    deliver(&mut session, &frame(b"GET:http://x"));
    match session.on_content(Err("connection refused".to_string())) {
        SessionStep::Abort(b) => assert_eq!(b, b"Error occurred: connection refused\n".to_vec()),
        other => panic!("expected an abort, got {:?}", other),
    }
    assert_eq!(failure_report("x"), b"Error occurred: x\n".to_vec());
}

#[test]
fn greeting_with_invalid_utf8_is_refused() {
    let mut session = StreamSession::new();
    assert!(matches!(session.on_frame(&[0x43, 0xff]), SessionStep::Abort(_)));
}
