use framed_proxy::batch_creator::MessageBatchCreator;
use framed_proxy::batch_repeat::{get_batch_id_for_repeat, is_batch_repeat_request};
use framed_proxy::batches_cache::{BatchesCache, Peer, BATCH_TTL_MS};
use framed_proxy::proxy_logic::ProxyLogic;
use framed_proxy::udp_dispatch::{
    handle_content, handle_request, report_failure, send_message_with_batches, WorkerStep, BUFFER_SIZE,
};
use framed_proxy::udp_headers::{CustomProtocolProcessor, HEADERS_BYTES_COUNT};
use framed_proxy::udp_pump::{failure_frame, intake, IdleBackoff, Intake, IDLE_LOOPS_BEFORE_SLEEP, IDLE_SLEEP_MS, MAX_BATCH_SIZE};

const NOW: u64 = 1_700_000_000_000;

fn peer(port: u16) -> Peer {
    Peer { ip: 0x7f00_0001, port, is_v6: false, flowinfo: 0, scope_id: 0 }
}

fn replies(step: WorkerStep) -> Vec<Vec<u8>> {
    match step {
        WorkerStep::Reply(items) => items,
        other => panic!("expected replies, got {:?}", other),
    }
}

fn parts(d: &[u8]) -> (u32, u32, Vec<u8>) {
    CustomProtocolProcessor::parse_headers(d).unwrap()
}

#[test]
fn udp_add_headers_layout() {
    assert_eq!(
        CustomProtocolProcessor::add_headers(b"ab", 1, 3),
        vec![0, 0, 0, 1, 0, 0, 0, 3, b'a', b'b']
    );
    assert_eq!(
        CustomProtocolProcessor::add_headers(b"", 0x0102_0304, 0xffff_ffff),
        vec![1, 2, 3, 4, 0xff, 0xff, 0xff, 0xff]
    );
    assert_eq!(HEADERS_BYTES_COUNT, 8);
}

#[test]
fn udp_header_round_trip() {
    for (i, n, body) in [(0u32, 1u32, &b""[..]), (2, 3, b"xyz"), (41, 1000, b"\x00\xff")] {
        let d = CustomProtocolProcessor::add_headers(body, i, n);
        assert_eq!(parts(&d), (i, n, body.to_vec()));
    }
    assert!(CustomProtocolProcessor::parse_headers(&[0, 0, 0, 1, 0, 0, 0]).is_none());
}

#[test]
fn break_message_sizes_and_cover() {
    let creator = MessageBatchCreator::new(492);
    let body: Vec<u8> = (0..1000u32).map(|i| (i % 256) as u8).collect();
    let batches = creator.break_message(body.clone()).unwrap();
    assert_eq!(batches.iter().map(|b| b.len()).collect::<Vec<_>>(), vec![492, 492, 16]);
    assert_eq!(batches.concat(), body);
}

#[test]
fn break_message_count_is_rounded_up() {
    let creator = MessageBatchCreator::new(4);
    for len in 0..20usize {
        let batches = creator.break_message(vec![9u8; len]).unwrap();
        assert_eq!(batches.len(), (len + 3) / 4);
        assert_eq!(batches.concat().len(), len);
        for b in batches.iter().take(batches.len().saturating_sub(1)) {
            assert_eq!(b.len(), 4);
        }
    }
    assert!(creator.break_message(Vec::new()).unwrap().is_empty());
    let exact = MessageBatchCreator::new(5).break_message(vec![1u8; 10]).unwrap();
    assert_eq!(exact, vec![vec![1u8; 5], vec![1u8; 5]]);
}

#[test]
fn repeat_request_parsing() {
    assert!(is_batch_repeat_request("REPEAT_BATCH:1"));
    assert!(is_batch_repeat_request("REPEAT_BATCH:"));
    assert!(!is_batch_repeat_request("REPEAT_BATCH"));
    assert!(!is_batch_repeat_request("repeat_batch:1"));
    assert_eq!(get_batch_id_for_repeat("REPEAT_BATCH:1"), Some(1));
    assert_eq!(get_batch_id_for_repeat("REPEAT_BATCH:0042"), Some(42));
    assert_eq!(get_batch_id_for_repeat("REPEAT_BATCH:4294967295"), Some(u32::MAX));
    assert_eq!(get_batch_id_for_repeat("REPEAT_BATCH:4294967296"), None);
    assert_eq!(get_batch_id_for_repeat("REPEAT_BATCH:"), None);
    assert_eq!(get_batch_id_for_repeat("REPEAT_BATCH:1a"), None);
    assert_eq!(get_batch_id_for_repeat("REPEAT_BATCH:+1"), None);
    assert_eq!(get_batch_id_for_repeat("REPEAT_BATCH:1\n"), None);
    assert_eq!(get_batch_id_for_repeat("REPEAT_BATCH:\u{0663}"), None);
    assert_eq!(get_batch_id_for_repeat("xREPEAT_BATCH:1"), None);
}

#[test]
fn get_request_parsing() {
    assert_eq!(ProxyLogic::process_message("GET:http://x/y"), Ok("http://x/y".to_string()));
    assert_eq!(ProxyLogic::process_message("GET:é"), Ok("é".to_string()));
    assert_eq!(ProxyLogic::process_message("GET:http://x\n"), Ok("http://x\n".to_string()));
    let invalid = Err("Invalid message structure! Use GET:URL format.".to_string());
    assert_eq!(ProxyLogic::process_message("GET:"), invalid);
    assert_eq!(ProxyLogic::process_message("get:http://x"), invalid);
    assert_eq!(ProxyLogic::process_message(" GET:http://x"), invalid);
    assert_eq!(ProxyLogic::process_message(""), invalid);
}

#[test]
fn cache_add_request_and_replace() {
    let mut cache = BatchesCache::new();
    assert_eq!(cache.request_batch(peer(1), 0), None);
    cache.add_batch(peer(1), 0, vec![1, 2], NOW);
    cache.add_batch(peer(2), 0, vec![3], NOW);
    assert_eq!(cache.request_batch(peer(1), 0), Some(vec![1, 2]));
    assert_eq!(cache.request_batch(peer(2), 0), Some(vec![3]));
    assert_eq!(cache.request_batch(peer(1), 1), None);
    cache.add_batch(peer(1), 0, vec![4], NOW);
    assert_eq!(cache.request_batch(peer(1), 0), Some(vec![4]));
}

#[test]
fn cache_expiry() {
    let mut cache = BatchesCache::new();
    cache.add_batch(peer(1), 0, vec![1], NOW);
    cache.add_batch(peer(1), 1, vec![2], NOW + 1000);
    cache.cleanup(NOW + BATCH_TTL_MS - 1);
    assert_eq!(cache.request_batch(peer(1), 0), Some(vec![1]));
    cache.cleanup(NOW + BATCH_TTL_MS);
    assert_eq!(cache.request_batch(peer(1), 0), Some(vec![1]));
    cache.cleanup(NOW + BATCH_TTL_MS + 1);
    assert_eq!(cache.request_batch(peer(1), 0), None);
    assert_eq!(cache.request_batch(peer(1), 1), Some(vec![2]));
    cache.cleanup(NOW + 10 * BATCH_TTL_MS);
    assert_eq!(cache.request_batch(peer(1), 1), None);
    assert_eq!(BATCH_TTL_MS, 5 * 60 * 1000);
}

#[test]
fn datagram_greeting_and_farewell() {
    let cache = BatchesCache::new();
    assert_eq!(replies(handle_request("Connect", peer(1), &cache)), vec![b"Accept".to_vec()]);
    assert_eq!(replies(handle_request("BYE", peer(1), &cache)), vec![b"BYE".to_vec()]);
}

#[test]
fn datagram_happy_path_and_retransmit() {
    let mut cache = BatchesCache::new();
    let p = peer(4000);
    let url = match handle_request("GET:http://x/big", p, &cache) {
        WorkerStep::Fetch(u) => u,
        other => panic!("expected a fetch, got {:?}", other),
    };
    assert_eq!(url, "http://x/big");
    let body: Vec<u8> = (0..1000u32).map(|i| (i * 7 % 256) as u8).collect();
    let content = ProxyLogic::content_to_send(&url, 200, body.clone());
    let frames = replies(handle_content(Ok(content), p, &mut cache, NOW));
    assert_eq!(frames.len(), 3);
    let mut joined = Vec::new();
    for (i, f) in frames.iter().enumerate() {
        let (idx, n, b) = parts(f);
        assert_eq!((idx, n), (i as u32, 3));
        assert_eq!(b.len(), [492, 492, 16][i]);
        assert!(f.len() <= BUFFER_SIZE);
        joined.extend(b);
    }
    assert_eq!(joined, body);

    let again = replies(handle_request("REPEAT_BATCH:1", p, &cache));
    assert_eq!(again, vec![frames[1].clone()]);
    for i in 0..3 {
        let msg = format!("REPEAT_BATCH:{}", i);
        assert_eq!(replies(handle_request(&msg, p, &cache)), vec![frames[i].clone()]);
    }
}

#[test]
fn retransmit_of_unknown_batch() {
    let mut cache = BatchesCache::new();
    assert_eq!(
        replies(handle_request("REPEAT_BATCH:17", peer(1), &cache)),
        vec![b"Couldn't get the requested batch with ID 17".to_vec()]
    );
    send_message_with_batches(b"abc".to_vec(), peer(2), &mut cache, NOW).unwrap();
    assert_eq!(
        replies(handle_request("REPEAT_BATCH:0", peer(1), &cache)),
        vec![b"Couldn't get the requested batch with ID 0".to_vec()]
    );
    assert!(matches!(handle_request("REPEAT_BATCH:x", peer(1), &cache), WorkerStep::Ignore));
}

#[test]
fn datagram_control_requests_are_trimmed() {
    let mut cache = BatchesCache::new();
    assert_eq!(replies(handle_request("Connect\n", peer(1), &cache)), vec![b"Accept".to_vec()]);
    assert_eq!(replies(handle_request(" BYE\r\n", peer(1), &cache)), vec![b"BYE".to_vec()]);
    send_message_with_batches(b"abc".to_vec(), peer(1), &mut cache, NOW).unwrap();
    let again = replies(handle_request("REPEAT_BATCH:0\n", peer(1), &cache));
    assert_eq!(again, vec![cache.request_batch(peer(1), 0).unwrap()]);
}

#[test]
fn datagram_request_is_trimmed_before_parsing() {
    let cache = BatchesCache::new();
    match handle_request("  GET:http://x/y \r\n", peer(1), &cache) {
        WorkerStep::Fetch(u) => assert_eq!(u, "http://x/y"),
        other => panic!("expected a fetch, got {:?}", other),
    }
}

#[test]
fn datagram_invalid_request_is_reported_in_batches() {
    let mut cache = BatchesCache::new();
    let reason = match handle_request("HELLO", peer(1), &cache) {
        WorkerStep::Fail(reason) => reason,
        other => panic!("expected a failure, got {:?}", other),
    };
    assert_eq!(reason, "Invalid url, can't parse it: Invalid message structure! Use GET:URL format.");
    let frames = replies(report_failure(&reason, peer(1), &mut cache, NOW));
    assert_eq!(frames.len(), 1);
    let (i, n, body) = parts(&frames[0]);
    assert_eq!((i, n), (0, 1));
    assert_eq!(
        body,
        b"Failed processing your request: Invalid url, can't parse it: Invalid message structure! Use GET:URL format.".to_vec()
    );
    assert_eq!(cache.request_batch(peer(1), 0), Some(frames[0].clone()));
}

#[test]
fn datagram_fetch_failure_is_reported() {
    let mut cache = BatchesCache::new();
    let frames = replies(handle_content(Err("timed out".to_string()), peer(1), &mut cache, NOW));
    let (_, _, body) = parts(&frames[0]);
    assert_eq!(
        body,
        b"Failed processing your request: Issue while loading the data from target server: timed out".to_vec()
    );
}

#[test]
fn empty_content_sends_nothing() {
    let mut cache = BatchesCache::new();
    assert!(replies(handle_content(Ok(Vec::new()), peer(1), &mut cache, NOW)).is_empty());
}

#[test]
fn oversize_datagram_is_rejected() {
    let big = vec![b'a'; 10_500];
    match intake(&big[..MAX_BATCH_SIZE]) {
        Intake::Reject(d) => {
            assert_eq!(parts(&d), (0, 1, b"Invalid message length, max is 10000".to_vec()));
        }
        other => panic!("expected a rejection, got {:?}", other),
    }
    assert!(matches!(intake(&big[..10_000]), Intake::Request(_)));
}

#[test]
fn datagram_text_is_decoded_lossily() {
    match intake(b"Connect") {
        Intake::Request(t) => assert_eq!(t, "Connect"),
        other => panic!("expected a request, got {:?}", other),
    }
    match intake(b"  Connect\n") {
        Intake::Request(t) => assert_eq!(t, "Connect"),
        other => panic!("expected a request, got {:?}", other),
    }
    match intake("\u{3000}BYE\u{85}".as_bytes()) {
        Intake::Request(t) => assert_eq!(t, "BYE"),
        other => panic!("expected a request, got {:?}", other),
    }
    match intake(&[b'G', 0xff, b'x']) {
        Intake::Request(t) => assert_eq!(t, "G\u{fffd}x"),
        other => panic!("expected a request, got {:?}", other),
    }
}

#[test]
fn failure_frame_is_single_batch() {
    assert_eq!(failure_frame("oops"), vec![0, 0, 0, 0, 0, 0, 0, 1, b'o', b'o', b'p', b's']);
}

#[test]
fn idle_backoff_pauses_after_fifty_idle_loops() {
    let mut backoff = IdleBackoff::new();
    for _ in 0..IDLE_LOOPS_BEFORE_SLEEP {
        assert!(!backoff.end_iteration(false));
    }
    assert!(backoff.end_iteration(false));
    assert!(backoff.end_iteration(false));
    assert!(!backoff.end_iteration(true));
    for _ in 0..IDLE_LOOPS_BEFORE_SLEEP {
        assert!(!backoff.end_iteration(false));
    }
    assert!(backoff.end_iteration(false));
    assert!(IDLE_SLEEP_MS >= 25);
}
