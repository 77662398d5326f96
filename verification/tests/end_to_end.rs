use quicfile::error::ProtocolError;
use quicfile::handler::{handle_request, RequestOutcome};
use quicfile::respond::build_response;

fn concat(writes: &[Vec<u8>]) -> Vec<u8> {
    let mut out = Vec::new();
    for w in writes {
        out.extend_from_slice(w);
    }
    out
}

#[test]
fn scenario_existing_file_streams_its_bytes() {
    // Root `/srv`, file `/srv/a.txt` holding `hello`; request `/a.txt`.
    let root = b"/srv".to_vec();
    let req = b"GET /a.txt\r\n".to_vec();
    match handle_request(&root, &req) {
        RequestOutcome::Open(p) => assert_eq!(p, b"/srv/a.txt".to_vec()),
        RequestOutcome::Rejected(_) => panic!("request should be accepted"),
    }
    // The file opens; the response is its bytes alone, no status line.
    let data = b"hello".to_vec();
    let writes = build_response(Some(&data));
    assert_eq!(concat(&writes), b"hello".to_vec());
}

#[test]
fn scenario_missing_file_gets_the_status_line_only() {
    let root = b"/srv".to_vec();
    let req = b"GET /missing.txt\r\n".to_vec();
    match handle_request(&root, &req) {
        RequestOutcome::Open(p) => assert_eq!(p, b"/srv/missing.txt".to_vec()),
        RequestOutcome::Rejected(_) => panic!("request should be accepted"),
    }
    // The open fails; the response is the literal line and nothing else.
    let writes = build_response(None);
    assert_eq!(concat(&writes), b"HTTP/3 404 NotFound\r\n".to_vec());
}

#[test]
fn scenario_traversal_is_rejected_before_any_open() {
    let root = b"/srv".to_vec();
    let req = b"GET /../etc/passwd\r\n".to_vec();
    match handle_request(&root, &req) {
        RequestOutcome::Open(_) => panic!("traversal must never reach the filesystem"),
        RequestOutcome::Rejected(e) => assert_eq!(e, ProtocolError::IllegalPath),
    }
}

#[test]
fn scenario_relative_path_is_rejected_before_any_open() {
    let root = b"/srv".to_vec();
    let req = b"GET a.txt\r\n".to_vec();
    match handle_request(&root, &req) {
        RequestOutcome::Open(_) => panic!("relative path must never reach the filesystem"),
        RequestOutcome::Rejected(e) => assert_eq!(e, ProtocolError::IllegalPath),
    }
}

#[test]
fn malformed_bytes_are_rejected_as_malformed() {
    let root = b"/srv".to_vec();
    for req in [&b"FETCH /a\r\n"[..], b"GET /a", b"", b"\r\n"] {
        match handle_request(&root, &req.to_vec()) {
            RequestOutcome::Open(_) => panic!("malformed request must be rejected"),
            RequestOutcome::Rejected(e) => assert_eq!(e, ProtocolError::MalformedRequest),
        }
    }
}

#[test]
fn many_streams_on_one_root_stay_independent() {
    // Each stream's request depends only on its own bytes and the shared
    // read-only root: interleaving any number of them cannot mix results.
    let root = b"/srv".to_vec();
    let reqs: Vec<Vec<u8>> = (0..16).map(|i| format!("GET /f{}.bin\r\n", i).into_bytes()).collect();
    let outcomes: Vec<_> = reqs.iter().map(|r| handle_request(&root, r)).collect();
    for (i, out) in outcomes.iter().enumerate() {
        match out {
            RequestOutcome::Open(p) => {
                assert_eq!(p, &format!("/srv/f{}.bin", i).into_bytes());
            }
            RequestOutcome::Rejected(_) => panic!("request should be accepted"),
        }
    }
    // And repeating one of them gives the same answer again.
    match handle_request(&root, &reqs[3]) {
        RequestOutcome::Open(p) => assert_eq!(p, b"/srv/f3.bin".to_vec()),
        RequestOutcome::Rejected(_) => panic!("request should be accepted"),
    }
}
