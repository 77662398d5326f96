use quicfile::respond::{build_response, chunk_file, not_found_response, CHUNK_SIZE};

fn concat(writes: &[Vec<u8>]) -> Vec<u8> {
    let mut out = Vec::new();
    for w in writes {
        out.extend_from_slice(w);
    }
    out
}

#[test]
fn not_found_line_is_literal() {
    assert_eq!(not_found_response(), b"HTTP/3 404 NotFound\r\n".to_vec());
}

#[test]
fn empty_file_round_trips_to_no_bytes() {
    let data = Vec::new();
    let chunks = chunk_file(&data);
    assert_eq!(chunks.len(), 0);
    assert_eq!(concat(&chunks), data);
}

#[test]
fn one_byte_file_round_trips() {
    let data = vec![42u8];
    let chunks = chunk_file(&data);
    assert_eq!(chunks.len(), 1);
    assert_eq!(concat(&chunks), data);
}

#[test]
fn exactly_one_chunk_round_trips() {
    let data: Vec<u8> = (0..CHUNK_SIZE).map(|i| (i % 251) as u8).collect();
    let chunks = chunk_file(&data);
    assert_eq!(chunks.len(), 1);
    assert_eq!(chunks[0].len(), CHUNK_SIZE);
    assert_eq!(concat(&chunks), data);
}

#[test]
fn several_chunks_plus_one_byte_round_trip() {
    let n = 3 * CHUNK_SIZE + 1;
    let data: Vec<u8> = (0..n).map(|i| (i % 239) as u8).collect();
    let chunks = chunk_file(&data);
    assert_eq!(chunks.len(), 4);
    assert_eq!(chunks[0].len(), CHUNK_SIZE);
    assert_eq!(chunks[1].len(), CHUNK_SIZE);
    assert_eq!(chunks[2].len(), CHUNK_SIZE);
    assert_eq!(chunks[3].len(), 1);
    assert_eq!(concat(&chunks), data);
}

#[test]
fn found_response_is_exactly_the_file() {
    let data = b"hello".to_vec();
    let writes = build_response(Some(&data));
    assert_eq!(concat(&writes), data);
}

#[test]
fn missing_response_is_exactly_the_status_line() {
    let writes = build_response(None);
    assert_eq!(writes.len(), 1);
    assert_eq!(concat(&writes), b"HTTP/3 404 NotFound\r\n".to_vec());
}
