use lightning_prune::framing::{RpcResponseFramer, RpcResponseState};

fn push(f: &mut RpcResponseFramer, bytes: &[u8]) -> Option<Vec<u8>> {
    f.push_read(bytes)
}

#[test]
fn whole_message_in_one_read() {
    let mut f = RpcResponseFramer::new();
    let out = push(&mut f, b"{\"x\":1}\n\n");
    assert_eq!(out, Some(b"{\"x\":1}".to_vec()));
    assert!(f.is_done());
    assert_eq!(f.state, RpcResponseState::TwoNewLines);
}

#[test]
fn terminal_never_emits_again() {
    let mut f = RpcResponseFramer::new();
    let _ = push(&mut f, b"payload\n\n");
    assert!(f.is_done());
    assert_eq!(push(&mut f, b"more"), None);
    assert_eq!(push(&mut f, b"\n\n"), None);
    assert_eq!(f.state, RpcResponseState::TwoNewLines);
}

#[test]
fn plain_chunk_is_emitted_unchanged() {
    let mut f = RpcResponseFramer::new();
    let out = push(&mut f, b"abc");
    assert_eq!(out, Some(b"abc".to_vec()));
    assert_eq!(f.state, RpcResponseState::NoNewLines);
}

#[test]
fn trailing_newline_is_stripped_and_remembered() {
    let mut f = RpcResponseFramer::new();
    let out = push(&mut f, b"abc\n");
    assert_eq!(out, Some(b"abc".to_vec()));
    assert_eq!(f.state, RpcResponseState::OneNewLine);
}

#[test]
fn sentinel_split_over_two_reads() {
    let mut f = RpcResponseFramer::new();
    assert_eq!(push(&mut f, b"abc\n"), Some(b"abc".to_vec()));
    assert_eq!(f.state, RpcResponseState::OneNewLine);
    // The second half of the straddling sentinel is stripped as a leading byte.
    assert_eq!(push(&mut f, b"\n"), Some(b"".to_vec()));
}

#[test]
fn sentinel_split_byte_by_byte_keeps_payload_intact() {
    // The whole stream is "ab" + the two-newline sentinel, one byte per read.
    let mut f = RpcResponseFramer::new();
    let mut collected: Vec<u8> = Vec::new();
    for chunk in [&b"a"[..], &b"b"[..], &b"\n"[..], &b"\n"[..]] {
        if let Some(out) = push(&mut f, chunk) {
            collected.extend_from_slice(&out);
        }
    }
    assert_eq!(collected, b"ab".to_vec());
}

#[test]
fn concatenation_equals_payload_across_chunkings() {
    // One payload, several chunkings that keep payload newlines off read
    // ends: each must reassemble to exactly the payload.
    let chunkings: &[&[&[u8]]] = &[
        &[b"{\"a\":\n1}\n\n"],
        &[b"{\"a\":\n1}", b"\n\n"],
        &[b"{\"a\":\n1}\n", b"\n"],
        &[b"{\"a\":\n1", b"}", b"\n", b"\n"],
    ];
    for chunks in chunkings {
        let mut f = RpcResponseFramer::new();
        let mut collected: Vec<u8> = Vec::new();
        for chunk in *chunks {
            if let Some(out) = f.push_read(chunk) {
                collected.extend_from_slice(&out);
            }
        }
        assert_eq!(collected, b"{\"a\":\n1}".to_vec());
    }
}

#[test]
fn empty_read_resets_to_no_newlines() {
    let mut f = RpcResponseFramer::new();
    assert_eq!(push(&mut f, b"x\n"), Some(b"x".to_vec()));
    assert_eq!(f.state, RpcResponseState::OneNewLine);
    assert_eq!(push(&mut f, b""), Some(b"".to_vec()));
    assert_eq!(f.state, RpcResponseState::NoNewLines);
}
