//! The connection state machine and the framing, driven by plain events.

use std::collections::VecDeque;

use miniruntime::conn::{
    Action, ConnectionState, FlushEvent, ReadEvent, WriteEvent,
};
use miniruntime::frame::{request_complete, response_bytes, RESPONSE_LEN};
use miniruntime::sim::SimSocket;

const EXPECTED_RESPONSE: &[u8] =
    b"HTTP/1.1 200 OK\r\nContent-Length: 12\nConnection: close\r\n\r\nHello world!";

#[test]
fn response_is_the_fixed_bytes() {
    let r = response_bytes();
    assert_eq!(r.len(), RESPONSE_LEN);
    assert_eq!(r.as_slice(), EXPECTED_RESPONSE);
    assert_eq!(&r[r.len() - 12..], b"Hello world!");
}

#[test]
fn terminator_detected_at_end() {
    assert!(request_complete(&b"GET / \r\n\r\n".to_vec()));
    assert!(request_complete(&b"\r\n\r\n".to_vec()));
}

#[test]
fn terminator_must_end_the_data() {
    assert!(!request_complete(&b"\r\n\r\nGET".to_vec()));
    assert!(!request_complete(&b"GET / \r\n\r".to_vec()));
    assert!(!request_complete(&b"\r\n".to_vec()));
    assert!(!request_complete(&Vec::new()));
}

#[test]
fn reading_accumulates_until_terminator() {
    let mut st = ConnectionState::Start;
    let a = st.begin();
    assert!(matches!(a, Action::Read));
    let a = st.on_read(ReadEvent::Data(b"GET / ".to_vec()));
    assert!(matches!(a, Action::Read));
    assert!(matches!(st, ConnectionState::Reading { .. }));
    let a = st.on_read(ReadEvent::Data(b"\r\n\r\n".to_vec()));
    assert!(matches!(a, Action::Write(0)));
    assert!(matches!(st, ConnectionState::Writing { sent: 0 }));
}

#[test]
fn terminator_split_across_two_reads_is_found() {
    let mut st = ConnectionState::Start;
    st.begin();
    let a = st.on_read(ReadEvent::Data(b"GET / \r\n\r".to_vec()));
    assert!(matches!(a, Action::Read));
    assert!(matches!(st, ConnectionState::Reading { .. }));
    let a = st.on_read(ReadEvent::Data(b"\n".to_vec()));
    assert!(matches!(a, Action::Write(0)));
    assert!(matches!(st, ConnectionState::Writing { sent: 0 }));
}

#[test]
fn one_byte_at_a_time_reaches_writing_once() {
    let mut st = ConnectionState::Start;
    st.begin();
    let request = b"GET / \r\n\r\n";
    let mut reached_writing = 0;
    for (i, b) in request.iter().enumerate() {
        let a = st.on_read(ReadEvent::Data(vec![*b]));
        if matches!(st, ConnectionState::Writing { .. }) {
            reached_writing += 1;
            assert_eq!(i, request.len() - 1);
            assert!(matches!(a, Action::Write(0)));
            break;
        }
        assert!(matches!(a, Action::Read));
    }
    assert_eq!(reached_writing, 1);
}

#[test]
fn would_block_during_read_suspends() {
    let mut st = ConnectionState::Start;
    st.begin();
    let a = st.on_read(ReadEvent::WouldBlock);
    assert!(matches!(a, Action::Suspend));
    assert!(matches!(st, ConnectionState::Reading { .. }));
}

#[test]
fn eof_during_read_fails_without_response() {
    let mut st = ConnectionState::Start;
    st.begin();
    st.on_read(ReadEvent::Data(b"GET".to_vec()));
    let a = st.on_read(ReadEvent::Eof);
    assert!(matches!(a, Action::Finish));
    assert!(matches!(st, ConnectionState::Failed));
}

#[test]
fn read_error_fails_the_connection() {
    let mut st = ConnectionState::Start;
    st.begin();
    let a = st.on_read(ReadEvent::Error);
    assert!(matches!(a, Action::Finish));
    assert!(matches!(st, ConnectionState::Failed));
}

#[test]
fn oversized_request_fails_instead_of_overflowing() {
    let mut st = ConnectionState::Start;
    st.begin();
    let a = st.on_read(ReadEvent::Data(vec![65u8; 1025]));
    assert!(matches!(a, Action::Finish));
    assert!(matches!(st, ConnectionState::Failed));
}

#[test]
fn request_up_to_capacity_is_accepted() {
    let mut st = ConnectionState::Start;
    st.begin();
    let mut big = vec![65u8; 1020];
    big.extend_from_slice(b"\r\n\r\n");
    let a = st.on_read(ReadEvent::Data(big));
    assert!(matches!(a, Action::Write(0)));
}

#[test]
fn partial_writes_advance_then_flush() {
    let mut st = ConnectionState::Writing { sent: 0 };
    let a = st.on_write(WriteEvent::Wrote(10));
    assert!(matches!(a, Action::Write(10)));
    assert!(matches!(st, ConnectionState::Writing { sent: 10 }));
    let a = st.on_write(WriteEvent::Wrote(RESPONSE_LEN - 10));
    assert!(matches!(a, Action::Flush));
    assert!(matches!(st, ConnectionState::Flushing));
}

#[test]
fn zero_write_means_peer_closed() {
    let mut st = ConnectionState::Writing { sent: 3 };
    let a = st.on_write(WriteEvent::Closed);
    assert!(matches!(a, Action::Finish));
    assert!(matches!(st, ConnectionState::Failed));
}

#[test]
fn would_block_during_write_suspends() {
    let mut st = ConnectionState::Writing { sent: 3 };
    let a = st.on_write(WriteEvent::WouldBlock);
    assert!(matches!(a, Action::Suspend));
    assert!(matches!(st, ConnectionState::Writing { sent: 3 }));
}

#[test]
fn write_error_fails_the_connection() {
    let mut st = ConnectionState::Writing { sent: 3 };
    let a = st.on_write(WriteEvent::Error);
    assert!(matches!(a, Action::Finish));
    assert!(matches!(st, ConnectionState::Failed));
}

#[test]
fn flush_completes_the_exchange() {
    let mut st = ConnectionState::Flushing;
    let a = st.on_flush(FlushEvent::Flushed);
    assert!(matches!(a, Action::Finish));
    assert!(matches!(st, ConnectionState::Done));
}

#[test]
fn flush_would_block_suspends() {
    let mut st = ConnectionState::Flushing;
    let a = st.on_flush(FlushEvent::WouldBlock);
    assert!(matches!(a, Action::Suspend));
    assert!(matches!(st, ConnectionState::Flushing));
}

#[test]
fn flush_error_fails_the_connection() {
    let mut st = ConnectionState::Flushing;
    let a = st.on_flush(FlushEvent::Error);
    assert!(matches!(a, Action::Finish));
    assert!(matches!(st, ConnectionState::Failed));
}

#[test]
fn sim_socket_delivers_chunks_in_order_then_blocks() {
    let mut chunks: VecDeque<Vec<u8>> = VecDeque::new();
    chunks.push_back(b"ab".to_vec());
    chunks.push_back(b"c".to_vec());
    let mut sock = SimSocket {
        incoming: chunks,
        eof_when_drained: false,
        delivered: Vec::new(),
        accepted: Vec::new(),
        write_limit: 4,
        flush_ready: true,
    };
    assert!(matches!(sock.read_event(), ReadEvent::Data(d) if d == b"ab".to_vec()));
    assert!(matches!(sock.read_event(), ReadEvent::Data(d) if d == b"c".to_vec()));
    assert!(matches!(sock.read_event(), ReadEvent::WouldBlock));
    assert_eq!(sock.delivered, b"abc".to_vec());
}

#[test]
fn sim_socket_reports_eof_when_told_to() {
    let mut sock = SimSocket {
        incoming: VecDeque::new(),
        eof_when_drained: true,
        delivered: Vec::new(),
        accepted: Vec::new(),
        write_limit: 4,
        flush_ready: true,
    };
    assert!(matches!(sock.read_event(), ReadEvent::Eof));
}

#[test]
fn sim_socket_write_respects_its_limit() {
    let mut sock = SimSocket {
        incoming: VecDeque::new(),
        eof_when_drained: false,
        delivered: Vec::new(),
        accepted: Vec::new(),
        write_limit: 3,
        flush_ready: true,
    };
    let data = b"hello".to_vec();
    assert!(matches!(sock.write_event(&data, 0), WriteEvent::Wrote(3)));
    assert_eq!(sock.accepted, b"hel".to_vec());
    assert!(matches!(sock.write_event(&data, 3), WriteEvent::Wrote(2)));
    assert_eq!(sock.accepted, b"hello".to_vec());
}

#[test]
fn sim_socket_zero_limit_blocks_writes() {
    let mut sock = SimSocket {
        incoming: VecDeque::new(),
        eof_when_drained: false,
        delivered: Vec::new(),
        accepted: Vec::new(),
        write_limit: 0,
        flush_ready: true,
    };
    let data = b"hello".to_vec();
    assert!(matches!(sock.write_event(&data, 0), WriteEvent::WouldBlock));
    assert!(sock.accepted.is_empty());
}
