//! The protocol between the daemon and its clients.

use clhorde::ipc::{
    daemon_pid_path, daemon_socket_path, decode_pty_frame, encode_frame, encode_pty_frame,
    is_binary_frame, next_incoming, read_frame, scheduler_socket_path, FrameRead, Incoming,
    MAX_FRAME_SIZE, PTY_FRAME_MARKER,
};
use clhorde::protocol::PROTOCOL_VERSION;

#[test]
fn protocol_version_is_1() {
    assert_eq!(PROTOCOL_VERSION, 1);
}

#[test]
fn a_frame_is_its_length_and_its_payload() {
    assert_eq!(encode_frame(b"abc"), vec![0, 0, 0, 3, b'a', b'b', b'c']);
    let mut bytes = encode_frame(b"abc");
    bytes.extend_from_slice(b"more");
    assert_eq!(
        read_frame(&bytes),
        FrameRead::Payload {
            payload: b"abc".to_vec(),
            used: 7
        }
    );
}

#[test]
fn a_part_of_a_frame_is_incomplete() {
    let bytes = encode_frame(b"abc");
    for n in 0..bytes.len() {
        assert_eq!(read_frame(&bytes[..n].to_vec()), FrameRead::Incomplete);
    }
}

#[test]
fn a_frame_over_the_limit_is_refused() {
    let len = MAX_FRAME_SIZE + 1;
    let bytes = (len as u32).to_be_bytes().to_vec();
    assert_eq!(read_frame(&bytes), FrameRead::TooLarge { len });
    let at_limit = (MAX_FRAME_SIZE as u32).to_be_bytes().to_vec();
    assert_eq!(read_frame(&at_limit), FrameRead::Incomplete);
}

#[test]
fn terminal_output_is_read_back_from_its_frame() {
    let frame = encode_pty_frame(258, &vec![7, 8, 9]);
    assert_eq!(frame, vec![1, 0, 0, 0, 0, 0, 0, 1, 2, 7, 8, 9]);
    assert_eq!(frame[0], PTY_FRAME_MARKER);
    assert!(is_binary_frame(&frame));
    assert!(!is_binary_frame(&b"{}".to_vec()));
    assert_eq!(decode_pty_frame(&frame), Some((258, vec![7, 8, 9])));
    assert_eq!(decode_pty_frame(&vec![1, 0, 0]), None);
}

#[test]
fn an_incoming_frame_is_told_apart_by_its_first_byte() {
    let json = encode_frame(b"{\"a\":1}");
    assert_eq!(
        next_incoming(&json),
        Incoming::Json {
            payload: b"{\"a\":1}".to_vec(),
            used: json.len()
        }
    );
    let short = encode_frame(&[1, 2, 3]);
    assert_eq!(next_incoming(&short), Incoming::BadPty { used: 7 });
}

#[test]
fn the_sockets_lie_in_the_data_directory() {
    let dir = Some("/home/u/.local/share/clhorde".to_string());
    assert_eq!(
        daemon_socket_path(&dir),
        "/home/u/.local/share/clhorde/daemon.sock"
    );
    assert_eq!(
        daemon_pid_path(&dir),
        "/home/u/.local/share/clhorde/daemon.pid"
    );
    assert_eq!(
        scheduler_socket_path(&dir),
        "/home/u/.local/share/clhorde/scheduler.sock"
    );
}
