use node_core::p2p::framing::{encode_frame, BufferedTranscoder, FrameError};
use node_core::p2p::transport::{AcceptPlan, ListenerOptions, TcpTransportSocket};
use node_core::p2p::socket_address::{IpAddress, SocketAddress};

fn message(len: usize, seed: u8) -> Vec<u8> {
    (0..len).map(|i| (i as u8).wrapping_mul(31).wrapping_add(seed)).collect()
}

#[test]
fn frame_is_length_then_payload() {
    assert_eq!(encode_frame(&[], None), Ok(vec![0, 0, 0, 0]));
    assert_eq!(encode_frame(&[7, 8, 9], None), Ok(vec![3, 0, 0, 0, 7, 8, 9]));
    let long = message(0x0102, 1);
    let framed = encode_frame(&long, None).unwrap();
    assert_eq!(&framed[..4], &[2, 1, 0, 0]);
    assert_eq!(&framed[4..], &long[..]);
}

#[test]
fn message_beyond_the_limit_is_not_framed() {
    assert_eq!(encode_frame(&[1, 2, 3], Some(3)).is_ok(), true);
    assert_eq!(encode_frame(&[1, 2, 3, 4], Some(3)), Err(FrameError::MessageTooLarge { size: 4, max: 3 }));
    assert_eq!(encode_frame(&[1], Some(0)), Err(FrameError::MessageTooLarge { size: 1, max: 0 }));
}

#[test]
fn framed_send_recv() {
    for len in [0usize, 1, 2, 999, 1000] {
        let sent = message(len, 3);
        let limit = Some(sent.len());
        let wire = encode_frame(&sent, limit).unwrap();
        let mut receiver = BufferedTranscoder::new(limit);
        receiver.push_bytes(&wire);
        assert_eq!(receiver.try_decode(), Ok(Some(sent)));
        assert_eq!(receiver.try_decode(), Ok(None));
        assert_eq!(receiver.buffered_len(), 0);
    }
}

#[test]
fn framed_send_2_reqs() {
    let message_1 = message(700, 1);
    let message_2 = message(300, 2);
    let mut wire = encode_frame(&message_1, None).unwrap();
    wire.extend(encode_frame(&message_2, None).unwrap());
    let mut receiver = BufferedTranscoder::new(None);
    receiver.push_bytes(&wire);
    assert_eq!(receiver.try_decode(), Ok(Some(message_1)));
    assert_eq!(receiver.try_decode(), Ok(Some(message_2)));
    assert_eq!(receiver.try_decode(), Ok(None));
}

#[test]
fn partial_reads_are_collected() {
    let sent = message(10, 9);
    let wire = encode_frame(&sent, None).unwrap();
    let mut receiver = BufferedTranscoder::new(None);
    for (i, byte) in wire.iter().enumerate() {
        assert_eq!(receiver.try_decode(), Ok(None), "after {i} bytes");
        receiver.push_bytes(&[*byte]);
    }
    assert_eq!(receiver.try_decode(), Ok(Some(sent)));
    // bytes of the next message stay in the buffer
    receiver.push_bytes(&[2, 0, 0, 0, 5]);
    assert_eq!(receiver.try_decode(), Ok(None));
    assert_eq!(receiver.buffered_len(), 5);
    receiver.push_bytes(&[6, 1, 0]);
    assert_eq!(receiver.try_decode(), Ok(Some(vec![5, 6])));
    assert_eq!(receiver.buffered_len(), 2);
}

#[test]
fn huge_length_is_refused_before_the_message_arrives() {
    let mut receiver = BufferedTranscoder::new(Some(1000));
    receiver.push_bytes(&[0xff, 0xff, 0xff, 0x7f]);
    assert_eq!(receiver.try_decode(), Err(FrameError::MessageTooLarge { size: 0x7fffffff, max: 1000 }));
    assert_eq!(receiver.try_decode(), Err(FrameError::MessageTooLarge { size: 0x7fffffff, max: 1000 }));
    assert_eq!(receiver.buffered_len(), 4);
    let mut receiver = BufferedTranscoder::new(Some(1000));
    receiver.push_bytes(&[0xe9, 3, 0, 0]);
    assert_eq!(receiver.try_decode(), Err(FrameError::MessageTooLarge { size: 1001, max: 1000 }));
    let mut receiver = BufferedTranscoder::new(Some(1000));
    receiver.push_bytes(&[0xe8, 3, 0, 0]);
    assert_eq!(receiver.try_decode(), Ok(None));
}

#[test]
fn listening_sockets_are_set_up_alike() {
    let transport = TcpTransportSocket::new();
    let v4 = SocketAddress::new(IpAddress::V4(0x7f000001), 3031);
    let v6 = SocketAddress::new(IpAddress::V6(1), 3031);
    assert_eq!(
        transport.listener_options(&v4, false),
        ListenerOptions { nonblocking: true, only_v6: false, reuse_address: true, backlog: 32 }
    );
    assert_eq!(
        transport.listener_options(&v6, false),
        ListenerOptions { nonblocking: true, only_v6: true, reuse_address: true, backlog: 32 }
    );
    assert_eq!(
        transport.listener_options(&v6, true),
        ListenerOptions { nonblocking: true, only_v6: true, reuse_address: false, backlog: 32 }
    );
    let plan = transport.bind_plan(&vec![v4, v6], false);
    assert_eq!(plan.len(), 2);
    assert!(!plan[0].only_v6 && plan[1].only_v6);
    assert!(transport.bind_plan(&vec![], false).is_empty());
}

#[test]
fn listener_without_sockets_waits_forever() {
    assert_eq!(TcpTransportSocket::accept_plan(0), AcceptPlan::WaitForever);
    assert_eq!(TcpTransportSocket::accept_plan(1), AcceptPlan::TakeFirst { sockets: 1 });
    assert_eq!(TcpTransportSocket::accept_plan(3), AcceptPlan::TakeFirst { sockets: 3 });
}
