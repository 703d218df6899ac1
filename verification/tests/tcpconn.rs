use vita_gdb::tcpconn::{
    acquire_state, release_state, ConnState, ReadResult, RxCursor, RxStep, TcpListener,
    TcpSocket, TxBuffer,
};
use vita_gdb::utils::SceError;

#[test]
fn receive_then_drain_in_order() {
    let mut state = ConnState::new();
    let mut cursor = RxCursor::new();
    assert_eq!(state.rx_step(), RxStep::Receive);
    assert_eq!(cursor.read(&mut state), (ReadResult::Empty, false));
    assert!(state.on_recv(Ok(b"$g#67")));
    assert_eq!(state.rx_step(), RxStep::Wait);
    let mut got = Vec::new();
    let mut woke = Vec::new();
    for _ in 0..5 {
        let (r, wake) = cursor.read(&mut state);
        match r {
            ReadResult::Byte(b) => got.push(b),
            other => panic!("unexpected {:?}", other),
        }
        woke.push(wake);
    }
    assert_eq!(got, b"$g#67".to_vec());
    assert_eq!(woke, vec![false, false, false, false, true]);
    assert_eq!(state.rx_step(), RxStep::Receive);
    assert_eq!(cursor.read(&mut state), (ReadResult::Empty, false));
}

#[test]
fn peer_close_and_errors() {
    let mut state = ConnState::new();
    let mut cursor = RxCursor::new();
    assert!(!state.on_recv(Ok(b"")));
    assert_eq!(state.rx_step(), RxStep::Exit);
    assert_eq!(cursor.read(&mut state), (ReadResult::Closed, false));

    let mut state = ConnState::new();
    let err = SceError::new(-2143223550, "ksceNetRecvfrom");
    assert!(!state.on_recv(Err(err)));
    // The error shows once the connection is closed.
    assert_eq!(cursor.read(&mut state), (ReadResult::Empty, false));
    state.close();
    assert_eq!(cursor.read(&mut state), (ReadResult::Error(err), false));
}

#[test]
fn state_pool() {
    let mut pool: Vec<ConnState> = (0..4).map(|_| ConnState::new()).collect();
    assert_eq!(acquire_state(&mut pool), Some(0));
    assert_eq!(acquire_state(&mut pool), Some(1));
    assert_eq!(acquire_state(&mut pool), Some(2));
    assert_eq!(acquire_state(&mut pool), Some(3));
    assert_eq!(acquire_state(&mut pool), None);
    pool[1].close();
    release_state(&mut pool[1]);
    assert_eq!(acquire_state(&mut pool), Some(1));
    // A reacquired state starts open and empty.
    assert_eq!(pool[1].rx_step(), RxStep::Receive);
}

#[test]
fn send_buffer() {
    let mut tx = TxBuffer::new();
    assert!(!tx.is_full());
    for i in 0..63u8 {
        assert!(!tx.push(i));
    }
    assert!(tx.push(63));
    assert!(tx.is_full());
    assert_eq!(tx.as_slice().len(), 64);
    tx.consume(60);
    assert_eq!(tx.as_slice(), &[60, 61, 62, 63]);
    tx.consume(4);
    assert_eq!(tx.as_slice(), &[] as &[u8]);
    assert!(!tx.push(7));
    tx.consume(100);
    assert_eq!(tx.as_slice(), &[] as &[u8]);
}

#[test]
fn sockets_close_once() {
    let mut s = TcpSocket::from_raw(12);
    assert_eq!(s.raw(), 12);
    assert_eq!(s.take_for_close(), Some(12));
    assert_eq!(s.raw(), -1);
    assert_eq!(s.take_for_close(), None);
    let mut l = TcpListener::from_raw(3);
    assert_eq!(l.raw(), 3);
    assert_eq!(l.take_for_close(), Some(3));
    assert_eq!(l.take_for_close(), None);
}
