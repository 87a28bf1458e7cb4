use std::sync::Arc;

use rummy::protocol::{Packet, PacketHeader, HEADER_SIZE};
use rummy::transport::{
    conn_step, decode_inbound, header_declared_payload_len, ConnAction, ConnEvent, ConnState,
    SessionRegistry, TransportError,
};
use tokio::io::{AsyncRead, AsyncReadExt, AsyncWriteExt};
use tokio::sync::mpsc;
use tokio::sync::Mutex;

fn encode_packet(payload: &[u8], session_id: u64) -> Vec<u8> {
    let header = PacketHeader::from_payload(payload, session_id);
    Packet::new(header, payload.to_vec()).to_bytes()
}

async fn read_one_packet<R: AsyncRead + Unpin>(stream: &mut R) -> Packet {
    let mut header = [0u8; HEADER_SIZE];
    stream.read_exact(&mut header).await.expect("header read");
    let payload_len = header_declared_payload_len(&header).expect("64 bytes were read") as usize;
    let mut buf = header.to_vec();
    buf.resize(HEADER_SIZE + payload_len, 0);
    stream
        .read_exact(&mut buf[HEADER_SIZE..])
        .await
        .expect("payload read");
    decode_inbound(&buf).expect("valid packet")
}

#[test]
fn registry_register_route_remove() {
    let (tx, _rx) = mpsc::channel::<Packet>(100);
    let mut registry = SessionRegistry::new();
    assert_eq!(registry.len(), 0);
    assert!(!registry.contains(7));

    assert!(registry.register(7, tx.clone()));
    assert!(registry.contains(7));
    assert_eq!(registry.len(), 1);
    assert!(registry.route(7).is_ok());

    // A second registration under the same identifier changes nothing.
    assert!(!registry.register(7, tx));
    assert_eq!(registry.len(), 1);

    assert!(registry.remove(7));
    assert!(!registry.contains(7));
    assert!(matches!(
        registry.route(7),
        Err(TransportError::ConnectionNotFound)
    ));
    // Removing again reports that nothing was there.
    assert!(!registry.remove(7));
}

#[test]
fn registry_keeps_other_sessions_on_remove() {
    let (tx, _rx) = mpsc::channel::<Packet>(100);
    let mut registry = SessionRegistry::new();
    assert!(registry.register(1, tx.clone()));
    assert!(registry.register(2, tx.clone()));
    assert!(registry.register(3, tx));
    assert!(registry.remove(2));
    assert!(registry.contains(1));
    assert!(!registry.contains(2));
    assert!(registry.contains(3));
    assert_eq!(registry.len(), 2);
}

#[test]
fn registry_clear_empties_everything() {
    let (tx, _rx) = mpsc::channel::<Packet>(100);
    let mut registry = SessionRegistry::new();
    assert!(registry.register(10, tx.clone()));
    assert!(registry.register(11, tx));
    registry.clear();
    assert_eq!(registry.len(), 0);
    assert!(matches!(
        registry.route(10),
        Err(TransportError::ConnectionNotFound)
    ));
}

#[test]
fn connection_lifecycle_table() {
    assert_eq!(
        conn_step(ConnState::Connecting, ConnEvent::TasksStarted),
        (ConnState::Established, ConnAction::Keep)
    );
    assert_eq!(
        conn_step(ConnState::Established, ConnEvent::ReadFailed),
        (ConnState::Terminating, ConnAction::Keep)
    );
    assert_eq!(
        conn_step(ConnState::Established, ConnEvent::WriteFailed),
        (ConnState::Terminating, ConnAction::Keep)
    );
    assert_eq!(
        conn_step(ConnState::Established, ConnEvent::QueueClosed),
        (ConnState::Terminating, ConnAction::Keep)
    );
    assert_eq!(
        conn_step(ConnState::Terminating, ConnEvent::WriterExited),
        (ConnState::Terminated, ConnAction::RemoveEntry)
    );
    // Only the writer's exit removes the registry entry.
    assert_eq!(
        conn_step(ConnState::Terminated, ConnEvent::WriterExited),
        (ConnState::Terminated, ConnAction::Keep)
    );
}

#[test]
fn writer_exit_cleanup_makes_session_unreachable() {
    // A connection is accepted and registered; its socket closes, the
    // writer task observes the failure and exits; the lifecycle mandates
    // removing the registry entry; a later send is ConnectionNotFound.
    let session: u128 = 0xfeed;
    let (tx, rx) = mpsc::channel::<Packet>(100);
    let mut registry = SessionRegistry::new();
    assert!(registry.register(session, tx));
    drop(rx);

    let mut state = ConnState::Connecting;
    for event in [
        ConnEvent::TasksStarted,
        ConnEvent::WriteFailed,
        ConnEvent::WriterExited,
    ] {
        let (next, action) = conn_step(state, event);
        if action == ConnAction::RemoveEntry {
            registry.remove(session);
        }
        state = next;
    }
    assert_eq!(state, ConnState::Terminated);
    assert!(matches!(
        registry.route(session),
        Err(TransportError::ConnectionNotFound)
    ));
}

#[test]
fn declared_payload_len_reads_the_header_field() {
    let bytes = encode_packet(b"four", 1);
    assert_eq!(header_declared_payload_len(&bytes[0..HEADER_SIZE]), Some(4));
    assert_eq!(header_declared_payload_len(&bytes[0..19]), None);
}

#[test]
fn decode_inbound_maps_codec_failures() {
    let bytes = encode_packet(b"ok", 1);
    assert!(decode_inbound(&bytes).is_ok());
    let mut corrupted = bytes.clone();
    corrupted[HEADER_SIZE] ^= 0xff;
    assert!(matches!(
        decode_inbound(&corrupted),
        Err(TransportError::MsgError)
    ));
    assert!(matches!(
        decode_inbound(&bytes[0..10]),
        Err(TransportError::MsgError)
    ));
}

#[test]
fn per_session_fifo_over_a_connection() {
    // A client sends two packets on one connection; the server side reads
    // and decodes them in the order they were sent. The connection is an
    // in-memory byte pipe with the same read/write interface as a socket.
    let runtime = tokio::runtime::Runtime::new().expect("runtime");
    runtime.block_on(async {
        let (mut client_side, mut server_side) = tokio::io::duplex(4096);

        let client = tokio::spawn(async move {
            client_side
                .write_all(&encode_packet(b"hello", 7))
                .await
                .expect("first write");
            client_side
                .write_all(&encode_packet(b"world", 7))
                .await
                .expect("second write");
        });

        let first = read_one_packet(&mut server_side).await;
        let second = read_one_packet(&mut server_side).await;
        assert_eq!(first.payload, b"hello".to_vec());
        assert_eq!(first.header.session_id, 7);
        assert_eq!(second.payload, b"world".to_vec());
        client.await.expect("client task");
    });
}

#[test]
fn routed_queue_delivers_in_order() {
    // The registry hands out a live handle to the session's queue: what is
    // enqueued through route() comes out in order on the connection's side.
    let runtime = tokio::runtime::Runtime::new().expect("runtime");
    runtime.block_on(async {
        let session: u128 = 5;
        let (tx, mut rx) = mpsc::channel::<Packet>(100);
        let registry = Arc::new(Mutex::new(SessionRegistry::new()));
        assert!(registry.lock().await.register(session, tx));

        for payload in [b"one".as_slice(), b"two".as_slice()] {
            // Copy the handle out under the lock, release it, then enqueue.
            let handle = registry.lock().await.route(session).expect("registered");
            let header = PacketHeader::from_payload(payload, 1);
            handle
                .send(Packet::new(header, payload.to_vec()))
                .await
                .expect("queue open");
        }

        assert_eq!(rx.recv().await.expect("first").payload, b"one".to_vec());
        assert_eq!(rx.recv().await.expect("second").payload, b"two".to_vec());
    });
}
