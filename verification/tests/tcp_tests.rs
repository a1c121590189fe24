use demikernel::established::EstState;
use demikernel::established::EstablishedSocket;
use demikernel::passive::cookie_isn;
use demikernel::rto::RtoCalculator;
use demikernel::socket::SharedTcpSocket;
use demikernel::tcptypes::Errno;
use demikernel::tcptypes::Fail;
use demikernel::tcptypes::SocketAddrV4;
use demikernel::tcptypes::SocketId;
use demikernel::tcptypes::SocketOption;
use demikernel::tcptypes::TcpConfig;
use demikernel::tcptypes::TcpHeader;
use demikernel::tcptypes::TcpSocketOptions;
use demikernel::tcptypes::seq_add;
use demikernel::tcptypes::seq_sub;

fn addr(ip: u32, port: u16) -> SocketAddrV4 {
    SocketAddrV4::new(ip, port)
}

fn fresh_socket() -> SharedTcpSocket {
    SharedTcpSocket::new(TcpConfig::default(), TcpSocketOptions::default())
}

fn header(src_port: u16, dst_port: u16) -> TcpHeader {
    TcpHeader::new(src_port, dst_port)
}

const LOCAL_IP: u32 = 0x0A00_0001; // 10.0.0.1
const PEER_IP: u32 = 0x0A00_0002; // 10.0.0.2

// Drives the passive handshake of S4 and returns the accepted socket and
// the listener's cookie ISN.
fn passive_handshake() -> (SharedTcpSocket, u32) {
    let local = addr(LOCAL_IP, 80);
    let peer = addr(PEER_IP, 40000);
    let mut listener = fresh_socket();
    listener.bind(local).unwrap();
    listener.listen(16, 0xDEADBEEF).unwrap();

    // SYN from the peer.
    let mut syn = header(40000, 80);
    syn.syn = true;
    syn.seq = 7777;
    listener.receive(PEER_IP, syn, Vec::new());

    // The listener answers with a SYN-ACK whose ISN is the keyed cookie.
    let out = listener.take_outgoing();
    assert_eq!(out.len(), 1);
    let cookie = cookie_isn(local, peer, 0xDEADBEEF);
    assert!(out[0].header.syn && out[0].header.ack);
    assert_eq!(out[0].header.seq, cookie);
    assert_eq!(out[0].header.ack_num, 7778);

    // The matching ACK completes the handshake.
    let mut ack = header(40000, 80);
    ack.ack = true;
    ack.seq = 7778;
    ack.ack_num = cookie.wrapping_add(1);
    ack.window = 65535;
    listener.receive(PEER_IP, ack, Vec::new());

    let accepted = listener.accept().unwrap().expect("handshake should have completed");
    (accepted, cookie)
}

#[test]
fn passive_path() {
    let (accepted, _) = passive_handshake();
    let (l, r) = accepted.endpoints().unwrap();
    assert_eq!(l, addr(LOCAL_IP, 80));
    assert_eq!(r, addr(PEER_IP, 40000));
}

#[test]
fn active_path_timeout() {
    let local = addr(LOCAL_IP, 12345);
    let remote = addr(PEER_IP, 80);
    let mut socket = fresh_socket();
    socket.connect(local, remote, 123, 0).unwrap();

    // Nobody ever answers: each pass of the event loop fires the
    // handshake timer once.
    let mut now: u64 = 0;
    for _ in 0..8 {
        now += 100_000_000_000;
        socket.advance(now);
    }

    assert_eq!(socket.last_error(), Some(Fail::new(Errno::Etimedout)));
    // The socket is in Closing: closing it again is refused.
    assert_eq!(socket.close(now), Err(Fail::new(Errno::Enotsup)));
}

#[test]
fn graceful_close() {
    let (mut sock, cookie) = passive_handshake();
    let local = addr(LOCAL_IP, 80);
    let peer = addr(PEER_IP, 40000);

    // close() sends FIN and reports the identity to deregister.
    let id = sock.close(0).unwrap();
    assert_eq!(id, Some(SocketId::Active(local, peer)));
    let out = sock.take_outgoing();
    assert!(out.iter().any(|s| s.header.fin));
    assert_eq!(sock.conn_state(), Some(EstState::FinWait1));

    // The peer acknowledges our FIN.
    let mut fin_ack = header(40000, 80);
    fin_ack.ack = true;
    fin_ack.seq = 7778;
    fin_ack.ack_num = cookie.wrapping_add(2);
    sock.receive(PEER_IP, fin_ack, Vec::new());
    sock.advance(1);
    assert_eq!(sock.conn_state(), Some(EstState::FinWait2));

    // The peer's own FIN arrives; we acknowledge it and enter TIME-WAIT.
    let mut fin = header(40000, 80);
    fin.fin = true;
    fin.ack = true;
    fin.seq = 7778;
    fin.ack_num = cookie.wrapping_add(2);
    sock.receive(PEER_IP, fin, Vec::new());
    sock.advance(2);
    assert_eq!(sock.conn_state(), Some(EstState::TimeWait));
    let out = sock.take_outgoing();
    assert!(out.iter().any(|s| s.header.ack && !s.header.fin));

    // TIME-WAIT is held for twice the maximum segment lifetime; after
    // that the background task completes.
    sock.advance(2 + 240_000_000_000 + 1);
    assert_eq!(sock.conn_state(), Some(EstState::Closed));
}

#[test]
fn recv_demux_before_queue_is_noop() {
    let mut socket = fresh_socket();
    let mut hdr = header(1, 2);
    hdr.syn = true;
    socket.receive(PEER_IP, hdr, vec![1, 2, 3]);
    assert_eq!(socket.local(), None);
    assert_eq!(socket.take_outgoing().len(), 0);

    socket.bind(addr(LOCAL_IP, 80)).unwrap();
    socket.receive(PEER_IP, hdr, vec![1, 2, 3]);
    assert_eq!(socket.local(), Some(addr(LOCAL_IP, 80)));
    assert_eq!(socket.take_outgoing().len(), 0);
}

#[test]
fn endpoints_stable_while_established() {
    let (mut sock, _) = passive_handshake();
    let before = sock.endpoints().unwrap();

    // Deliver traffic and run the background work; the endpoints do not
    // move while the socket stays established.
    let mut data = header(40000, 80);
    data.ack = true;
    data.seq = 7778;
    sock.receive(PEER_IP, data, vec![9, 9, 9]);
    sock.advance(5);
    assert_eq!(sock.endpoints().unwrap(), before);
    assert_eq!(sock.getpeername().unwrap(), addr(PEER_IP, 40000));
}

#[test]
fn bind_rejects_rebinding() {
    let mut socket = fresh_socket();
    assert!(socket.bind(addr(LOCAL_IP, 80)).is_ok());
    assert_eq!(
        socket.bind(addr(LOCAL_IP, 81)),
        Err(Fail::new(Errno::Einval))
    );
}

#[test]
fn listen_requires_bound() {
    let mut socket = fresh_socket();
    assert_eq!(socket.listen(16, 1), Err(Fail::new(Errno::Einval)));
}

#[test]
fn getpeername_requires_established() {
    let mut socket = fresh_socket();
    assert_eq!(socket.getpeername(), Err(Fail::new(Errno::Enotconn)));
    assert_eq!(socket.endpoints(), Err(Fail::new(Errno::Enotconn)));

    // While connecting, the peer's address is already known.
    socket
        .connect(addr(LOCAL_IP, 12345), addr(PEER_IP, 80), 1, 0)
        .unwrap();
    assert_eq!(socket.getpeername(), Ok(addr(PEER_IP, 80)));
}

#[test]
fn close_unbound_and_bound() {
    let mut socket = fresh_socket();
    assert_eq!(socket.close(0), Ok(None));
    socket.bind(addr(LOCAL_IP, 80)).unwrap();
    assert_eq!(
        socket.close(0),
        Ok(Some(SocketId::Passive(addr(LOCAL_IP, 80))))
    );
}

#[test]
fn hard_close_sends_reset() {
    let (mut sock, _) = passive_handshake();
    let id = sock.hard_close().unwrap();
    assert_eq!(
        id,
        Some(SocketId::Active(addr(LOCAL_IP, 80), addr(PEER_IP, 40000)))
    );
    let out = sock.take_outgoing();
    assert!(out.iter().any(|s| s.header.rst));
    assert_eq!(sock.conn_state(), Some(EstState::Closed));
}

#[test]
fn socket_options_round_trip() {
    let mut socket = fresh_socket();
    socket.set_socket_option(SocketOption::Linger(Some(7))).unwrap();
    socket.set_socket_option(SocketOption::KeepAlive(true)).unwrap();
    assert_eq!(
        socket.get_socket_option(SocketOption::Linger(None)),
        Ok(SocketOption::Linger(Some(7)))
    );
    assert_eq!(
        socket.get_socket_option(SocketOption::KeepAlive(false)),
        Ok(SocketOption::KeepAlive(true))
    );
    assert_eq!(
        socket.get_socket_option(SocketOption::NoDelay(false)),
        Ok(SocketOption::NoDelay(true))
    );
}

#[test]
fn send_splits_at_mss_and_data_round_trip() {
    let local = addr(LOCAL_IP, 80);
    let peer = addr(PEER_IP, 40000);
    let mut es = EstablishedSocket::new(local, peer, TcpConfig::default(), 1000, 5000, 65535, 1450);

    // 3000 bytes leave as segments of at most one MSS, covering the whole
    // stream in order.
    let buf: Vec<u8> = (0..3000u32).map(|i| (i % 251) as u8).collect();
    es.send(buf.clone(), 0).unwrap();
    let out = es.take_outgoing();
    assert_eq!(out.len(), 3);
    assert_eq!(out[0].payload.len(), 1450);
    assert_eq!(out[0].header.seq, 5000);
    assert_eq!(out[1].payload.len(), 1450);
    assert_eq!(out[1].header.seq, 6450);
    assert_eq!(out[2].payload.len(), 100);
    assert_eq!(out[2].header.seq, 7900);
    let rebuilt: Vec<u8> = out.iter().flat_map(|s| s.payload.iter().copied()).collect();
    assert_eq!(rebuilt, buf);

    // Inbound payload is readable through pop, in order and intact.
    let mut data = header(40000, 80);
    data.ack = true;
    data.seq = 1000;
    es.receive(PEER_IP, data, vec![10, 20, 30]);
    es.background_step(1);
    assert_eq!(es.pop(None), Some(vec![10, 20, 30]));
    assert_eq!(es.pop(None), None);

    // A partial pop takes a prefix and leaves the rest.
    let mut more = header(40000, 80);
    more.ack = true;
    more.seq = 1003;
    es.receive(PEER_IP, more, vec![1, 2, 3, 4]);
    es.background_step(2);
    assert_eq!(es.pop(Some(2)), Some(vec![1, 2]));
    assert_eq!(es.pop(None), Some(vec![3, 4]));
}

#[test]
fn send_respects_peer_window() {
    let local = addr(LOCAL_IP, 80);
    let peer = addr(PEER_IP, 40000);
    let mut es = EstablishedSocket::new(local, peer, TcpConfig::default(), 1000, 5000, 2, 1450);
    assert_eq!(es.send(vec![1, 2, 3], 0), Err(Fail::new(Errno::Eagain)));
    assert_eq!(es.send(vec![1, 2], 0), Ok(()));
    assert_eq!(es.send(vec![3], 0), Err(Fail::new(Errno::Eagain)));
}

#[test]
fn reset_tears_down_connection() {
    let local = addr(LOCAL_IP, 80);
    let peer = addr(PEER_IP, 40000);
    let mut es = EstablishedSocket::new(local, peer, TcpConfig::default(), 1000, 5000, 65535, 1450);
    let mut rst = header(40000, 80);
    rst.rst = true;
    es.receive(PEER_IP, rst, Vec::new());
    es.background_step(0);
    assert_eq!(es.cb.state(), EstState::Closed);
    assert_eq!(es.cb.fatal(), Some(Errno::Econnreset));
    // Sending afterwards is refused.
    assert_eq!(es.send(vec![1], 1), Err(Fail::new(Errno::Enotconn)));
}

#[test]
fn connection_refused_on_reset() {
    let local = addr(LOCAL_IP, 12345);
    let remote = addr(PEER_IP, 80);
    let mut socket = fresh_socket();
    socket.connect(local, remote, 42, 0).unwrap();
    let mut rst = header(80, 12345);
    rst.rst = true;
    socket.receive(PEER_IP, rst, Vec::new());
    socket.advance(1);
    assert_eq!(socket.last_error(), Some(Fail::new(Errno::Econnrefused)));
}

#[test]
fn active_open_completes_on_syn_ack() {
    let local = addr(LOCAL_IP, 12345);
    let remote = addr(PEER_IP, 80);
    let mut socket = fresh_socket();
    socket.connect(local, remote, 42, 0).unwrap();

    // The SYN is on the wire with the caller's ISN.
    let out = socket.take_outgoing();
    assert_eq!(out.len(), 1);
    assert!(out[0].header.syn && !out[0].header.ack);
    assert_eq!(out[0].header.seq, 42);

    // The peer's SYN-ACK completes the handshake; the final ACK goes out.
    let mut synack = header(80, 12345);
    synack.syn = true;
    synack.ack = true;
    synack.seq = 9000;
    synack.ack_num = 43;
    synack.window = 4096;
    socket.receive(PEER_IP, synack, Vec::new());
    socket.advance(1);
    assert_eq!(socket.endpoints(), Ok((local, remote)));
    assert_eq!(socket.conn_state(), Some(EstState::Established));
    let out = socket.take_outgoing();
    assert!(out.iter().any(|s| s.header.ack && !s.header.syn && s.header.ack_num == 9001));
}

#[test]
fn rto_estimator_folds_samples() {
    let mut rto = RtoCalculator::new();
    assert_eq!(rto.rto(), 1_000_000_000);

    // First sample seeds the estimate: SRTT = R, RTTVAR = R/2.
    rto.add_sample(10_000_000_000);
    assert_eq!(rto.rto(), 30_000_000_000);

    // Second sample folds in with the 1/8 and 1/4 gains.
    rto.add_sample(20_000_000_000);
    assert_eq!(rto.rto(), 36_250_000_000);

    // The timeout never leaves its band.
    rto.add_sample(1);
    rto.add_sample(1);
    assert!(rto.rto() >= 1_000_000_000);
    let mut high = RtoCalculator::new();
    for _ in 0..10 {
        high.add_sample(u64::MAX);
    }
    assert!(high.rto() <= 60_000_000_000);
}

#[test]
fn sequence_arithmetic_wraps() {
    assert_eq!(seq_add(0xFFFF_FFFF, 1), 0);
    assert_eq!(seq_add(0xFFFF_FFFE, 3), 1);
    assert_eq!(seq_sub(0, 0xFFFF_FFFF), 1);
    assert_eq!(seq_sub(5, 5), 0);
}

#[test]
fn listener_drops_syns_over_backlog() {
    let local = addr(LOCAL_IP, 80);
    let mut listener = fresh_socket();
    listener.bind(local).unwrap();
    listener.listen(2, 77).unwrap();

    for i in 0..4u16 {
        let mut syn = header(40000 + i, 80);
        syn.syn = true;
        syn.seq = 100 + i as u32;
        listener.receive(PEER_IP, syn, Vec::new());
    }
    // Only the first two SYNs within the backlog were answered.
    let out = listener.take_outgoing();
    assert_eq!(out.len(), 2);
}

#[test]
fn connect_only_moves_forward() {
    // A listener never regresses into an active open.
    let mut listener = fresh_socket();
    listener.bind(addr(LOCAL_IP, 80)).unwrap();
    listener.listen(16, 1).unwrap();
    assert_eq!(
        listener.connect(addr(LOCAL_IP, 80), addr(PEER_IP, 9), 1, 0),
        Err(Fail::new(Errno::Einval))
    );

    // Connecting from Bound is allowed only towards the same local address.
    let mut socket = fresh_socket();
    socket.bind(addr(LOCAL_IP, 80)).unwrap();
    assert_eq!(
        socket.connect(addr(LOCAL_IP, 81), addr(PEER_IP, 9), 1, 0),
        Err(Fail::new(Errno::Einval))
    );
    assert!(socket.connect(addr(LOCAL_IP, 80), addr(PEER_IP, 9), 1, 0).is_ok());
}

#[test]
fn delayed_ack_fires_on_timer() {
    let local = addr(LOCAL_IP, 80);
    let peer = addr(PEER_IP, 40000);
    let mut es = EstablishedSocket::new(local, peer, TcpConfig::default(), 1000, 5000, 65535, 1450);

    let mut data = header(40000, 80);
    data.ack = true;
    data.seq = 1000;
    es.receive(PEER_IP, data, vec![1, 2, 3]);
    es.background_step(0);
    // The acknowledgment is delayed: nothing on the wire yet.
    assert_eq!(es.take_outgoing().len(), 0);

    // Once the delayed-ACK timeout passes, a pure ACK goes out covering
    // the received bytes.
    es.background_step(TcpConfig::default().ack_delay_timeout_ns + 1);
    let out = es.take_outgoing();
    assert_eq!(out.len(), 1);
    assert!(out[0].header.ack && !out[0].header.fin && !out[0].header.syn);
    assert_eq!(out[0].header.ack_num, 1003);
    assert_eq!(out[0].payload.len(), 0);
}

#[test]
fn unacknowledged_segment_is_retransmitted() {
    let local = addr(LOCAL_IP, 80);
    let peer = addr(PEER_IP, 40000);
    let mut es = EstablishedSocket::new(local, peer, TcpConfig::default(), 1000, 5000, 65535, 1450);
    es.send(vec![7, 7, 7], 0).unwrap();
    let out = es.take_outgoing();
    assert_eq!(out.len(), 1);
    assert_eq!(out[0].header.seq, 5000);

    // No acknowledgment arrives; after the retransmission timeout the same
    // stretch of the stream goes out again.
    es.background_step(2_000_000_000);
    let out = es.take_outgoing();
    assert_eq!(out.len(), 1);
    assert_eq!(out[0].header.seq, 5000);
    assert_eq!(out[0].payload, vec![7, 7, 7]);

    // Once the peer acknowledges, nothing is retransmitted any more.
    let mut ack = header(40000, 80);
    ack.ack = true;
    ack.seq = 1000;
    ack.ack_num = 5003;
    ack.window = 65535;
    es.receive(PEER_IP, ack, Vec::new());
    es.background_step(3_000_000_000);
    es.background_step(300_000_000_000);
    assert_eq!(es.take_outgoing().len(), 0);
}

#[test]
fn push_and_pop_refused_when_not_established() {
    let mut socket = fresh_socket();
    assert_eq!(socket.push(vec![1], 0), Err(Fail::new(Errno::Enotconn)));
    assert_eq!(socket.pop(None, 0), Err(Fail::new(Errno::Enotconn)));
    socket.bind(addr(LOCAL_IP, 80)).unwrap();
    assert_eq!(socket.push(vec![1], 0), Err(Fail::new(Errno::Enotconn)));
}

#[test]
fn acknowledgment_retires_in_flight_bytes() {
    let local = addr(LOCAL_IP, 80);
    let peer = addr(PEER_IP, 40000);
    let mut es = EstablishedSocket::new(local, peer, TcpConfig::default(), 1000, 5000, 65535, 1450);
    assert_eq!(es.unacked(), 0);
    es.push(vec![1, 2, 3], 0).unwrap();
    assert_eq!(es.unacked(), 3);

    // A cumulative acknowledgment covering the bytes retires them.
    let mut ack = header(40000, 80);
    ack.ack = true;
    ack.seq = 1000;
    ack.ack_num = 5003;
    ack.window = 65535;
    es.receive(PEER_IP, ack, Vec::new());
    es.background_step(1);
    assert_eq!(es.unacked(), 0);
}

#[test]
fn outgoing_segments_advertise_receive_window() {
    // The listener's SYN-ACK and an established connection's segments all
    // carry the configured receive window, less what sits unread.
    let local = addr(LOCAL_IP, 80);
    let peer = addr(PEER_IP, 40000);
    let mut listener = fresh_socket();
    listener.bind(local).unwrap();
    listener.listen(4, 9).unwrap();
    let mut syn = header(40000, 80);
    syn.syn = true;
    syn.seq = 50;
    listener.receive(PEER_IP, syn, Vec::new());
    let out = listener.take_outgoing();
    assert_eq!(out[0].header.window, 65535);

    let mut es = EstablishedSocket::new(local, peer, TcpConfig::default(), 1000, 5000, 65535, 1450);
    es.send(vec![7], 0).unwrap();
    let out = es.take_outgoing();
    assert_eq!(out[0].header.window, 65535);

    // Three unread bytes shrink the advertised window by three.
    let mut data = header(40000, 80);
    data.ack = true;
    data.seq = 1000;
    es.receive(PEER_IP, data, vec![1, 2, 3]);
    es.background_step(1);
    es.background_step(TcpConfig::default().ack_delay_timeout_ns + 2);
    let out = es.take_outgoing();
    assert!(out.iter().any(|s| s.header.window == 65532));
}
