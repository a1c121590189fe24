use vstd::prelude::*;

verus! {

/// An IPv4 endpoint: a host address (as its 32-bit value) and a port.
#[derive(Clone, Copy, PartialEq, Eq, Structural, Debug, Hash)]
pub struct SocketAddrV4 {
    pub ip: u32,
    pub port: u16,
}

impl SocketAddrV4 {
    pub fn new(ip: u32, port: u16) -> (r: Self)
        ensures
            r.ip == ip,
            r.port == port,
    {
        SocketAddrV4 { ip, port }
    }
}

/// The normalized identity under which a socket is registered: a listener
/// by its local endpoint, a connection by its local and remote endpoints.
#[derive(Clone, Copy, PartialEq, Eq, Structural, Debug)]
pub enum SocketId {
    Passive(SocketAddrV4),
    Active(SocketAddrV4, SocketAddrV4),
}

/// The error kinds the stack reports, aligned with POSIX names.
#[derive(Clone, Copy, PartialEq, Eq, Structural, Debug)]
pub enum Errno {
    /// Operation requires an established connection.
    Enotconn,
    /// Illegal state transition.
    Einval,
    /// The peer refused an active open with a reset.
    Econnrefused,
    /// A handshake or retransmit budget was exceeded.
    Etimedout,
    /// The peer reset an established connection.
    Econnreset,
    /// Close of a socket that is already closing.
    Enotsup,
    /// Transient backpressure.
    Eagain,
}

/// A failed operation, carrying its error kind.
#[derive(Clone, Copy, PartialEq, Eq, Structural, Debug)]
pub struct Fail {
    pub errno: Errno,
}

impl Fail {
    pub fn new(errno: Errno) -> (r: Self)
        ensures
            r.errno == errno,
    {
        Fail { errno }
    }
}

/// The fields of a TCP segment header that this stack reads and writes.
#[derive(Clone, Copy, PartialEq, Eq, Structural, Debug)]
pub struct TcpHeader {
    pub src_port: u16,
    pub dst_port: u16,
    pub seq: u32,
    pub ack_num: u32,
    pub syn: bool,
    pub ack: bool,
    pub fin: bool,
    pub rst: bool,
    pub window: u16,
}

impl TcpHeader {
    /// A header with both ports set and everything else zeroed.
    pub fn new(src_port: u16, dst_port: u16) -> (r: Self)
        ensures
            r.src_port == src_port,
            r.dst_port == dst_port,
            r.seq == 0 && r.ack_num == 0 && !r.syn && !r.ack && !r.fin && !r.rst && r.window == 0,
    {
        TcpHeader {
            src_port,
            dst_port,
            seq: 0,
            ack_num: 0,
            syn: false,
            ack: false,
            fin: false,
            rst: false,
            window: 0,
        }
    }
}

/// One outbound segment: where it goes and what it carries.
#[derive(Clone, PartialEq, Eq, Debug)]
pub struct OutSegment {
    pub remote: SocketAddrV4,
    pub header: TcpHeader,
    pub payload: Vec<u8>,
}

/// Tunables for the TCP stack, all durations in nanoseconds.
#[derive(Clone, Copy, PartialEq, Eq, Structural, Debug)]
pub struct TcpConfig {
    /// Default maximum segment size.
    pub mss: usize,
    /// Delayed-ACK timeout.
    pub ack_delay_timeout_ns: u64,
    /// How many times an active open retransmits its SYN before giving up.
    pub handshake_retries: u32,
    /// How long an active open waits for a SYN-ACK before retransmitting.
    pub handshake_timeout_ns: u64,
    /// How long TIME-WAIT is held: twice the maximum segment lifetime.
    pub time_wait_ns: u64,
    /// Initial receive window, in bytes.
    pub recv_window: u32,
}

pub const DEFAULT_MSS: usize = 1450;

impl Default for TcpConfig {
    fn default() -> (r: Self)
        ensures
            r.mss == DEFAULT_MSS,
            r.handshake_retries == 5,
            r.handshake_timeout_ns == 3_000_000_000,
            r.ack_delay_timeout_ns == 5_000_000,
            r.time_wait_ns == 240_000_000_000,
            r.recv_window == 65535,
    {
        TcpConfig {
            mss: DEFAULT_MSS,
            ack_delay_timeout_ns: 5_000_000,
            handshake_retries: 5,
            handshake_timeout_ns: 3_000_000_000,
            time_wait_ns: 240_000_000_000,
            recv_window: 65535,
        }
    }
}

/// A settable per-socket option.
#[derive(Clone, Copy, PartialEq, Eq, Structural, Debug)]
pub enum SocketOption {
    /// Linger on close, for the given number of seconds if on.
    Linger(Option<u64>),
    KeepAlive(bool),
    NoDelay(bool),
}

/// The per-socket option store.
#[derive(Clone, Copy, PartialEq, Eq, Structural, Debug)]
pub struct TcpSocketOptions {
    pub linger: Option<u64>,
    pub keepalive: bool,
    pub nodelay: bool,
}

impl Default for TcpSocketOptions {
    fn default() -> (r: Self)
        ensures
            r.linger is None,
            !r.keepalive,
            r.nodelay,
    {
        TcpSocketOptions { linger: None, keepalive: false, nodelay: true }
    }
}

/// Narrows a receive-window size to the segment header's 16-bit field.
pub fn clamp_window(w: u32) -> (r: u16)
    ensures
        r as int == if w > 0xFFFF {
            0xFFFF
        } else {
            w as int
        },
{
    if w > 0xFFFF {
        0xFFFF
    } else {
        w as u16
    }
}

/// Adds two 32-bit sequence numbers, wrapping around the sequence space.
pub fn seq_add(a: u32, b: u32) -> (r: u32)
    ensures
        r == (a + b) % 0x1_0000_0000,
{
    let s: u64 = a as u64 + b as u64;
    (s % 0x1_0000_0000) as u32
}

/// The distance from `a` up to `b` in the 32-bit sequence space.
pub fn seq_sub(b: u32, a: u32) -> (r: u32)
    ensures
        r == (b + 0x1_0000_0000 - a) % 0x1_0000_0000,
        a == b ==> r == 0,
{
    let s: u64 = b as u64 + 0x1_0000_0000 - a as u64;
    (s % 0x1_0000_0000) as u32
}

} // verus!
