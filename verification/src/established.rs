use vstd::prelude::*;
use std::collections::VecDeque;
use crate::tcptypes::SocketAddrV4;
use crate::tcptypes::TcpHeader;
use crate::tcptypes::TcpConfig;
use crate::tcptypes::OutSegment;
use crate::tcptypes::Fail;
use crate::tcptypes::Errno;
use crate::tcptypes::seq_add;
use crate::tcptypes::seq_sub;
use crate::rto::RtoCalculator;
use crate::task::TaskStatus;

verus! {

/// The connection states an established socket moves through while it
/// closes, ordered so that no transition ever moves backward.
#[derive(Clone, Copy, PartialEq, Eq, Structural, Debug)]
pub enum EstState {
    Established,
    FinWait1,
    FinWait2,
    CloseWait,
    LastAck,
    TimeWait,
    Closed,
}

/// A measure under which every legal transition is non-decreasing.
pub open spec fn est_rank(s: EstState) -> int {
    match s {
        EstState::Established => 0,
        EstState::FinWait1 => 1,
        EstState::CloseWait => 1,
        EstState::FinWait2 => 2,
        EstState::LastAck => 2,
        EstState::TimeWait => 3,
        EstState::Closed => 4,
    }
}

/// One segment in flight, kept until the peer acknowledges it.
pub struct RtxEntry {
    pub seq: u32,
    pub payload: Vec<u8>,
    pub fin: bool,
    pub time_sent: u64,
    pub retransmitted: bool,
}

/// Per-connection state: endpoints, sender and receiver bookkeeping, the
/// retransmission queue, the timeout estimator, the delayed-ACK and
/// TIME-WAIT timers, the inbound segment queue filled by demux, and an
/// outbox of segments for the datagram layer to transmit.
///
/// Scope: sending is gated by the peer's advertised window alone, with no
/// congestion-control algorithm layered on top; a segment arriving out of
/// order is answered with a duplicate acknowledgment and dropped rather
/// than held for reassembly; window scaling is not applied.
pub struct ControlBlock {
    local: SocketAddrV4,
    remote: SocketAddrV4,
    cfg: TcpConfig,
    state: EstState,
    snd_una: u32,
    snd_nxt: u32,
    snd_wnd: u32,
    mss: usize,
    rtx_queue: VecDeque<RtxEntry>,
    rcv_nxt: u32,
    recv_buf: VecDeque<u8>,
    recv_queue: VecDeque<(u32, TcpHeader, Vec<u8>)>,
    rto_calc: RtoCalculator,
    rtx_deadline: Option<u64>,
    ack_deadline: Option<u64>,
    time_wait_until: u64,
    fin_seq: Option<u32>,
    outbox: VecDeque<OutSegment>,
    fatal: Option<Errno>,
}

impl ControlBlock {
    pub closed spec fn local_spec(self) -> SocketAddrV4 {
        self.local
    }

    pub closed spec fn remote_spec(self) -> SocketAddrV4 {
        self.remote
    }

    pub closed spec fn state_spec(self) -> EstState {
        self.state
    }

    pub closed spec fn snd_una_spec(self) -> u32 {
        self.snd_una
    }

    pub closed spec fn snd_nxt_spec(self) -> u32 {
        self.snd_nxt
    }

    pub closed spec fn rcv_nxt_spec(self) -> u32 {
        self.rcv_nxt
    }

    pub closed spec fn recv_buf_spec(self) -> Seq<u8> {
        self.recv_buf@
    }

    pub closed spec fn recv_queue_spec(self) -> Seq<(u32, TcpHeader, Vec<u8>)> {
        self.recv_queue@
    }

    pub closed spec fn outbox_spec(self) -> Seq<OutSegment> {
        self.outbox@
    }

    pub closed spec fn mss_spec(self) -> usize {
        self.mss
    }

    pub closed spec fn fatal_spec(self) -> Option<Errno> {
        self.fatal
    }

    pub closed spec fn fin_sent(self) -> bool {
        self.fin_seq is Some
    }

    /// The sequence number our FIN occupies, once one is out.
    pub closed spec fn fin_seq_spec(self) -> Option<u32> {
        self.fin_seq
    }

    pub closed spec fn cfg_spec(self) -> TcpConfig {
        self.cfg
    }

    pub closed spec fn rto_spec(self) -> u64 {
        self.rto_calc.rto_spec()
    }

    pub open spec fn endpoints_spec(self) -> (SocketAddrV4, SocketAddrV4) {
        (self.local_spec(), self.remote_spec())
    }

    /// Bytes in flight: sent but not yet acknowledged.
    pub open spec fn in_flight_spec(self) -> int {
        (self.snd_nxt_spec() + 0x1_0000_0000 - self.snd_una_spec()) % 0x1_0000_0000
    }

    pub closed spec fn wf(self) -> bool {
        &&& self.rto_calc.wf()
        &&& 1 <= self.mss <= 0xFFFF
    }

    /// Whether the local side may still send data: it has not sent a FIN
    /// and the connection is not torn down.
    pub open spec fn can_send_spec(self) -> bool {
        (self.state_spec() == EstState::Established || self.state_spec() == EstState::CloseWait)
            && !self.fin_sent()
    }

    /// A new control block for a connection that has completed its
    /// handshake: our next sequence number is `snd_isn`, the peer's is
    /// `rcv_nxt`.
    pub fn new(
        local: SocketAddrV4,
        remote: SocketAddrV4,
        cfg: TcpConfig,
        rcv_nxt: u32,
        snd_isn: u32,
        snd_wnd: u32,
        mss: usize,
    ) -> (r: Self)
        requires
            1 <= mss <= 0xFFFF,
        ensures
            r.wf(),
            r.local_spec() == local,
            r.remote_spec() == remote,
            r.state_spec() == EstState::Established,
            r.snd_una_spec() == snd_isn,
            r.snd_nxt_spec() == snd_isn,
            r.rcv_nxt_spec() == rcv_nxt,
            r.mss_spec() == mss,
            r.recv_buf_spec() == Seq::<u8>::empty(),
            r.recv_queue_spec() == Seq::<(u32, TcpHeader, Vec<u8>)>::empty(),
            r.outbox_spec() == Seq::<OutSegment>::empty(),
            r.fatal_spec() is None,
            !r.fin_sent(),
    {
        ControlBlock {
            local,
            remote,
            cfg,
            state: EstState::Established,
            snd_una: snd_isn,
            snd_nxt: snd_isn,
            snd_wnd,
            mss,
            rtx_queue: VecDeque::new(),
            rcv_nxt,
            recv_buf: VecDeque::new(),
            recv_queue: VecDeque::new(),
            rto_calc: RtoCalculator::new(),
            rtx_deadline: None,
            ack_deadline: None,
            time_wait_until: 0,
            fin_seq: None,
            outbox: VecDeque::new(),
            fatal: None,
        }
    }

    pub fn get_local(&self) -> (r: SocketAddrV4)
        ensures
            r == self.local_spec(),
    {
        self.local
    }

    pub fn get_remote(&self) -> (r: SocketAddrV4)
        ensures
            r == self.remote_spec(),
    {
        self.remote
    }

    pub fn remote_mss(&self) -> (r: usize)
        ensures
            r == self.mss_spec(),
    {
        self.mss
    }

    pub fn rto(&self) -> (r: u64)
        requires
            self.wf(),
        ensures
            r == self.rto_spec(),
            crate::rto::RTO_MIN_NS <= r <= crate::rto::RTO_MAX_NS,
    {
        self.rto_calc.rto()
    }

    pub fn state(&self) -> (r: EstState)
        ensures
            r == self.state_spec(),
    {
        self.state
    }

    /// The receive window to advertise: the configured window less what
    /// already sits unread in the receive buffer, narrowed to the header
    /// field.
    pub closed spec fn advertised_window_spec(self) -> u16 {
        let room = self.cfg.recv_window as int - self.recv_buf@.len() as int;
        if room <= 0 {
            0u16
        } else if room > 0xFFFF {
            0xFFFFu16
        } else {
            room as u16
        }
    }

    fn advertised_window(&self) -> (r: u16)
        ensures
            r == self.advertised_window_spec(),
    {
        let used = self.recv_buf.len() as u64;
        let win = self.cfg.recv_window as u64;
        if win <= used {
            0
        } else if win - used > 0xFFFF {
            0xFFFF
        } else {
            (win - used) as u16
        }
    }

    /// Bytes sent but not yet acknowledged by the peer.
    pub fn unacked_bytes(&self) -> (r: u32)
        ensures
            r as int == self.in_flight_spec(),
    {
        seq_sub(self.snd_nxt, self.snd_una)
    }

    pub fn fatal(&self) -> (r: Option<Errno>)
        ensures
            r == self.fatal_spec(),
    {
        self.fatal
    }

    /// Demux entry: queues one inbound segment for the background step, in
    /// arrival order, touching nothing else.
    pub fn enqueue_segment(&mut self, src_ip: u32, header: TcpHeader, payload: Vec<u8>)
        ensures
            final(self).recv_queue_spec() == old(self).recv_queue_spec().push(
                (src_ip, header, payload),
            ),
            final(self).state_spec() == old(self).state_spec(),
            final(self).endpoints_spec() == old(self).endpoints_spec(),
            final(self).recv_buf_spec() == old(self).recv_buf_spec(),
            final(self).outbox_spec() == old(self).outbox_spec(),
            final(self).mss_spec() == old(self).mss_spec(),
            final(self).wf() == old(self).wf(),
    {
        self.recv_queue.push_back((src_ip, header, payload));
    }

    /// Copies `v[i..j]` into a fresh vector.
    fn sub_vec(v: &Vec<u8>, i: usize, j: usize) -> (r: Vec<u8>)
        requires
            i <= j <= v@.len(),
        ensures
            r@ == v@.subrange(i as int, j as int),
    {
        let mut r: Vec<u8> = Vec::new();
        let mut x = i;
        while x < j
            invariant
                i <= x <= j <= v@.len(),
                r@ == v@.subrange(i as int, x as int),
            decreases j - x,
        {
            r.push(v[x]);
            proof {
                assert(r@ =~= v@.subrange(i as int, x as int + 1));
            }
            x = x + 1;
        }
        r
    }

    /// What a successful send does to a connection: `snd_nxt` advances by
    /// the whole buffer, nothing is acknowledged by it, and the outbox is
    /// extended with exactly the buffer split into MSS-sized stretches of
    /// the byte stream, in order.
    pub open spec fn send_effect(pre: ControlBlock, post: ControlBlock, buf: Seq<u8>) -> bool {
        let mss = pre.mss_spec() as int;
        let k = (buf.len() + mss - 1) / mss;
        &&& post.snd_nxt_spec() == (pre.snd_nxt_spec() + buf.len()) % 0x1_0000_0000
        &&& post.snd_una_spec() == pre.snd_una_spec()
        &&& post.outbox_spec().len() == pre.outbox_spec().len() + k
        &&& post.outbox_spec().subrange(0, pre.outbox_spec().len() as int) == pre.outbox_spec()
        &&& forall|i: int|
            0 <= i < k ==> {
                let s = #[trigger] post.outbox_spec()[pre.outbox_spec().len() + i];
                let lo = i * mss;
                let hi = if (i + 1) * mss <= buf.len() {
                    (i + 1) * mss
                } else {
                    buf.len() as int
                };
                &&& s.remote == pre.remote_spec()
                &&& s.payload@ == buf.subrange(lo, hi)
                &&& s.header.seq == (pre.snd_nxt_spec() + lo) % 0x1_0000_0000
                &&& s.header.ack
                &&& s.header.ack_num == pre.rcv_nxt_spec()
                &&& !s.header.syn && !s.header.fin && !s.header.rst
                &&& s.header.src_port == pre.local_spec().port
                &&& s.header.dst_port == pre.remote_spec().port
            }
    }

    /// Sends `buf`: splits it into segments of at most one MSS, each
    /// carrying the next stretch of the byte stream, appends them to the
    /// outbox and the retransmission queue, and advances `snd_nxt` by the
    /// whole length. Refused with `EAGAIN` when the peer's window cannot
    /// take the bytes, with `ENOTCONN` once sending is no longer legal;
    /// either refusal changes nothing.
    pub fn send(&mut self, buf: Vec<u8>, now: u64) -> (r: Result<(), Fail>)
        requires
            old(self).wf(),
        ensures
            final(self).wf(),
            final(self).endpoints_spec() == old(self).endpoints_spec(),
            final(self).state_spec() == old(self).state_spec(),
            final(self).mss_spec() == old(self).mss_spec(),
            final(self).snd_wnd_spec() == old(self).snd_wnd_spec(),
            final(self).recv_buf_spec() == old(self).recv_buf_spec(),
            final(self).recv_queue_spec() == old(self).recv_queue_spec(),
            final(self).rcv_nxt_spec() == old(self).rcv_nxt_spec(),
            r is Ok <==> old(self).can_send_spec() && old(self).in_flight_spec() + buf@.len()
                <= old(self).snd_wnd_spec(),
            !old(self).can_send_spec() ==> r == Err::<(), Fail>(Fail { errno: Errno::Enotconn })
                && *final(self) == *old(self),
            old(self).can_send_spec() && old(self).in_flight_spec() + buf@.len() > old(self).snd_wnd_spec() ==> r == Err::<(), Fail>(Fail { errno: Errno::Eagain }) && *final(self)
                == *old(self),
            old(self).can_send_spec() && old(self).in_flight_spec() + buf@.len() <= old(self).snd_wnd_spec() ==> r == Ok::<(), Fail>(()) && Self::send_effect(
                *old(self),
                *final(self),
                buf@,
            ),
    {
        if !(matches!(self.state, EstState::Established) || matches!(
            self.state,
            EstState::CloseWait,
        )) || self.fin_seq.is_some() {
            return Err(Fail::new(Errno::Enotconn));
        }
        let in_flight = seq_sub(self.snd_nxt, self.snd_una);
        if in_flight as u64 > self.snd_wnd as u64 || buf.len() as u64 > self.snd_wnd as u64
            - in_flight as u64 {
            return Err(Fail::new(Errno::Eagain));
        }
        let ghost base = *self;
        let ghost m = self.mss as int;
        let total = buf.len();
        let mut pos: usize = 0;
        let mut done_x: Ghost<int> = Ghost(0int);
        proof {
            if total == 0 {
                vstd::arithmetic::div_mod::lemma_basic_div(m - 1, m);
            }
        }
        let adv = self.advertised_window();
        while pos < total
            invariant
                self.wf(),
                self.local == base.local,
                self.remote == base.remote,
                self.cfg == base.cfg,
                self.state == base.state,
                self.snd_una == base.snd_una,
                self.snd_wnd == base.snd_wnd,
                self.mss == base.mss,
                self.rcv_nxt == base.rcv_nxt,
                self.recv_buf == base.recv_buf,
                self.recv_queue == base.recv_queue,
                self.rto_calc == base.rto_calc,
                self.rtx_deadline == base.rtx_deadline,
                self.ack_deadline == base.ack_deadline,
                self.time_wait_until == base.time_wait_until,
                self.fin_seq == base.fin_seq,
                self.fatal == base.fatal,
                m == base.mss as int,
                m >= 1,
                total == buf@.len(),
                pos <= total,
                0 <= done_x@,
                pos < total ==> pos as int == done_x@ * m,
                pos == total ==> done_x@ == (total as int + m - 1) / m,
                self.snd_nxt == ((base.snd_nxt + pos) % 0x1_0000_0000) as u32,
                self.outbox@.len() == base.outbox@.len() + done_x@,
                self.outbox@.subrange(0, base.outbox@.len() as int) == base.outbox@,
                forall|i: int|
                    0 <= i < done_x@ ==> {
                        let s = #[trigger] self.outbox@[base.outbox@.len() + i];
                        let lo = i * m;
                        let hi = if (i + 1) * m <= buf@.len() {
                            (i + 1) * m
                        } else {
                            buf@.len() as int
                        };
                        &&& s.remote == base.remote
                        &&& s.payload@ == buf@.subrange(lo, hi)
                        &&& s.header.seq == (base.snd_nxt + lo) % 0x1_0000_0000
                        &&& s.header.ack
                        &&& s.header.ack_num == base.rcv_nxt
                        &&& !s.header.syn && !s.header.fin && !s.header.rst
                        &&& s.header.src_port == base.local.port
                        &&& s.header.dst_port == base.remote.port
                    },
            decreases total - pos,
        {
            let n = if total - pos < self.mss {
                total - pos
            } else {
                self.mss
            };
            let chunk = Self::sub_vec(&buf, pos, pos + n);
            let payload_copy = Self::sub_vec(&buf, pos, pos + n);
            let header = TcpHeader {
                src_port: self.local.port,
                dst_port: self.remote.port,
                seq: self.snd_nxt,
                ack_num: self.rcv_nxt,
                syn: false,
                ack: true,
                fin: false,
                rst: false,
                window: adv,
            };
            let ghost pre_outbox = self.outbox@;
            self.outbox.push_back(OutSegment { remote: self.remote, header, payload: chunk });
            self.rtx_queue.push_back(
                RtxEntry {
                    seq: self.snd_nxt,
                    payload: payload_copy,
                    fin: false,
                    time_sent: now,
                    retransmitted: false,
                },
            );
            self.snd_nxt = seq_add(self.snd_nxt, n as u32);
            proof {
                assert(pos as int == done_x@ * m);
                let x = base.snd_nxt + (pos as int);
                assert(x % 0x1_0000_0000 + n == x + n - (x / 0x1_0000_0000) * 0x1_0000_0000) by {
                    vstd::arithmetic::div_mod::lemma_fundamental_div_mod(x, 0x1_0000_0000);
                }
                assert((x % 0x1_0000_0000 + n) % 0x1_0000_0000 == (x + n) % 0x1_0000_0000) by {
                    vstd::arithmetic::div_mod::lemma_mod_multiples_vanish(
                        -(x / 0x1_0000_0000),
                        x + n,
                        0x1_0000_0000,
                    );
                }
                assert(self.outbox@.subrange(0, base.outbox@.len() as int) =~= base.outbox@);
                assert((done_x@ + 1) * m == done_x@ * m + m) by {
                    vstd::arithmetic::mul::lemma_mul_is_distributive_add_other_way(m, done_x@, 1);
                }
                assert forall|i: int|
                    0 <= i < done_x@ + 1 implies {
                    let s = #[trigger] self.outbox@[base.outbox@.len() + i];
                    let lo = i * m;
                    let hi = if (i + 1) * m <= buf@.len() {
                        (i + 1) * m
                    } else {
                        buf@.len() as int
                    };
                    &&& s.remote == base.remote
                    &&& s.payload@ == buf@.subrange(lo, hi)
                    &&& s.header.seq == (base.snd_nxt + lo) % 0x1_0000_0000
                    &&& s.header.ack
                    &&& s.header.ack_num == base.rcv_nxt
                    &&& !s.header.syn && !s.header.fin && !s.header.rst
                    &&& s.header.src_port == base.local.port
                    &&& s.header.dst_port == base.remote.port
                } by {
                    if i < done_x@ {
                        assert(self.outbox@[base.outbox@.len() + i] == pre_outbox[base.outbox@.len()
                            + i]);
                    } else {
                        assert(i * m == pos as int);
                        assert((i + 1) * m == pos as int + m) by {
                            vstd::arithmetic::mul::lemma_mul_is_distributive_add_other_way(
                                m,
                                i,
                                1,
                            );
                        }
                    }
                }
            }
            if pos + n == total {
                proof {
                    assert((done_x@ + 1) * m == done_x@ * m + m) by {
                        vstd::arithmetic::mul::lemma_mul_is_distributive_add_other_way(
                            m,
                            done_x@,
                            1,
                        );
                    }
                    assert(done_x@ + 1 == (total as int + m - 1) / m) by {
                        vstd::arithmetic::div_mod::lemma_fundamental_div_mod_converse_div(
                            total as int + m - 1,
                            m,
                            done_x@ + 1,
                            total as int + m - 1 - (done_x@ + 1) * m,
                        );
                    }
                }
            } else {
                proof {
                    assert(n == self.mss) by {
                        if n < self.mss {
                            assert(pos + n == total);
                        }
                    }
                    assert((done_x@ + 1) * m == done_x@ * m + m) by {
                        vstd::arithmetic::mul::lemma_mul_is_distributive_add_other_way(
                            m,
                            done_x@,
                            1,
                        );
                    }
                }
            }
            done_x = Ghost(done_x@ + 1);
            pos = pos + n;
        }
        if self.rtx_deadline.is_none() {
            let rto = self.rto_calc.rto();
            self.rtx_deadline = Some(now.wrapping_add(rto));
        }
        proof {
            if total == 0 {
                vstd::arithmetic::div_mod::lemma_small_mod(base.snd_nxt as nat, 0x1_0000_0000nat);
            }
        }
        Ok(())
    }

    pub closed spec fn snd_wnd_spec(self) -> u32 {
        self.snd_wnd
    }
}


impl ControlBlock {
    /// Saturating addition for deadlines.
    fn sat_add(a: u64, b: u64) -> (r: u64)
        ensures
            r as int == if a + b <= u64::MAX { a + b } else { u64::MAX as int },
    {
        if a > u64::MAX - b {
            u64::MAX
        } else {
            a + b
        }
    }

    /// Emits a pure acknowledgment: no payload, `seq` at `snd_nxt`, `ack`
    /// at `rcv_nxt`.
    fn push_pure_ack(&mut self)
        ensures
            final(self).outbox_spec().len() == old(self).outbox_spec().len() + 1,
            final(self).outbox_spec().subrange(0, old(self).outbox_spec().len() as int) == old(self).outbox_spec(),
            ({
                let s = final(self).outbox_spec().last();
                &&& s.remote == old(self).remote_spec()
                &&& s.payload@ == Seq::<u8>::empty()
                &&& s.header.ack
                &&& !s.header.syn && !s.header.fin && !s.header.rst
                &&& s.header.seq == old(self).snd_nxt_spec()
                &&& s.header.ack_num == old(self).rcv_nxt_spec()
            }),
            final(self).state_spec() == old(self).state_spec(),
            final(self).endpoints_spec() == old(self).endpoints_spec(),
            final(self).recv_buf_spec() == old(self).recv_buf_spec(),
            final(self).recv_queue_spec() == old(self).recv_queue_spec(),
            final(self).rcv_nxt_spec() == old(self).rcv_nxt_spec(),
            final(self).snd_nxt_spec() == old(self).snd_nxt_spec(),
            final(self).snd_una_spec() == old(self).snd_una_spec(),
            final(self).fatal_spec() == old(self).fatal_spec(),
            final(self).fin_sent() == old(self).fin_sent(),
            final(self).fin_seq_spec() == old(self).fin_seq_spec(),
            final(self).cfg_spec() == old(self).cfg_spec(),
            final(self).time_wait_spec() == old(self).time_wait_spec(),
            final(self).mss_spec() == old(self).mss_spec(),
            final(self).wf() == old(self).wf(),
    {
        let adv = self.advertised_window();
        let header = TcpHeader {
            src_port: self.local.port,
            dst_port: self.remote.port,
            seq: self.snd_nxt,
            ack_num: self.rcv_nxt,
            syn: false,
            ack: true,
            fin: false,
            rst: false,
            window: adv,
        };
        self.outbox.push_back(OutSegment { remote: self.remote, header, payload: Vec::new() });
        proof {
            assert(final(self).outbox_spec().subrange(0, old(self).outbox_spec().len() as int)
                =~= old(self).outbox_spec());
        }
    }

    /// Retires retransmission entries wholly covered by `ack_num`, feeding
    /// the timeout estimator with samples from segments never
    /// retransmitted, and re-arms or clears the retransmission timer.
    fn retire_acked(&mut self, ack_num: u32, now: u64)
        requires
            old(self).wf(),
        ensures
            final(self).wf(),
            final(self).state_spec() == old(self).state_spec(),
            final(self).endpoints_spec() == old(self).endpoints_spec(),
            final(self).recv_buf_spec() == old(self).recv_buf_spec(),
            final(self).recv_queue_spec() == old(self).recv_queue_spec(),
            final(self).rcv_nxt_spec() == old(self).rcv_nxt_spec(),
            final(self).snd_nxt_spec() == old(self).snd_nxt_spec(),
            final(self).snd_una_spec() == old(self).snd_una_spec(),
            final(self).outbox_spec() == old(self).outbox_spec(),
            final(self).fatal_spec() == old(self).fatal_spec(),
            final(self).fin_sent() == old(self).fin_sent(),
            final(self).fin_seq_spec() == old(self).fin_seq_spec(),
            final(self).cfg_spec() == old(self).cfg_spec(),
            final(self).mss_spec() == old(self).mss_spec(),
            final(self).time_wait_spec() == old(self).time_wait_spec(),
    {
        loop
            invariant
                self.wf(),
                self.state == old(self).state,
                self.local == old(self).local,
                self.remote == old(self).remote,
                self.recv_buf == old(self).recv_buf,
                self.recv_queue == old(self).recv_queue,
                self.rcv_nxt == old(self).rcv_nxt,
                self.snd_nxt == old(self).snd_nxt,
                self.snd_una == old(self).snd_una,
                self.outbox == old(self).outbox,
                self.fatal == old(self).fatal,
                self.fin_seq == old(self).fin_seq,
                self.mss == old(self).mss,
                self.cfg == old(self).cfg,
                self.time_wait_until == old(self).time_wait_until,
            decreases self.rtx_queue@.len(),
        {
            let covered = if self.rtx_queue.len() > 0 {
                let e = &self.rtx_queue[0];
                let elen: u64 = Self::sat_add(
                    e.payload.len() as u64,
                    if e.fin {
                        1u64
                    } else {
                        0u64
                    },
                );
                seq_sub(ack_num, e.seq) as u64 >= elen && elen > 0
            } else {
                false
            };
            if !covered {
                break ;
            }
            match self.rtx_queue.pop_front() {
                Some(e) => {
                    if !e.retransmitted && now >= e.time_sent {
                        self.rto_calc.add_sample(now - e.time_sent);
                    }
                },
                None => {
                    proof {
                        assert(false);
                    }
                },
            }
        }
        if self.rtx_queue.len() == 0 {
            self.rtx_deadline = None;
        } else {
            let rto = self.rto_calc.rto();
            self.rtx_deadline = Some(Self::sat_add(now, rto));
        }
    }

    /// Which states still accept inbound stream data.
    pub open spec fn accepts_data(s: EstState) -> bool {
        s == EstState::Established || s == EstState::FinWait1 || s == EstState::FinWait2
    }

    /// Whether a segment's acknowledgment field acknowledges bytes we have
    /// in flight.
    pub open spec fn acks_new_data(pre: ControlBlock, hdr: TcpHeader) -> bool {
        let acked = (hdr.ack_num + 0x1_0000_0000 - pre.snd_una_spec()) % 0x1_0000_0000;
        hdr.ack && 0 < acked <= pre.in_flight_spec()
    }

    /// Whether a segment's acknowledgment covers the FIN we sent.
    pub open spec fn ack_covers_fin(pre: ControlBlock, hdr: TcpHeader) -> bool {
        &&& Self::acks_new_data(pre, hdr)
        &&& match pre.fin_seq_spec() {
            Some(fs) => hdr.ack_num == (fs + 1) % 0x1_0000_0000,
            None => false,
        }
    }

    /// Where an acknowledgment of our FIN moves the close handshake.
    pub open spec fn ack_step(s: EstState, fin_acked: bool) -> EstState {
        if fin_acked {
            match s {
                EstState::FinWait1 => EstState::FinWait2,
                EstState::LastAck => EstState::Closed,
                _ => s,
            }
        } else {
            s
        }
    }

    /// Where an in-order peer FIN moves the close handshake.
    pub open spec fn fin_step(s: EstState, fin_in_order: bool) -> EstState {
        if fin_in_order {
            match s {
                EstState::Established => EstState::CloseWait,
                EstState::FinWait1 => EstState::TimeWait,
                EstState::FinWait2 => EstState::TimeWait,
                _ => s,
            }
        } else {
            s
        }
    }

    /// Whether the segment's payload lands exactly at the next expected
    /// byte while the connection still accepts stream data.
    pub open spec fn segment_data_ok(pre: ControlBlock, hdr: TcpHeader, plen: int) -> bool {
        &&& Self::accepts_data(Self::ack_step(pre.state_spec(), Self::ack_covers_fin(pre, hdr)))
        &&& 0 < plen < 0x1_0000_0000
        &&& hdr.seq == pre.rcv_nxt_spec()
    }

    /// Whether the segment carries the peer's FIN exactly in order.
    pub open spec fn segment_fin_in_order(pre: ControlBlock, hdr: TcpHeader, plen: int) -> bool {
        hdr.fin && (Self::segment_data_ok(pre, hdr, plen) || (plen == 0 && hdr.seq
            == pre.rcv_nxt_spec()))
    }

    /// The connection state after one non-reset segment: first the
    /// acknowledgment of our FIN takes its step, then the peer's in-order
    /// FIN takes its own.
    pub open spec fn segment_next_state(pre: ControlBlock, hdr: TcpHeader, plen: int) -> EstState {
        Self::fin_step(
            Self::ack_step(pre.state_spec(), Self::ack_covers_fin(pre, hdr)),
            Self::segment_fin_in_order(pre, hdr, plen),
        )
    }

    /// Applies one inbound segment to the connection: a reset tears the
    /// connection down; a valid acknowledgment advances `snd_una` and
    /// retires the retransmission queue; in-order payload is appended to
    /// the receive buffer and `rcv_nxt` advances; an in-order FIN advances
    /// `rcv_nxt` once more, is acknowledged at once, and moves the state
    /// down the close path. Out-of-order payload is dropped and answered
    /// with a duplicate acknowledgment.
    fn process_segment(&mut self, hdr: TcpHeader, payload: Vec<u8>, now: u64)
        requires
            old(self).wf(),
        ensures
            final(self).wf(),
            final(self).endpoints_spec() == old(self).endpoints_spec(),
            final(self).recv_queue_spec() == old(self).recv_queue_spec(),
            final(self).mss_spec() == old(self).mss_spec(),
            final(self).snd_nxt_spec() == old(self).snd_nxt_spec(),
            final(self).fin_seq_spec() == old(self).fin_seq_spec(),
            final(self).cfg_spec() == old(self).cfg_spec(),
            est_rank(final(self).state_spec()) >= est_rank(old(self).state_spec()),
            old(self).recv_buf_spec().is_prefix_of(final(self).recv_buf_spec()),
            final(self).snd_una_spec() == (if !hdr.rst && Self::acks_new_data(*old(self), hdr) {
                hdr.ack_num
            } else {
                old(self).snd_una_spec()
            }),
            !hdr.rst ==> final(self).state_spec() == Self::segment_next_state(
                *old(self),
                hdr,
                payload@.len() as int,
            ),
            !hdr.rst && Self::segment_next_state(*old(self), hdr, payload@.len() as int)
                == EstState::TimeWait && old(self).state_spec() != EstState::TimeWait ==> final(self).time_wait_spec() as int == (if now + old(self).cfg_spec().time_wait_ns
                <= u64::MAX {
                now + old(self).cfg_spec().time_wait_ns
            } else {
                u64::MAX as int
            }),
            hdr.rst ==> final(self).state_spec() == EstState::Closed && final(self).fatal_spec()
                == Some(Errno::Econnreset) && final(self).recv_buf_spec() == old(self).recv_buf_spec(),
            !hdr.rst && Self::accepts_data(old(self).state_spec()) && hdr.seq == old(self).rcv_nxt_spec() && 0 < payload@.len() < 0x1_0000_0000 ==> final(self).recv_buf_spec()
                == old(self).recv_buf_spec() + payload@ && final(self).rcv_nxt_spec() == (hdr.seq
                + payload@.len() + (if hdr.fin {
                1int
            } else {
                0int
            })) % 0x1_0000_0000,
            !hdr.rst && !(Self::accepts_data(old(self).state_spec()) && hdr.seq == old(self).rcv_nxt_spec() && 0 < payload@.len() < 0x1_0000_0000) ==> final(self).recv_buf_spec()
                == old(self).recv_buf_spec(),
    {
        if hdr.rst {
            self.state = EstState::Closed;
            self.fatal = Some(Errno::Econnreset);
            return ;
        }
        if hdr.ack {
            let acked = seq_sub(hdr.ack_num, self.snd_una);
            let in_flight = seq_sub(self.snd_nxt, self.snd_una);
            if acked > 0 && acked as u64 <= in_flight as u64 {
                self.snd_una = hdr.ack_num;
                self.snd_wnd = hdr.window as u32;
                self.retire_acked(hdr.ack_num, now);
                match self.fin_seq {
                    Some(fs) => {
                        if hdr.ack_num == seq_add(fs, 1) {
                            if matches!(self.state, EstState::FinWait1) {
                                self.state = EstState::FinWait2;
                            } else if matches!(self.state, EstState::LastAck) {
                                self.state = EstState::Closed;
                            }
                        }
                    },
                    None => {},
                }
            }
        }
        let plen = payload.len();
        let mut advanced = false;
        let data_ok = (matches!(self.state, EstState::Established) || matches!(
            self.state,
            EstState::FinWait1,
        ) || matches!(self.state, EstState::FinWait2)) && plen > 0 && (plen as u64)
            < 0x1_0000_0000 && hdr.seq == self.rcv_nxt;
        if data_ok {
            let ghost rb0 = self.recv_buf@;
            let ghost pre_data = *self;
            let mut i: usize = 0;
            while i < plen
                invariant
                    i <= plen,
                    plen == payload@.len(),
                    self.recv_buf@ == rb0 + payload@.take(i as int),
                    *self == (ControlBlock { recv_buf: self.recv_buf, ..pre_data }),
                decreases plen - i,
            {
                self.recv_buf.push_back(payload[i]);
                proof {
                    assert(self.recv_buf@ =~= rb0 + payload@.take(i as int + 1));
                }
                i = i + 1;
            }
            proof {
                assert(self.recv_buf@ =~= rb0 + payload@);
            }
            self.rcv_nxt = seq_add(self.rcv_nxt, plen as u32);
            advanced = true;
            if self.ack_deadline.is_none() {
                self.ack_deadline = Some(Self::sat_add(now, self.cfg.ack_delay_timeout_ns));
            }
        } else if plen > 0 {
            self.push_pure_ack();
        }
        let fin_in_order = hdr.fin && (advanced || (plen == 0 && hdr.seq == self.rcv_nxt));
        if fin_in_order {
            self.rcv_nxt = seq_add(self.rcv_nxt, 1);
            if matches!(self.state, EstState::Established) {
                self.state = EstState::CloseWait;
            } else if matches!(self.state, EstState::FinWait1) || matches!(
                self.state,
                EstState::FinWait2,
            ) {
                self.state = EstState::TimeWait;
                self.time_wait_until = Self::sat_add(now, self.cfg.time_wait_ns);
            }
            self.push_pure_ack();
        }
        proof {
            assert(old(self).recv_buf_spec().is_prefix_of(final(self).recv_buf_spec())) by {
                assert(final(self).recv_buf_spec().subrange(
                    0,
                    old(self).recv_buf_spec().len() as int,
                ) =~= old(self).recv_buf_spec());
            }
        }
    }

    /// Starts the local close: sends FIN after the stream already queued,
    /// and enters FIN-WAIT-1 (or LAST-ACK when the peer closed first).
    /// Refused once a FIN is already out or the connection is past closing.
    pub fn close(&mut self, now: u64) -> (r: Result<(), Fail>)
        requires
            old(self).wf(),
        ensures
            final(self).wf(),
            final(self).endpoints_spec() == old(self).endpoints_spec(),
            final(self).recv_buf_spec() == old(self).recv_buf_spec(),
            final(self).recv_queue_spec() == old(self).recv_queue_spec(),
            final(self).mss_spec() == old(self).mss_spec(),
            est_rank(final(self).state_spec()) >= est_rank(old(self).state_spec()),
            r is Ok <==> old(self).can_send_spec(),
            !old(self).can_send_spec() ==> r == Err::<(), Fail>(Fail { errno: Errno::Enotsup })
                && *final(self) == *old(self),
            old(self).can_send_spec() ==> {
                &&& r == Ok::<(), Fail>(())
                &&& final(self).fin_sent()
                &&& final(self).fin_seq_spec() == Some(old(self).snd_nxt_spec())
                &&& final(self).snd_nxt_spec() == (old(self).snd_nxt_spec() + 1) % 0x1_0000_0000
                &&& final(self).state_spec() == (if old(self).state_spec()
                    == EstState::Established {
                    EstState::FinWait1
                } else {
                    EstState::LastAck
                })
                &&& final(self).outbox_spec().len() == old(self).outbox_spec().len() + 1
                &&& final(self).outbox_spec().subrange(0, old(self).outbox_spec().len() as int)
                    == old(self).outbox_spec()
                &&& final(self).outbox_spec().last().header.fin
                &&& final(self).outbox_spec().last().header.seq == old(self).snd_nxt_spec()
            },
    {
        if !(matches!(self.state, EstState::Established) || matches!(
            self.state,
            EstState::CloseWait,
        )) || self.fin_seq.is_some() {
            return Err(Fail::new(Errno::Enotsup));
        }
        let adv = self.advertised_window();
        let header = TcpHeader {
            src_port: self.local.port,
            dst_port: self.remote.port,
            seq: self.snd_nxt,
            ack_num: self.rcv_nxt,
            syn: false,
            ack: true,
            fin: true,
            rst: false,
            window: adv,
        };
        self.outbox.push_back(OutSegment { remote: self.remote, header, payload: Vec::new() });
        self.rtx_queue.push_back(
            RtxEntry {
                seq: self.snd_nxt,
                payload: Vec::new(),
                fin: true,
                time_sent: now,
                retransmitted: false,
            },
        );
        self.fin_seq = Some(self.snd_nxt);
        if matches!(self.state, EstState::Established) {
            self.state = EstState::FinWait1;
        } else {
            self.state = EstState::LastAck;
        }
        self.snd_nxt = seq_add(self.snd_nxt, 1);
        if self.rtx_deadline.is_none() {
            let rto = self.rto_calc.rto();
            self.rtx_deadline = Some(Self::sat_add(now, rto));
        }
        proof {
            assert(final(self).outbox_spec().subrange(0, old(self).outbox_spec().len() as int)
                =~= old(self).outbox_spec());
        }
        Ok(())
    }

    /// Tears the connection down at once, emitting a reset when it was
    /// still exchanging data.
    pub fn abort(&mut self)
        ensures
            final(self).state_spec() == EstState::Closed,
            final(self).endpoints_spec() == old(self).endpoints_spec(),
            final(self).mss_spec() == old(self).mss_spec(),
            final(self).recv_buf_spec() == old(self).recv_buf_spec(),
            est_rank(final(self).state_spec()) >= est_rank(old(self).state_spec()),
            final(self).wf() == old(self).wf(),
            old(self).state_spec() != EstState::Closed ==> final(self).outbox_spec().len() == old(self).outbox_spec().len() + 1 && final(self).outbox_spec().subrange(
                0,
                old(self).outbox_spec().len() as int,
            ) == old(self).outbox_spec() && final(self).outbox_spec().last().header.rst && final(self).outbox_spec().last().remote == old(self).remote_spec(),
            old(self).state_spec() == EstState::Closed ==> final(self).outbox_spec() == old(self).outbox_spec(),
    {
        if !matches!(self.state, EstState::Closed) {
            let header = TcpHeader {
                src_port: self.local.port,
                dst_port: self.remote.port,
                seq: self.snd_nxt,
                ack_num: self.rcv_nxt,
                syn: false,
                ack: false,
                fin: false,
                rst: true,
                window: 0,
            };
            self.outbox.push_back(
                OutSegment { remote: self.remote, header, payload: Vec::new() },
            );
            proof {
                assert(self.outbox@.subrange(0, old(self).outbox@.len() as int) =~= old(self).outbox@);
            }
        }
        self.state = EstState::Closed;
    }

    /// Fires whichever timers are due: the delayed acknowledgment, the
    /// retransmission of the oldest unacknowledged segment, and the end of
    /// TIME-WAIT.
    pub fn on_timer(&mut self, now: u64)
        requires
            old(self).wf(),
        ensures
            final(self).wf(),
            final(self).endpoints_spec() == old(self).endpoints_spec(),
            final(self).recv_buf_spec() == old(self).recv_buf_spec(),
            final(self).recv_queue_spec() == old(self).recv_queue_spec(),
            final(self).mss_spec() == old(self).mss_spec(),
            final(self).time_wait_spec() == old(self).time_wait_spec(),
            est_rank(final(self).state_spec()) >= est_rank(old(self).state_spec()),
            old(self).state_spec() == EstState::TimeWait && now >= old(self).time_wait_spec()
                ==> final(self).state_spec() == EstState::Closed,
            old(self).state_spec() == EstState::TimeWait && now < old(self).time_wait_spec()
                ==> final(self).state_spec() == EstState::TimeWait,
    {
        match self.ack_deadline {
            Some(d) => {
                if now >= d {
                    self.push_pure_ack();
                    self.ack_deadline = None;
                }
            },
            None => {},
        }
        let rtx_due = match self.rtx_deadline {
            Some(d) => now >= d,
            None => false,
        };
        if rtx_due {
            if self.rtx_queue.len() > 0 {
                match self.rtx_queue.pop_front() {
                    Some(e) => {
                        let adv = self.advertised_window();
                        let header = TcpHeader {
                            src_port: self.local.port,
                            dst_port: self.remote.port,
                            seq: e.seq,
                            ack_num: self.rcv_nxt,
                            syn: false,
                            ack: true,
                            fin: e.fin,
                            rst: false,
                            window: adv,
                        };
                        let mut copy: Vec<u8> = Vec::new();
                        let mut i: usize = 0;
                        while i < e.payload.len()
                            invariant
                                i <= e.payload@.len(),
                                copy@ == e.payload@.take(i as int),
                            decreases e.payload@.len() - i,
                        {
                            copy.push(e.payload[i]);
                            proof {
                                assert(copy@ =~= e.payload@.take(i as int + 1));
                            }
                            i = i + 1;
                        }
                        self.outbox.push_back(
                            OutSegment { remote: self.remote, header, payload: copy },
                        );
                        self.rtx_queue.push_front(
                            RtxEntry {
                                seq: e.seq,
                                payload: e.payload,
                                fin: e.fin,
                                time_sent: e.time_sent,
                                retransmitted: true,
                            },
                        );
                    },
                    None => {
                        proof {
                            assert(false);
                        }
                    },
                }
            }
            let rto = self.rto_calc.rto();
            self.rtx_deadline = Some(Self::sat_add(now, rto));
        }
        if matches!(self.state, EstState::TimeWait) && now >= self.time_wait_until {
            self.state = EstState::Closed;
        }
    }

    pub closed spec fn time_wait_spec(self) -> u64 {
        self.time_wait_until
    }

    /// Returns the next stretch of received bytes, at most `max` of them,
    /// or nothing when the receive buffer is empty.
    pub fn pop(&mut self, max: Option<usize>) -> (r: Option<Vec<u8>>)
        ensures
            final(self).endpoints_spec() == old(self).endpoints_spec(),
            final(self).state_spec() == old(self).state_spec(),
            final(self).outbox_spec() == old(self).outbox_spec(),
            final(self).recv_queue_spec() == old(self).recv_queue_spec(),
            final(self).mss_spec() == old(self).mss_spec(),
            final(self).wf() == old(self).wf(),
            old(self).recv_buf_spec().len() == 0 ==> r is None && *final(self) == *old(self),
            old(self).recv_buf_spec().len() > 0 ==> ({
                let n = if max is Some && max.unwrap() < old(self).recv_buf_spec().len() {
                    max.unwrap() as int
                } else {
                    old(self).recv_buf_spec().len() as int
                };
                &&& r is Some
                &&& r.unwrap()@ == old(self).recv_buf_spec().take(n)
                &&& final(self).recv_buf_spec() == old(self).recv_buf_spec().skip(n)
            }),
    {
        if self.recv_buf.len() == 0 {
            return None;
        }
        let n = match max {
            Some(mx) => if mx < self.recv_buf.len() {
                mx
            } else {
                self.recv_buf.len()
            },
            None => self.recv_buf.len(),
        };
        let ghost rb0 = self.recv_buf@;
        let mut out: Vec<u8> = Vec::new();
        let mut i: usize = 0;
        while i < n
            invariant
                i <= n <= rb0.len(),
                out@ == rb0.take(i as int),
                self.recv_buf@ == rb0.skip(i as int),
                *self == (ControlBlock { recv_buf: self.recv_buf, ..*old(self) }),
            decreases n - i,
        {
            match self.recv_buf.pop_front() {
                Some(b) => {
                    out.push(b);
                    proof {
                        assert(out@ =~= rb0.take(i as int + 1));
                        assert(self.recv_buf@ =~= rb0.skip(i as int + 1));
                    }
                },
                None => {
                    proof {
                        assert(false);
                    }
                },
            }
            i = i + 1;
        }
        Some(out)
    }

    /// Hands over every segment waiting to be transmitted, in order,
    /// leaving the outbox empty.
    pub fn take_outgoing(&mut self) -> (r: Vec<OutSegment>)
        ensures
            r@ == old(self).outbox_spec(),
            final(self).outbox_spec() == Seq::<OutSegment>::empty(),
            final(self).endpoints_spec() == old(self).endpoints_spec(),
            final(self).state_spec() == old(self).state_spec(),
            final(self).recv_buf_spec() == old(self).recv_buf_spec(),
            final(self).recv_queue_spec() == old(self).recv_queue_spec(),
            final(self).mss_spec() == old(self).mss_spec(),
            final(self).wf() == old(self).wf(),
    {
        let ghost ob0 = self.outbox@;
        let mut r: Vec<OutSegment> = Vec::new();
        while self.outbox.len() > 0
            invariant
                r@ + self.outbox@ == ob0,
                *self == (ControlBlock { outbox: self.outbox, ..*old(self) }),
            decreases self.outbox@.len(),
        {
            match self.outbox.pop_front() {
                Some(seg) => {
                    r.push(seg);
                    proof {
                        assert(r@ + self.outbox@ =~= ob0);
                    }
                },
                None => {
                    proof {
                        assert(false);
                    }
                },
            }
        }
        proof {
            assert(r@ =~= ob0);
        }
        r
    }

    /// One run of the connection's background work: applies every queued
    /// inbound segment in arrival order, then fires due timers. Reports
    /// ready exactly when the connection has fully closed, so the task is
    /// removed only then.
    pub fn background_step(&mut self, now: u64) -> (r: TaskStatus)
        requires
            old(self).wf(),
        ensures
            final(self).wf(),
            final(self).endpoints_spec() == old(self).endpoints_spec(),
            final(self).mss_spec() == old(self).mss_spec(),
            est_rank(final(self).state_spec()) >= est_rank(old(self).state_spec()),
            old(self).recv_buf_spec().is_prefix_of(final(self).recv_buf_spec()),
            final(self).recv_queue_spec() == Seq::<(u32, TcpHeader, Vec<u8>)>::empty(),
            r == TaskStatus::Ready <==> final(self).state_spec() == EstState::Closed,
            old(self).state_spec() == EstState::TimeWait && old(self).recv_queue_spec().len() == 0
                && now < old(self).time_wait_spec() ==> final(self).state_spec()
                == EstState::TimeWait,
            old(self).state_spec() == EstState::TimeWait && old(self).recv_queue_spec().len() == 0
                && now >= old(self).time_wait_spec() ==> final(self).state_spec()
                == EstState::Closed,
    {
        proof {
            assert(old(self).recv_buf_spec().is_prefix_of(old(self).recv_buf_spec())) by {
                assert(old(self).recv_buf_spec().subrange(
                    0,
                    old(self).recv_buf_spec().len() as int,
                ) =~= old(self).recv_buf_spec());
            }
        }
        while self.recv_queue.len() > 0
            invariant
                self.wf(),
                self.endpoints_spec() == old(self).endpoints_spec(),
                self.mss_spec() == old(self).mss_spec(),
                est_rank(self.state_spec()) >= est_rank(old(self).state_spec()),
                old(self).recv_buf_spec().is_prefix_of(self.recv_buf_spec()),
                old(self).recv_queue_spec().len() == 0 ==> *self == *old(self),
            decreases self.recv_queue@.len(),
        {
            match self.recv_queue.pop_front() {
                Some(item) => {
                    let (src_ip, hdr, payload) = item;
                    let ghost _ = src_ip;
                    self.process_segment(hdr, payload, now);
                },
                None => {
                    proof {
                        assert(false);
                    }
                },
            }
        }
        self.on_timer(now);
        proof {
            assert(self.recv_queue@ =~= Seq::<(u32, TcpHeader, Vec<u8>)>::empty());
        }
        if matches!(self.state, EstState::Closed) {
            TaskStatus::Ready
        } else {
            TaskStatus::Pending { wake: false }
        }
    }

    /// Takes over segments a predecessor (the handshake) still owes the
    /// wire, appending them before anything this connection emits next.
    pub fn adopt_outgoing(&mut self, segs: &mut Vec<OutSegment>)
        ensures
            final(self).outbox_spec() == old(self).outbox_spec() + old(segs)@,
            final(segs)@ == Seq::<OutSegment>::empty(),
            final(self).state_spec() == old(self).state_spec(),
            final(self).endpoints_spec() == old(self).endpoints_spec(),
            final(self).recv_buf_spec() == old(self).recv_buf_spec(),
            final(self).recv_queue_spec() == old(self).recv_queue_spec(),
            final(self).snd_nxt_spec() == old(self).snd_nxt_spec(),
            final(self).snd_una_spec() == old(self).snd_una_spec(),
            final(self).rcv_nxt_spec() == old(self).rcv_nxt_spec(),
            final(self).mss_spec() == old(self).mss_spec(),
            final(self).fatal_spec() == old(self).fatal_spec(),
            final(self).fin_sent() == old(self).fin_sent(),
            final(self).wf() == old(self).wf(),
    {
        let ghost s0 = segs@;
        let ghost ob0 = self.outbox@;
        while segs.len() > 0
            invariant
                self.outbox@ + segs@ == ob0 + s0,
                *self == (ControlBlock { outbox: self.outbox, ..*old(self) }),
            decreases segs@.len(),
        {
            let seg = segs.remove(0);
            self.outbox.push_back(seg);
            proof {
                assert(self.outbox@ + segs@ =~= ob0 + s0);
            }
        }
        proof {
            assert(self.outbox@ =~= ob0 + s0);
            assert(segs@ =~= Seq::<OutSegment>::empty());
        }
    }

    /// Marks the connection closed without emitting anything, for an open
    /// that failed before any connection existed.
    pub fn abort_quiet(&mut self)
        ensures
            final(self).state_spec() == EstState::Closed,
            final(self).endpoints_spec() == old(self).endpoints_spec(),
            final(self).wf() == old(self).wf(),
    {
        self.state = EstState::Closed;
    }

    /// Borrows the queue of demuxed, not yet processed inbound segments.
    pub fn recv_queue_ref(&self) -> (r: &VecDeque<(u32, TcpHeader, Vec<u8>)>)
        ensures
            r@ == self.recv_queue_spec(),
    {
        &self.recv_queue
    }
}

/// An established connection: the control block together with the
/// background work that drives it. The background routine runs as one
/// cooperative task for the connection's whole lifetime and completes only
/// when the connection reaches its terminal state.
pub struct EstablishedSocket {
    pub cb: ControlBlock,
}

impl EstablishedSocket {
    pub open spec fn wf(self) -> bool {
        self.cb.wf()
    }

    pub fn new(
        local: SocketAddrV4,
        remote: SocketAddrV4,
        cfg: TcpConfig,
        rcv_nxt: u32,
        snd_isn: u32,
        snd_wnd: u32,
        mss: usize,
    ) -> (r: Self)
        requires
            1 <= mss <= 0xFFFF,
        ensures
            r.wf(),
            r.cb.local_spec() == local,
            r.cb.remote_spec() == remote,
            r.cb.state_spec() == EstState::Established,
            r.cb.rcv_nxt_spec() == rcv_nxt,
            r.cb.snd_nxt_spec() == snd_isn,
            r.cb.snd_una_spec() == snd_isn,
            r.cb.mss_spec() == mss,
            r.cb.recv_buf_spec() == Seq::<u8>::empty(),
            r.cb.recv_queue_spec() == Seq::<(u32, TcpHeader, Vec<u8>)>::empty(),
            r.cb.outbox_spec() == Seq::<OutSegment>::empty(),
            r.cb.fatal_spec() is None,
            !r.cb.fin_sent(),
    {
        EstablishedSocket { cb: ControlBlock::new(local, remote, cfg, rcv_nxt, snd_isn, snd_wnd, mss) }
    }

    /// Borrows the connection's inbound segment queue.
    pub fn get_recv_queue(&self) -> (r: &VecDeque<(u32, TcpHeader, Vec<u8>)>)
        ensures
            r@ == self.cb.recv_queue_spec(),
    {
        self.cb.recv_queue_ref()
    }

    /// Queues bytes onto the send stream; see `ControlBlock::send`.
    pub fn send(&mut self, buf: Vec<u8>, now: u64) -> (r: Result<(), Fail>)
        requires
            old(self).wf(),
        ensures
            final(self).wf(),
            final(self).cb.endpoints_spec() == old(self).cb.endpoints_spec(),
            final(self).cb.state_spec() == old(self).cb.state_spec(),
            final(self).cb.mss_spec() == old(self).cb.mss_spec(),
            final(self).cb.recv_buf_spec() == old(self).cb.recv_buf_spec(),
            r is Ok <==> old(self).cb.can_send_spec() && old(self).cb.in_flight_spec()
                + buf@.len() <= old(self).cb.snd_wnd_spec(),
            !old(self).cb.can_send_spec() ==> r == Err::<(), Fail>(
                Fail { errno: Errno::Enotconn },
            ) && *final(self) == *old(self),
            old(self).cb.can_send_spec() && old(self).cb.in_flight_spec() + buf@.len() > old(self).cb.snd_wnd_spec() ==> r == Err::<(), Fail>(Fail { errno: Errno::Eagain }) && *final(self) == *old(self),
            r is Ok ==> ControlBlock::send_effect(old(self).cb, final(self).cb, buf@),
    {
        self.cb.send(buf, now)
    }

    /// Queues bytes, to be acknowledged as the peer's ACKs arrive through
    /// the background step; the same gating and effect as `send`.
    pub fn push(&mut self, buf: Vec<u8>, now: u64) -> (r: Result<(), Fail>)
        requires
            old(self).wf(),
        ensures
            final(self).wf(),
            final(self).cb.endpoints_spec() == old(self).cb.endpoints_spec(),
            final(self).cb.state_spec() == old(self).cb.state_spec(),
            final(self).cb.mss_spec() == old(self).cb.mss_spec(),
            final(self).cb.recv_buf_spec() == old(self).cb.recv_buf_spec(),
            r is Ok <==> old(self).cb.can_send_spec() && old(self).cb.in_flight_spec()
                + buf@.len() <= old(self).cb.snd_wnd_spec(),
            !old(self).cb.can_send_spec() ==> r == Err::<(), Fail>(
                Fail { errno: Errno::Enotconn },
            ) && *final(self) == *old(self),
            old(self).cb.can_send_spec() && old(self).cb.in_flight_spec() + buf@.len() > old(self).cb.snd_wnd_spec() ==> r == Err::<(), Fail>(Fail { errno: Errno::Eagain }) && *final(self) == *old(self),
            r is Ok ==> ControlBlock::send_effect(old(self).cb, final(self).cb, buf@),
    {
        self.cb.send(buf, now)
    }

    /// Returns received bytes; see `ControlBlock::pop`.
    pub fn pop(&mut self, size: Option<usize>) -> (r: Option<Vec<u8>>)
        ensures
            final(self).cb.endpoints_spec() == old(self).cb.endpoints_spec(),
            final(self).cb.state_spec() == old(self).cb.state_spec(),
            final(self).cb.mss_spec() == old(self).cb.mss_spec(),
            final(self).cb.outbox_spec() == old(self).cb.outbox_spec(),
            final(self).wf() == old(self).wf(),
            old(self).cb.recv_buf_spec().len() == 0 ==> r is None && *final(self) == *old(self),
            old(self).cb.recv_buf_spec().len() > 0 ==> ({
                let n = if size is Some && size.unwrap() < old(self).cb.recv_buf_spec().len() {
                    size.unwrap() as int
                } else {
                    old(self).cb.recv_buf_spec().len() as int
                };
                &&& r is Some
                &&& r.unwrap()@ == old(self).cb.recv_buf_spec().take(n)
                &&& final(self).cb.recv_buf_spec() == old(self).cb.recv_buf_spec().skip(n)
            }),
    {
        self.cb.pop(size)
    }

    /// Starts the close handshake; see `ControlBlock::close`.
    pub fn close(&mut self, now: u64) -> (r: Result<(), Fail>)
        requires
            old(self).wf(),
        ensures
            final(self).wf(),
            final(self).cb.endpoints_spec() == old(self).cb.endpoints_spec(),
            final(self).cb.mss_spec() == old(self).cb.mss_spec(),
            final(self).cb.recv_buf_spec() == old(self).cb.recv_buf_spec(),
            est_rank(final(self).cb.state_spec()) >= est_rank(old(self).cb.state_spec()),
            r is Ok <==> old(self).cb.can_send_spec(),
            !old(self).cb.can_send_spec() ==> r == Err::<(), Fail>(Fail { errno: Errno::Enotsup })
                && *final(self) == *old(self),
            old(self).cb.can_send_spec() ==> {
                &&& r == Ok::<(), Fail>(())
                &&& final(self).cb.fin_sent()
                &&& final(self).cb.state_spec() == (if old(self).cb.state_spec()
                    == EstState::Established {
                    EstState::FinWait1
                } else {
                    EstState::LastAck
                })
                &&& final(self).cb.snd_nxt_spec() == (old(self).cb.snd_nxt_spec() + 1)
                    % 0x1_0000_0000
                &&& final(self).cb.outbox_spec().len() == old(self).cb.outbox_spec().len() + 1
                &&& final(self).cb.outbox_spec().subrange(
                    0,
                    old(self).cb.outbox_spec().len() as int,
                ) == old(self).cb.outbox_spec()
                &&& final(self).cb.outbox_spec().last().header.fin
                &&& final(self).cb.outbox_spec().last().header.seq == old(self).cb.snd_nxt_spec()
            },
    {
        self.cb.close(now)
    }

    pub fn remote_mss(&self) -> (r: usize)
        ensures
            r == self.cb.mss_spec(),
    {
        self.cb.remote_mss()
    }

    /// Bytes queued by `push` or `send` that the peer has not yet
    /// acknowledged; a pushed stretch is fully acknowledged once this
    /// returns to zero.
    pub fn unacked(&self) -> (r: u32)
        ensures
            r as int == self.cb.in_flight_spec(),
    {
        self.cb.unacked_bytes()
    }

    /// The current retransmission timeout, in nanoseconds, always within
    /// the one-to-sixty-second band.
    pub fn current_rto(&self) -> (r: u64)
        requires
            self.wf(),
        ensures
            r == self.cb.rto_spec(),
            crate::rto::RTO_MIN_NS <= r <= crate::rto::RTO_MAX_NS,
    {
        self.cb.rto()
    }

    pub fn endpoints(&self) -> (r: (SocketAddrV4, SocketAddrV4))
        ensures
            r == self.cb.endpoints_spec(),
    {
        (self.cb.get_local(), self.cb.get_remote())
    }

    /// Demux entry: queues one inbound segment for the background step.
    pub fn receive(&mut self, src_ip: u32, header: TcpHeader, payload: Vec<u8>)
        ensures
            final(self).cb.recv_queue_spec() == old(self).cb.recv_queue_spec().push(
                (src_ip, header, payload),
            ),
            final(self).cb.endpoints_spec() == old(self).cb.endpoints_spec(),
            final(self).cb.state_spec() == old(self).cb.state_spec(),
            final(self).cb.recv_buf_spec() == old(self).cb.recv_buf_spec(),
            final(self).cb.outbox_spec() == old(self).cb.outbox_spec(),
            final(self).cb.mss_spec() == old(self).cb.mss_spec(),
            final(self).wf() == old(self).wf(),
    {
        self.cb.enqueue_segment(src_ip, header, payload)
    }

    /// One run of the connection's background task.
    pub fn background_step(&mut self, now: u64) -> (r: TaskStatus)
        requires
            old(self).wf(),
        ensures
            final(self).wf(),
            final(self).cb.endpoints_spec() == old(self).cb.endpoints_spec(),
            final(self).cb.mss_spec() == old(self).cb.mss_spec(),
            est_rank(final(self).cb.state_spec()) >= est_rank(old(self).cb.state_spec()),
            old(self).cb.recv_buf_spec().is_prefix_of(final(self).cb.recv_buf_spec()),
            final(self).cb.recv_queue_spec() == Seq::<(u32, TcpHeader, Vec<u8>)>::empty(),
            r == TaskStatus::Ready <==> final(self).cb.state_spec() == EstState::Closed,
            old(self).cb.state_spec() == EstState::TimeWait && old(self).cb.recv_queue_spec().len() == 0 && now < old(self).cb.time_wait_spec() ==> final(self).cb.state_spec() == EstState::TimeWait,
            old(self).cb.state_spec() == EstState::TimeWait && old(self).cb.recv_queue_spec().len() == 0 && now >= old(self).cb.time_wait_spec() ==> final(self).cb.state_spec() == EstState::Closed,
    {
        self.cb.background_step(now)
    }

    /// Drains the segments waiting for the datagram layer.
    pub fn take_outgoing(&mut self) -> (r: Vec<OutSegment>)
        ensures
            r@ == old(self).cb.outbox_spec(),
            final(self).cb.outbox_spec() == Seq::<OutSegment>::empty(),
            final(self).cb.endpoints_spec() == old(self).cb.endpoints_spec(),
            final(self).cb.state_spec() == old(self).cb.state_spec(),
            final(self).cb.recv_buf_spec() == old(self).cb.recv_buf_spec(),
            final(self).cb.recv_queue_spec() == old(self).cb.recv_queue_spec(),
            final(self).cb.mss_spec() == old(self).cb.mss_spec(),
            final(self).wf() == old(self).wf(),
    {
        self.cb.take_outgoing()
    }
}

} // verus!
