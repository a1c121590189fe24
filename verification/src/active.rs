use vstd::prelude::*;
use std::collections::VecDeque;
use crate::tcptypes::SocketAddrV4;
use crate::tcptypes::TcpHeader;
use crate::tcptypes::TcpConfig;
use crate::tcptypes::OutSegment;
use crate::tcptypes::Fail;
use crate::tcptypes::Errno;
use crate::tcptypes::seq_add;

verus! {

/// Where an active open stands.
#[derive(Clone, Copy, PartialEq, Eq, Structural, Debug)]
pub enum ActivePhase {
    /// SYN sent, SYN-ACK awaited.
    SynSent,
    /// Handshake complete.
    Connected,
    /// Given up: refused, timed out, or cancelled.
    Aborted,
}

/// An in-progress active open: it sends the caller's SYN, retransmits it
/// with exponential backoff up to a budget, and completes on the matching
/// SYN-ACK by emitting the final ACK.
pub struct ActiveSocket {
    local: SocketAddrV4,
    remote: SocketAddrV4,
    isn: u32,
    phase: ActivePhase,
    peer_isn: u32,
    peer_window: u16,
    error: Option<Errno>,
    window: u16,
    retries_left: u32,
    timeout_ns: u64,
    deadline: u64,
    outbox: VecDeque<OutSegment>,
}

impl ActiveSocket {
    pub closed spec fn local_spec(self) -> SocketAddrV4 {
        self.local
    }

    pub closed spec fn remote_spec(self) -> SocketAddrV4 {
        self.remote
    }

    pub closed spec fn isn_spec(self) -> u32 {
        self.isn
    }

    pub closed spec fn phase_spec(self) -> ActivePhase {
        self.phase
    }

    pub closed spec fn peer_isn_spec(self) -> u32 {
        self.peer_isn
    }

    pub closed spec fn peer_window_spec(self) -> u16 {
        self.peer_window
    }

    pub closed spec fn error_spec(self) -> Option<Errno> {
        self.error
    }

    pub closed spec fn retries_left_spec(self) -> u32 {
        self.retries_left
    }

    pub closed spec fn deadline_spec(self) -> u64 {
        self.deadline
    }

    pub closed spec fn timeout_spec(self) -> u64 {
        self.timeout_ns
    }

    pub closed spec fn outbox_spec(self) -> Seq<OutSegment> {
        self.outbox@
    }

    fn sat_add(a: u64, b: u64) -> (r: u64)
        ensures
            r as int == if a + b <= u64::MAX {
                a + b
            } else {
                u64::MAX as int
            },
    {
        if a > u64::MAX - b {
            u64::MAX
        } else {
            a + b
        }
    }

    /// Starts an active open: emits SYN with the caller-supplied initial
    /// sequence number and arms the handshake timer.
    pub fn new(
        local: SocketAddrV4,
        remote: SocketAddrV4,
        isn: u32,
        cfg: TcpConfig,
        now: u64,
    ) -> (r: Self)
        ensures
            r.local_spec() == local,
            r.remote_spec() == remote,
            r.isn_spec() == isn,
            r.phase_spec() == ActivePhase::SynSent,
            r.error_spec() is None,
            r.retries_left_spec() == cfg.handshake_retries,
            r.timeout_spec() == cfg.handshake_timeout_ns,
            r.deadline_spec() as int == (if now + cfg.handshake_timeout_ns <= u64::MAX {
                now + cfg.handshake_timeout_ns
            } else {
                u64::MAX as int
            }),
            r.outbox_spec().len() == 1,
            ({
                let s = r.outbox_spec().last();
                &&& s.remote == remote
                &&& s.header.syn && !s.header.ack && !s.header.fin && !s.header.rst
                &&& s.header.seq == isn
                &&& s.payload@ == Seq::<u8>::empty()
            }),
    {
        let header = TcpHeader {
            src_port: local.port,
            dst_port: remote.port,
            seq: isn,
            ack_num: 0,
            syn: true,
            ack: false,
            fin: false,
            rst: false,
            window: crate::tcptypes::clamp_window(cfg.recv_window),
        };
        let mut outbox: VecDeque<OutSegment> = VecDeque::new();
        outbox.push_back(OutSegment { remote, header, payload: Vec::new() });
        ActiveSocket {
            local,
            remote,
            isn,
            phase: ActivePhase::SynSent,
            peer_isn: 0,
            peer_window: 0,
            error: None,
            window: crate::tcptypes::clamp_window(cfg.recv_window),
            retries_left: cfg.handshake_retries,
            timeout_ns: cfg.handshake_timeout_ns,
            deadline: Self::sat_add(now, cfg.handshake_timeout_ns),
            outbox,
        }
    }

    /// What one inbound segment does to an in-progress open: while the SYN
    /// is out, a reset aborts with `ECONNREFUSED`, a SYN-ACK acknowledging
    /// our SYN completes the handshake and emits the final ACK, and
    /// anything else is dropped; after the open is over nothing changes.
    pub open spec fn receive_effect(pre: ActiveSocket, post: ActiveSocket, hdr: TcpHeader) -> bool {
        &&& post.local_spec() == pre.local_spec()
        &&& post.remote_spec() == pre.remote_spec()
        &&& post.isn_spec() == pre.isn_spec()
        &&& pre.phase_spec() != ActivePhase::SynSent ==> post == pre
        &&& pre.phase_spec() == ActivePhase::SynSent && hdr.rst ==> post.phase_spec()
            == ActivePhase::Aborted && post.error_spec() == Some(Errno::Econnrefused)
        &&& pre.phase_spec() == ActivePhase::SynSent && !hdr.rst && hdr.syn && hdr.ack
            && hdr.ack_num == (pre.isn_spec() + 1) % 0x1_0000_0000 ==> {
            &&& post.phase_spec() == ActivePhase::Connected
            &&& post.peer_isn_spec() == hdr.seq
            &&& post.peer_window_spec() == hdr.window
            &&& post.outbox_spec().len() == pre.outbox_spec().len() + 1
            &&& ({
                let s = post.outbox_spec().last();
                &&& !s.header.syn && s.header.ack && !s.header.fin && !s.header.rst
                &&& s.header.seq == (pre.isn_spec() + 1) % 0x1_0000_0000
                &&& s.header.ack_num == (hdr.seq + 1) % 0x1_0000_0000
            })
        }
        &&& pre.phase_spec() == ActivePhase::SynSent && !hdr.rst && !(hdr.syn && hdr.ack
            && hdr.ack_num == (pre.isn_spec() + 1) % 0x1_0000_0000) ==> post == pre
    }

    /// Applies one inbound segment, as `receive_effect` describes.
    pub fn receive(&mut self, hdr: TcpHeader)
        ensures
            Self::receive_effect(*old(self), *final(self), hdr),
    {
        if !matches!(self.phase, ActivePhase::SynSent) {
            return ;
        }
        if hdr.rst {
            self.phase = ActivePhase::Aborted;
            self.error = Some(Errno::Econnrefused);
            return ;
        }
        if hdr.syn && hdr.ack && hdr.ack_num == seq_add(self.isn, 1) {
            self.phase = ActivePhase::Connected;
            self.peer_isn = hdr.seq;
            self.peer_window = hdr.window;
            let header = TcpHeader {
                src_port: self.local.port,
                dst_port: self.remote.port,
                seq: seq_add(self.isn, 1),
                ack_num: seq_add(hdr.seq, 1),
                syn: false,
                ack: true,
                fin: false,
                rst: false,
                window: self.window,
            };
            self.outbox.push_back(OutSegment { remote: self.remote, header, payload: Vec::new() });
        }
    }

    /// Fires the handshake timer: once the deadline passes, either
    /// retransmits the SYN with a doubled timeout, or, with the retry
    /// budget spent, aborts with `ETIMEDOUT`.
    pub fn on_timer(&mut self, now: u64)
        ensures
            final(self).local_spec() == old(self).local_spec(),
            final(self).remote_spec() == old(self).remote_spec(),
            final(self).isn_spec() == old(self).isn_spec(),
            old(self).phase_spec() != ActivePhase::SynSent || now < old(self).deadline_spec()
                ==> *final(self) == *old(self),
            old(self).phase_spec() == ActivePhase::SynSent && now >= old(self).deadline_spec()
                && old(self).retries_left_spec() == 0 ==> final(self).phase_spec()
                == ActivePhase::Aborted && final(self).error_spec() == Some(Errno::Etimedout),
            old(self).phase_spec() == ActivePhase::SynSent && now >= old(self).deadline_spec()
                && old(self).retries_left_spec() > 0 ==> {
                &&& final(self).phase_spec() == ActivePhase::SynSent
                &&& final(self).retries_left_spec() == old(self).retries_left_spec() - 1
                &&& final(self).timeout_spec() as int == (if old(self).timeout_spec() + old(
                    self,
                ).timeout_spec() <= u64::MAX {
                    2 * old(self).timeout_spec()
                } else {
                    u64::MAX as int
                })
                &&& final(self).deadline_spec() as int == (if now + final(self).timeout_spec()
                    <= u64::MAX {
                    now + final(self).timeout_spec()
                } else {
                    u64::MAX as int
                })
                &&& final(self).outbox_spec().len() == old(self).outbox_spec().len() + 1
                &&& final(self).outbox_spec().last().header.syn
                &&& final(self).outbox_spec().last().header.seq == old(self).isn_spec()
            },
    {
        if !matches!(self.phase, ActivePhase::SynSent) || now < self.deadline {
            return ;
        }
        if self.retries_left == 0 {
            self.phase = ActivePhase::Aborted;
            self.error = Some(Errno::Etimedout);
            return ;
        }
        self.retries_left = self.retries_left - 1;
        self.timeout_ns = Self::sat_add(self.timeout_ns, self.timeout_ns);
        self.deadline = Self::sat_add(now, self.timeout_ns);
        let header = TcpHeader {
            src_port: self.local.port,
            dst_port: self.remote.port,
            seq: self.isn,
            ack_num: 0,
            syn: true,
            ack: false,
            fin: false,
            rst: false,
            window: self.window,
        };
        self.outbox.push_back(OutSegment { remote: self.remote, header, payload: Vec::new() });
    }

    /// What the open came to, if it is over: the peer's initial sequence
    /// number and window on success, the error on failure.
    pub fn result(&self) -> (r: Option<Result<(u32, u16), Fail>>)
        ensures
            self.phase_spec() == ActivePhase::SynSent ==> r is None,
            self.phase_spec() == ActivePhase::Connected ==> r == Some(
                Ok::<(u32, u16), Fail>((self.peer_isn_spec(), self.peer_window_spec())),
            ),
            self.phase_spec() == ActivePhase::Aborted ==> r == Some(
                Err::<(u32, u16), Fail>(
                    Fail {
                        errno: match self.error_spec() {
                            Some(e) => e,
                            None => Errno::Einval,
                        },
                    },
                ),
            ),
    {
        match self.phase {
            ActivePhase::SynSent => None,
            ActivePhase::Connected => Some(Ok((self.peer_isn, self.peer_window))),
            ActivePhase::Aborted => Some(
                Err(
                    Fail {
                        errno: match self.error {
                            Some(e) => e,
                            None => Errno::Einval,
                        },
                    },
                ),
            ),
        }
    }

    pub fn isn(&self) -> (r: u32)
        ensures
            r == self.isn_spec(),
    {
        self.isn
    }

    pub fn endpoints(&self) -> (r: (SocketAddrV4, SocketAddrV4))
        ensures
            r == (self.local_spec(), self.remote_spec()),
    {
        (self.local, self.remote)
    }

    /// Cancels the open.
    pub fn close(&mut self)
        ensures
            final(self).phase_spec() == ActivePhase::Aborted,
            final(self).local_spec() == old(self).local_spec(),
            final(self).remote_spec() == old(self).remote_spec(),
    {
        self.phase = ActivePhase::Aborted;
        if self.error.is_none() {
            self.error = Some(Errno::Einval);
        }
    }

    /// Drains the segments waiting for the datagram layer.
    pub fn take_outgoing(&mut self) -> (r: Vec<OutSegment>)
        ensures
            r@ == old(self).outbox_spec(),
            final(self).outbox_spec() == Seq::<OutSegment>::empty(),
            final(self).local_spec() == old(self).local_spec(),
            final(self).remote_spec() == old(self).remote_spec(),
            final(self).phase_spec() == old(self).phase_spec(),
    {
        let ghost ob0 = self.outbox@;
        let mut r: Vec<OutSegment> = Vec::new();
        while self.outbox.len() > 0
            invariant
                r@ + self.outbox@ == ob0,
                *self == (ActiveSocket { outbox: self.outbox, ..*old(self) }),
            decreases self.outbox@.len(),
        {
            match self.outbox.pop_front() {
                Some(seg) => {
                    r.push(seg);
                    proof {
                        assert(r@ + self.outbox@ =~= ob0);
                    }
                },
                None => {
                    proof {
                        assert(false);
                    }
                },
            }
        }
        proof {
            assert(r@ =~= ob0);
        }
        r
    }
}

} // verus!
