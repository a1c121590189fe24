use vstd::prelude::*;
use crate::tcptypes::SocketAddrV4;
use crate::tcptypes::SocketId;
use crate::tcptypes::TcpHeader;
use crate::tcptypes::TcpConfig;
use crate::tcptypes::TcpSocketOptions;
use crate::tcptypes::SocketOption;
use crate::tcptypes::OutSegment;
use crate::tcptypes::Fail;
use crate::tcptypes::Errno;
use crate::tcptypes::seq_add;
use crate::passive::PassiveSocket;
use crate::passive::listener_view_eq;
use crate::active::ActiveSocket;
use crate::active::ActivePhase;
use crate::established::EstablishedSocket;
use crate::established::ControlBlock;
use crate::established::EstState;
use crate::established::est_rank;

verus! {

/// Where a socket stands in its lifetime. A socket traverses these
/// states in one direction only.
pub enum SocketState {
    Unbound,
    Bound(SocketAddrV4),
    Listening(PassiveSocket),
    Connecting(ActiveSocket),
    Established(EstablishedSocket),
    Closing(EstablishedSocket),
}

/// A measure under which every legal socket transition is non-decreasing:
/// no socket ever returns to an earlier stage of its lifetime.
pub open spec fn state_rank(s: SocketState) -> int {
    match s {
        SocketState::Unbound => 0,
        SocketState::Bound(_) => 1,
        SocketState::Listening(_) => 2,
        SocketState::Connecting(_) => 2,
        SocketState::Established(_) => 3,
        SocketState::Closing(_) => 4,
    }
}

/// Per-socket data: the state machine, the stack's tunables, and the
/// socket options.
pub struct TcpSocket {
    state: SocketState,
    cfg: TcpConfig,
    options: TcpSocketOptions,
    last_error: Option<Fail>,
}

/// The socket handle through which every operation goes.
pub struct SharedTcpSocket(TcpSocket);

impl SharedTcpSocket {
    pub closed spec fn state_spec(self) -> SocketState {
        self.0.state
    }

    pub closed spec fn cfg_spec(self) -> TcpConfig {
        self.0.cfg
    }

    pub closed spec fn options_spec(self) -> TcpSocketOptions {
        self.0.options
    }

    pub closed spec fn last_error_spec(self) -> Option<Fail> {
        self.0.last_error
    }

    pub open spec fn rank_spec(self) -> int {
        state_rank(self.state_spec())
    }

    pub open spec fn is_established(self) -> bool {
        self.state_spec() is Established
    }

    /// The endpoints of a connection in or past the handshake.
    pub open spec fn endpoints_of(self) -> (SocketAddrV4, SocketAddrV4) {
        match self.state_spec() {
            SocketState::Connecting(a) => (a.local_spec(), a.remote_spec()),
            SocketState::Established(e) => e.cb.endpoints_spec(),
            SocketState::Closing(e) => e.cb.endpoints_spec(),
            _ => (SocketAddrV4 { ip: 0, port: 0 }, SocketAddrV4 { ip: 0, port: 0 }),
        }
    }

    pub open spec fn wf(self) -> bool {
        match self.state_spec() {
            SocketState::Established(e) => e.wf(),
            SocketState::Closing(e) => e.wf(),
            _ => true,
        }
    }

    /// How `receive` routes: a socket that is not at least listening has
    /// no receive queue, and inbound segments are dropped silently.
    pub open spec fn has_recv_queue(self) -> bool {
        !(self.state_spec() is Unbound || self.state_spec() is Bound)
    }

    /// The segments the socket wants on the wire, wherever its state keeps
    /// them.
    pub open spec fn outbox_of(self) -> Seq<OutSegment> {
        match self.state_spec() {
            SocketState::Listening(p) => p.outbox_spec(),
            SocketState::Connecting(a) => a.outbox_spec(),
            SocketState::Established(e) => e.cb.outbox_spec(),
            SocketState::Closing(e) => e.cb.outbox_spec(),
            _ => Seq::<OutSegment>::empty(),
        }
    }

    /// A fresh socket, not yet bound.
    pub fn new(cfg: TcpConfig, default_socket_options: TcpSocketOptions) -> (r: Self)
        ensures
            r.wf(),
            r.state_spec() is Unbound,
            r.cfg_spec() == cfg,
            r.options_spec() == default_socket_options,
    {
        SharedTcpSocket(
            TcpSocket {
                state: SocketState::Unbound,
                cfg,
                options: default_socket_options,
                last_error: None,
            },
        )
    }

    /// A socket born established, as `accept` hands them out.
    pub fn new_established(
        socket: EstablishedSocket,
        cfg: TcpConfig,
        default_socket_options: TcpSocketOptions,
    ) -> (r: Self)
        requires
            socket.wf(),
        ensures
            r.wf(),
            r.state_spec() == SocketState::Established(socket),
            r.cfg_spec() == cfg,
            r.options_spec() == default_socket_options,
    {
        SharedTcpSocket(
            TcpSocket { state: SocketState::Established(socket), cfg, options: default_socket_options, last_error: None },
        )
    }

    /// Sets one socket option, leaving the others alone.
    pub fn set_socket_option(&mut self, option: SocketOption) -> (r: Result<(), Fail>)
        ensures
            r is Ok,
            final(self).state_spec() == old(self).state_spec(),
            final(self).cfg_spec() == old(self).cfg_spec(),
            match option {
                SocketOption::Linger(l) => final(self).options_spec() == (TcpSocketOptions {
                    linger: l,
                    ..old(self).options_spec()
                }),
                SocketOption::KeepAlive(k) => final(self).options_spec() == (TcpSocketOptions {
                    keepalive: k,
                    ..old(self).options_spec()
                }),
                SocketOption::NoDelay(n) => final(self).options_spec() == (TcpSocketOptions {
                    nodelay: n,
                    ..old(self).options_spec()
                }),
            },
    {
        match option {
            SocketOption::Linger(l) => self.0.options.linger = l,
            SocketOption::KeepAlive(k) => self.0.options.keepalive = k,
            SocketOption::NoDelay(n) => self.0.options.nodelay = n,
        }
        Ok(())
    }

    /// Reads the option named by the variant of `option`.
    pub fn get_socket_option(&mut self, option: SocketOption) -> (r: Result<SocketOption, Fail>)
        ensures
            *final(self) == *old(self),
            match option {
                SocketOption::Linger(_) => r == Ok::<SocketOption, Fail>(
                    SocketOption::Linger(old(self).options_spec().linger),
                ),
                SocketOption::KeepAlive(_) => r == Ok::<SocketOption, Fail>(
                    SocketOption::KeepAlive(old(self).options_spec().keepalive),
                ),
                SocketOption::NoDelay(_) => r == Ok::<SocketOption, Fail>(
                    SocketOption::NoDelay(old(self).options_spec().nodelay),
                ),
            },
    {
        match option {
            SocketOption::Linger(_) => Ok(SocketOption::Linger(self.0.options.linger)),
            SocketOption::KeepAlive(_) => Ok(SocketOption::KeepAlive(self.0.options.keepalive)),
            SocketOption::NoDelay(_) => Ok(SocketOption::NoDelay(self.0.options.nodelay)),
        }
    }

    /// The peer's address, for a connection that is established or still
    /// connecting; `ENOTCONN` otherwise.
    pub fn getpeername(&mut self) -> (r: Result<SocketAddrV4, Fail>)
        ensures
            *final(self) == *old(self),
            match old(self).state_spec() {
                SocketState::Established(e) => r == Ok::<SocketAddrV4, Fail>(e.cb.remote_spec()),
                SocketState::Connecting(a) => r == Ok::<SocketAddrV4, Fail>(a.remote_spec()),
                _ => r == Err::<SocketAddrV4, Fail>(Fail { errno: Errno::Enotconn }),
            },
    {
        match &self.0.state {
            SocketState::Established(e) => Ok(e.cb.get_remote()),
            SocketState::Connecting(a) => Ok(a.endpoints().1),
            _ => Err(Fail::new(Errno::Enotconn)),
        }
    }

    /// Binds an unbound socket to `local`. Rebinding is refused with
    /// `EINVAL`.
    pub fn bind(&mut self, local: SocketAddrV4) -> (r: Result<(), Fail>)
        ensures
            final(self).rank_spec() >= old(self).rank_spec(),
            final(self).wf() == old(self).wf(),
            old(self).state_spec() is Unbound ==> r is Ok && final(self).state_spec()
                == SocketState::Bound(local),
            !(old(self).state_spec() is Unbound) ==> r == Err::<(), Fail>(
                Fail { errno: Errno::Einval },
            ) && *final(self) == *old(self),
    {
        if matches!(self.0.state, SocketState::Unbound) {
            self.0.state = SocketState::Bound(local);
            Ok(())
        } else {
            Err(Fail::new(Errno::Einval))
        }
    }

    /// Turns a bound socket into a listener with the given backlog and
    /// cookie nonce; `EINVAL` from any other state.
    pub fn listen(&mut self, backlog: usize, nonce: u32) -> (r: Result<(), Fail>)
        ensures
            final(self).rank_spec() >= old(self).rank_spec(),
            final(self).wf() == old(self).wf(),
            old(self).wf() ==> match old(self).state_spec() {
                SocketState::Bound(local) => {
                    &&& r is Ok
                    &&& final(self).state_spec() matches SocketState::Listening(p)
                    &&& (final(self).state_spec() matches SocketState::Listening(p) ==> {
                        &&& p.local_spec() == local
                        &&& p.backlog_spec() == backlog
                        &&& p.nonce_spec() == nonce
                        &&& !p.closed_spec()
                        &&& p.inflight_spec() == Map::<u64, crate::passive::Inflight>::empty()
                        &&& p.ready_spec() == Seq::<crate::passive::ReadyConn>::empty()
                        &&& p.outbox_spec() == Seq::<OutSegment>::empty()
                    })
                },
                _ => r == Err::<(), Fail>(Fail { errno: Errno::Einval }) && *final(self) == *old(self),
            },
    {
        match &self.0.state {
            SocketState::Bound(local) => {
                let l = *local;
                let wnd = crate::tcptypes::clamp_window(self.0.cfg.recv_window);
                self.0.state = SocketState::Listening(PassiveSocket::new(l, backlog, nonce, wnd));
                Ok(())
            },
            _ => Err(Fail::new(Errno::Einval)),
        }
    }

    /// An MSS from the tunables that fits the segment's 16-bit field.
    fn effective_mss(&self) -> (r: usize)
        ensures
            1 <= r <= 0xFFFF,
    {
        if self.0.cfg.mss < 1 {
            1
        } else if self.0.cfg.mss > 0xFFFF {
            0xFFFF
        } else {
            self.0.cfg.mss
        }
    }

    /// Takes the next completed handshake off a listening socket, as a new
    /// established socket that inherits this one's tunables and default
    /// options; `Ok(None)` when none has completed yet; `EINVAL` when the
    /// socket is not listening.
    pub fn accept(&mut self) -> (r: Result<Option<SharedTcpSocket>, Fail>)
        requires
            old(self).wf(),
        ensures
            final(self).wf(),
            final(self).rank_spec() >= old(self).rank_spec(),
            final(self).state_spec() is Listening <==> old(self).state_spec() is Listening,
            !(old(self).state_spec() is Listening) ==> r == Err::<Option<SharedTcpSocket>, Fail>(
                Fail { errno: Errno::Einval },
            ) && *final(self) == *old(self),
            old(self).state_spec() matches SocketState::Listening(p) ==> {
                if p.ready_spec().len() == 0 {
                    r == Ok::<Option<SharedTcpSocket>, Fail>(None) && (final(self).state_spec()
                        matches SocketState::Listening(p2) ==> listener_view_eq(p2, p))
                } else {
                    &&& r matches Ok(Some(s))
                    &&& (r matches Ok(Some(s)) ==> {
                        &&& s.wf()
                        &&& s.is_established()
                        &&& s.endpoints_of() == (
                            p.local_spec(),
                            p.ready_spec().first().remote,
                        )
                        &&& s.cfg_spec() == old(self).cfg_spec()
                        &&& s.options_spec() == old(self).options_spec()
                        &&& (s.state_spec() matches SocketState::Established(es) ==> {
                            &&& es.cb.state_spec() == EstState::Established
                            &&& es.cb.rcv_nxt_spec() == (p.ready_spec().first().peer_isn + 1)
                                % 0x1_0000_0000
                            &&& es.cb.snd_nxt_spec() == (p.ready_spec().first().local_isn + 1)
                                % 0x1_0000_0000
                            &&& es.cb.recv_queue_spec() == Seq::<(u32, TcpHeader, Vec<u8>)>::empty()
                        })
                    })
                    &&& (final(self).state_spec() matches SocketState::Listening(p2) ==> {
                        &&& p2.ready_spec() == p.ready_spec().drop_first()
                        &&& p2.local_spec() == p.local_spec()
                        &&& p2.backlog_spec() == p.backlog_spec()
                        &&& p2.nonce_spec() == p.nonce_spec()
                        &&& p2.inflight_spec() == p.inflight_spec()
                        &&& p2.outbox_spec() == p.outbox_spec()
                        &&& p2.closed_spec() == p.closed_spec()
                    })
                }
            },
    {
        let mss = self.effective_mss();
        match &mut self.0.state {
            SocketState::Listening(p) => {
                let local = p.endpoint();
                match p.pop_ready() {
                    Some(rc) => {
                        let est = EstablishedSocket::new(
                            local,
                            rc.remote,
                            self.0.cfg,
                            seq_add(rc.peer_isn, 1),
                            seq_add(rc.local_isn, 1),
                            rc.window as u32,
                            mss,
                        );
                        Ok(Some(SharedTcpSocket::new_established(est, self.0.cfg, self.0.options)))
                    },
                    None => Ok(None),
                }
            },
            _ => Err(Fail::new(Errno::Einval)),
        }
    }

    /// Starts an active open towards `remote` with the caller's initial
    /// sequence number: the SYN goes out and the socket enters Connecting.
    /// Allowed from Unbound, or from Bound to the same local address;
    /// `EINVAL` otherwise.
    pub fn connect(
        &mut self,
        local: SocketAddrV4,
        remote: SocketAddrV4,
        local_isn: u32,
        now: u64,
    ) -> (r: Result<(), Fail>)
        requires
            old(self).wf(),
        ensures
            final(self).wf(),
            final(self).rank_spec() >= old(self).rank_spec(),
            ({
                let allowed = old(self).state_spec() is Unbound || old(self).state_spec()
                    == SocketState::Bound(local);
                if allowed {
                    &&& r is Ok
                    &&& final(self).state_spec() matches SocketState::Connecting(a)
                    &&& (final(self).state_spec() matches SocketState::Connecting(a) ==> {
                        &&& a.local_spec() == local
                        &&& a.remote_spec() == remote
                        &&& a.isn_spec() == local_isn
                        &&& a.phase_spec() == ActivePhase::SynSent
                        &&& a.error_spec() is None
                        &&& a.retries_left_spec() == old(self).cfg_spec().handshake_retries
                        &&& a.timeout_spec() == old(self).cfg_spec().handshake_timeout_ns
                        &&& a.deadline_spec() as int == (if now + old(self).cfg_spec().handshake_timeout_ns <= u64::MAX {
                            now + old(self).cfg_spec().handshake_timeout_ns
                        } else {
                            u64::MAX as int
                        })
                        &&& a.outbox_spec().len() == 1
                        &&& a.outbox_spec().last().header.syn
                        &&& a.outbox_spec().last().header.seq == local_isn
                        &&& a.outbox_spec().last().remote == remote
                    })
                } else {
                    r == Err::<(), Fail>(Fail { errno: Errno::Einval }) && *final(self) == *old(self)
                }
            }),
    {
        let allowed = match &self.0.state {
            SocketState::Unbound => true,
            SocketState::Bound(a) => a.ip == local.ip && a.port == local.port,
            _ => false,
        };
        if !allowed {
            return Err(Fail::new(Errno::Einval));
        }
        self.0.state = SocketState::Connecting(
            ActiveSocket::new(local, remote, local_isn, self.0.cfg, now),
        );
        Ok(())
    }

    /// Drives whatever the socket is waiting on: handshake timers and
    /// completion for a connecting socket, the background work of an
    /// established or closing connection. While the socket stays
    /// established its endpoints do not change.
    pub fn advance(&mut self, now: u64)
        requires
            old(self).wf(),
        ensures
            final(self).wf(),
            final(self).rank_spec() >= old(self).rank_spec(),
            old(self).is_established() && final(self).is_established() ==> final(self).endpoints_of() == old(self).endpoints_of(),
            old(self).state_spec() matches SocketState::Connecting(a) ==> {
                &&& (a.phase_spec() == ActivePhase::Connected ==> final(self).is_established()
                    && final(self).endpoints_of() == (a.local_spec(), a.remote_spec()))
                &&& (a.phase_spec() == ActivePhase::Connected ==> (final(self).state_spec()
                    matches SocketState::Established(e2)) && (final(self).state_spec()
                    matches SocketState::Established(e2) ==> e2.cb.state_spec()
                    == EstState::Established && e2.cb.rcv_nxt_spec() == (a.peer_isn_spec() + 1)
                    % 0x1_0000_0000 && e2.cb.snd_nxt_spec() == (a.isn_spec() + 1) % 0x1_0000_0000
                    && e2.cb.outbox_spec() == a.outbox_spec()))
                &&& (a.phase_spec() == ActivePhase::Aborted ==> final(self).state_spec()
                    is Closing && final(self).last_error_spec() == Some(
                    Fail {
                        errno: match a.error_spec() {
                            Some(e) => e,
                            None => Errno::Einval,
                        },
                    },
                ))
                &&& (a.phase_spec() == ActivePhase::SynSent && now < a.deadline_spec() ==> (
                final(self).state_spec() matches SocketState::Connecting(a2)) && (final(self).state_spec() matches SocketState::Connecting(a2) ==> a2 == a))
                &&& (a.phase_spec() == ActivePhase::SynSent && now >= a.deadline_spec()
                    && a.retries_left_spec() > 0 ==> (final(self).state_spec()
                    matches SocketState::Connecting(a2)) && (final(self).state_spec()
                    matches SocketState::Connecting(a2) ==> {
                    &&& a2.phase_spec() == ActivePhase::SynSent
                    &&& a2.retries_left_spec() == a.retries_left_spec() - 1
                    &&& a2.outbox_spec().len() == a.outbox_spec().len() + 1
                    &&& a2.outbox_spec().last().header.syn
                    &&& a2.outbox_spec().last().header.seq == a.isn_spec()
                    &&& a2.timeout_spec() as int == (if a.timeout_spec() + a.timeout_spec()
                        <= u64::MAX {
                        2 * a.timeout_spec()
                    } else {
                        u64::MAX as int
                    })
                    &&& a2.deadline_spec() as int == (if now + a2.timeout_spec() <= u64::MAX {
                        now + a2.timeout_spec()
                    } else {
                        u64::MAX as int
                    })
                }))
                &&& (a.phase_spec() == ActivePhase::SynSent && now >= a.deadline_spec()
                    && a.retries_left_spec() == 0 ==> final(self).state_spec() is Closing
                    && final(self).last_error_spec() == Some(Fail { errno: Errno::Etimedout }))
            },
            old(self).state_spec() matches SocketState::Established(e) ==> final(self).state_spec()
                matches SocketState::Established(e2) && (final(self).state_spec()
                matches SocketState::Established(e2) ==> {
                &&& e2.cb.recv_queue_spec() == Seq::<(u32, TcpHeader, Vec<u8>)>::empty()
                &&& est_rank(e2.cb.state_spec()) >= est_rank(e.cb.state_spec())
                &&& e2.cb.mss_spec() == e.cb.mss_spec()
                &&& e.cb.recv_buf_spec().is_prefix_of(e2.cb.recv_buf_spec())
            }),
            old(self).state_spec() matches SocketState::Closing(e) ==> final(self).state_spec()
                matches SocketState::Closing(e2) && (final(self).state_spec()
                matches SocketState::Closing(e2) ==> {
                &&& e2.cb.recv_queue_spec() == Seq::<(u32, TcpHeader, Vec<u8>)>::empty()
                &&& est_rank(e2.cb.state_spec()) >= est_rank(e.cb.state_spec())
                &&& e2.cb.endpoints_spec() == e.cb.endpoints_spec()
                &&& (e.cb.state_spec() == EstState::TimeWait && e.cb.recv_queue_spec().len()
                    == 0 && now < e.cb.time_wait_spec() ==> e2.cb.state_spec()
                    == EstState::TimeWait)
                &&& (e.cb.state_spec() == EstState::TimeWait && now >= e.cb.time_wait_spec()
                    && e.cb.recv_queue_spec().len() == 0 ==> e2.cb.state_spec()
                    == EstState::Closed)
            }),
            old(self).state_spec() is Unbound || old(self).state_spec() is Bound || old(self).state_spec() is Listening ==> *final(self) == *old(self),
    {
        let mss = self.effective_mss();
        let mut tmp = SocketState::Unbound;
        core::mem::swap(&mut self.0.state, &mut tmp);
        match tmp {
            SocketState::Connecting(mut a) => {
                a.on_timer(now);
                match a.result() {
                    Some(res) => {
                        let (local, remote) = a.endpoints();
                        let isn = a.isn();
                        match res {
                            Ok((peer_isn, peer_window)) => {
                                let mut est = EstablishedSocket::new(
                                    local,
                                    remote,
                                    self.0.cfg,
                                    seq_add(peer_isn, 1),
                                    seq_add(isn, 1),
                                    peer_window as u32,
                                    mss,
                                );
                                let mut pending = a.take_outgoing();
                                let ghost pseq = pending@;
                                est.cb.adopt_outgoing(&mut pending);
                                proof {
                                    assert(est.cb.outbox_spec() =~= pseq);
                                }
                                self.0.state = SocketState::Established(est);
                            },
                            Err(f) => {
                                self.0.last_error = Some(f);
                                let mut est = EstablishedSocket::new(
                                    local,
                                    remote,
                                    self.0.cfg,
                                    0,
                                    0,
                                    0,
                                    mss,
                                );
                                est.cb.abort_quiet();
                                self.0.state = SocketState::Closing(est);
                            },
                        }
                    },
                    None => {
                        self.0.state = SocketState::Connecting(a);
                    },
                }
            },
            SocketState::Established(mut e) => {
                e.background_step(now);
                self.0.state = SocketState::Established(e);
            },
            SocketState::Closing(mut e) => {
                e.background_step(now);
                self.0.state = SocketState::Closing(e);
            },
            other => {
                self.0.state = other;
            },
        }
    }

    /// Sends bytes on an established connection: accepted exactly when
    /// the connection may still send and the peer's window can take the
    /// whole buffer, in which case the bytes leave as MSS-sized segments;
    /// refused with `EAGAIN` otherwise. On a socket that is not
    /// established the call is refused with `ENOTCONN` and nothing
    /// changes.
    pub fn push(&mut self, buf: Vec<u8>, now: u64) -> (r: Result<(), Fail>)
        requires
            old(self).wf(),
        ensures
            final(self).wf(),
            final(self).is_established() == old(self).is_established(),
            final(self).endpoints_of() == old(self).endpoints_of(),
            final(self).rank_spec() >= old(self).rank_spec(),
            !old(self).is_established() ==> r == Err::<(), Fail>(Fail { errno: Errno::Enotconn })
                && *final(self) == *old(self),
            old(self).state_spec() matches SocketState::Established(e) ==> final(self).state_spec()
                matches SocketState::Established(e2) && (final(self).state_spec()
                matches SocketState::Established(e2) ==> {
                &&& e2.cb.state_spec() == e.cb.state_spec()
                &&& e2.cb.mss_spec() == e.cb.mss_spec()
                &&& e2.cb.recv_buf_spec() == e.cb.recv_buf_spec()
                &&& (r is Ok <==> e.cb.can_send_spec() && e.cb.in_flight_spec() + buf@.len()
                    <= e.cb.snd_wnd_spec())
                &&& (!e.cb.can_send_spec() ==> r == Err::<(), Fail>(
                    Fail { errno: Errno::Enotconn },
                ) && e2 == e)
                &&& (e.cb.can_send_spec() && e.cb.in_flight_spec() + buf@.len()
                    > e.cb.snd_wnd_spec() ==> r == Err::<(), Fail>(Fail { errno: Errno::Eagain })
                    && e2 == e)
                &&& (r is Ok ==> ControlBlock::send_effect(e.cb, e2.cb, buf@))
            }),
    {
        match &mut self.0.state {
            SocketState::Established(e) => e.push(buf, now),
            _ => Err(Fail::new(Errno::Enotconn)),
        }
    }

    /// Takes received bytes off an established connection: `Ok(None)` and
    /// no change when none have arrived, else the next stretch of the
    /// stream, at most `size` bytes, removed from the receive buffer. On
    /// a socket that is not established the call is refused with
    /// `ENOTCONN` and nothing changes.
    pub fn pop(&mut self, size: Option<usize>, now: u64) -> (r: Result<Option<Vec<u8>>, Fail>)
        requires
            old(self).wf(),
        ensures
            final(self).wf(),
            final(self).is_established() == old(self).is_established(),
            final(self).endpoints_of() == old(self).endpoints_of(),
            final(self).rank_spec() >= old(self).rank_spec(),
            r is Ok <==> old(self).is_established(),
            !old(self).is_established() ==> r == Err::<Option<Vec<u8>>, Fail>(
                Fail { errno: Errno::Enotconn },
            ) && *final(self) == *old(self),
            old(self).state_spec() matches SocketState::Established(e) ==> final(self).state_spec()
                matches SocketState::Established(e2) && (final(self).state_spec()
                matches SocketState::Established(e2) ==> {
                &&& e2.cb.state_spec() == e.cb.state_spec()
                &&& e2.cb.mss_spec() == e.cb.mss_spec()
                &&& e2.cb.outbox_spec() == e.cb.outbox_spec()
                &&& (e.cb.recv_buf_spec().len() == 0 ==> r == Ok::<Option<Vec<u8>>, Fail>(None)
                    && e2 == e)
                &&& (e.cb.recv_buf_spec().len() > 0 ==> ({
                    let n = if size is Some && size.unwrap() < e.cb.recv_buf_spec().len() {
                        size.unwrap() as int
                    } else {
                        e.cb.recv_buf_spec().len() as int
                    };
                    &&& r matches Ok(Some(bytes))
                    &&& (r matches Ok(Some(bytes)) ==> bytes@ == e.cb.recv_buf_spec().take(n))
                    &&& e2.cb.recv_buf_spec() == e.cb.recv_buf_spec().skip(n)
                }))
            }),
    {
        let ghost _ = now;
        match &mut self.0.state {
            SocketState::Established(e) => Ok(e.pop(size)),
            _ => Err(Fail::new(Errno::Enotconn)),
        }
    }

    /// Closes the socket in an orderly way and returns the identity the
    /// host should deregister: the connection's endpoints for a
    /// connection, the bound address for a listener or bound socket,
    /// nothing for an unbound one. Closing a socket that is already
    /// closing is refused with `ENOTSUP`.
    pub fn close(&mut self, now: u64) -> (r: Result<Option<SocketId>, Fail>)
        requires
            old(self).wf(),
        ensures
            final(self).wf(),
            final(self).rank_spec() >= old(self).rank_spec(),
            match old(self).state_spec() {
                SocketState::Unbound => r == Ok::<Option<SocketId>, Fail>(None) && *final(self)
                    == *old(self),
                SocketState::Bound(a) => r == Ok::<Option<SocketId>, Fail>(
                    Some(SocketId::Passive(a)),
                ) && *final(self) == *old(self),
                SocketState::Listening(p) => r == Ok::<Option<SocketId>, Fail>(
                    Some(SocketId::Passive(p.local_spec())),
                ) && (final(self).state_spec() matches SocketState::Listening(p2)) && (final(self).state_spec() matches SocketState::Listening(p2) ==> p2.closed_spec()
                    && p2.local_spec() == p.local_spec() && p2.inflight_spec()
                    == p.inflight_spec() && p2.ready_spec() == p.ready_spec()
                    && p2.outbox_spec() == p.outbox_spec()),
                SocketState::Connecting(a) => r == Ok::<Option<SocketId>, Fail>(
                    Some(SocketId::Active(a.local_spec(), a.remote_spec())),
                ) && (final(self).state_spec() matches SocketState::Connecting(a2)) && (final(self).state_spec() matches SocketState::Connecting(a2) ==> a2.phase_spec()
                    == ActivePhase::Aborted && a2.local_spec() == a.local_spec()
                    && a2.remote_spec() == a.remote_spec()),
                SocketState::Established(e) => if e.cb.can_send_spec() {
                    r == Ok::<Option<SocketId>, Fail>(
                        Some(SocketId::Active(e.cb.local_spec(), e.cb.remote_spec())),
                    ) && (final(self).state_spec() matches SocketState::Closing(e2)) && (final(self).state_spec() matches SocketState::Closing(e2) ==> {
                        &&& e2.cb.fin_sent()
                        &&& e2.cb.endpoints_spec() == e.cb.endpoints_spec()
                        &&& e2.cb.state_spec() == (if e.cb.state_spec() == EstState::Established {
                            EstState::FinWait1
                        } else {
                            EstState::LastAck
                        })
                        &&& e2.cb.snd_nxt_spec() == (e.cb.snd_nxt_spec() + 1) % 0x1_0000_0000
                        &&& e2.cb.outbox_spec().len() == e.cb.outbox_spec().len() + 1
                        &&& e2.cb.outbox_spec().subrange(0, e.cb.outbox_spec().len() as int)
                            == e.cb.outbox_spec()
                        &&& e2.cb.outbox_spec().last().header.fin
                        &&& e2.cb.outbox_spec().last().header.seq == e.cb.snd_nxt_spec()
                        &&& e2.cb.recv_buf_spec() == e.cb.recv_buf_spec()
                    })
                } else {
                    r == Err::<Option<SocketId>, Fail>(Fail { errno: Errno::Enotsup }) && *final(self) == *old(self)
                },
                SocketState::Closing(_) => r == Err::<Option<SocketId>, Fail>(
                    Fail { errno: Errno::Enotsup },
                ) && *final(self) == *old(self),
            },
    {
        let mut tmp = SocketState::Unbound;
        core::mem::swap(&mut self.0.state, &mut tmp);
        match tmp {
            SocketState::Established(mut e) => {
                let local = e.cb.get_local();
                let remote = e.cb.get_remote();
                match e.close(now) {
                    Ok(()) => {
                        self.0.state = SocketState::Closing(e);
                        Ok(Some(SocketId::Active(local, remote)))
                    },
                    Err(f) => {
                        self.0.state = SocketState::Established(e);
                        Err(f)
                    },
                }
            },
            SocketState::Listening(mut p) => {
                let ep = p.endpoint();
                p.close();
                self.0.state = SocketState::Listening(p);
                Ok(Some(SocketId::Passive(ep)))
            },
            SocketState::Connecting(mut a) => {
                let (local, remote) = a.endpoints();
                a.close();
                self.0.state = SocketState::Connecting(a);
                Ok(Some(SocketId::Active(local, remote)))
            },
            SocketState::Closing(e) => {
                self.0.state = SocketState::Closing(e);
                Err(Fail::new(Errno::Enotsup))
            },
            SocketState::Bound(a) => {
                self.0.state = SocketState::Bound(a);
                Ok(Some(SocketId::Passive(a)))
            },
            SocketState::Unbound => {
                self.0.state = SocketState::Unbound;
                Ok(None)
            },
        }
    }

    /// Aborts at once: an established connection is torn down with a
    /// reset. Returns the identity to deregister, as `close` does.
    pub fn hard_close(&mut self) -> (r: Result<Option<SocketId>, Fail>)
        requires
            old(self).wf(),
        ensures
            final(self).wf(),
            final(self).rank_spec() >= old(self).rank_spec(),
            match old(self).state_spec() {
                SocketState::Unbound => r == Ok::<Option<SocketId>, Fail>(None),
                SocketState::Bound(a) => r == Ok::<Option<SocketId>, Fail>(
                    Some(SocketId::Passive(a)),
                ),
                SocketState::Listening(p) => r == Ok::<Option<SocketId>, Fail>(
                    Some(SocketId::Passive(p.local_spec())),
                ) && (final(self).state_spec() matches SocketState::Listening(p2)) && (final(self).state_spec() matches SocketState::Listening(p2) ==> p2.closed_spec()
                    && p2.local_spec() == p.local_spec()),
                SocketState::Connecting(a) => r == Ok::<Option<SocketId>, Fail>(
                    Some(SocketId::Active(a.local_spec(), a.remote_spec())),
                ) && (final(self).state_spec() matches SocketState::Connecting(a2)) && (final(self).state_spec() matches SocketState::Connecting(a2) ==> a2.phase_spec()
                    == ActivePhase::Aborted),
                SocketState::Established(e) => r == Ok::<Option<SocketId>, Fail>(
                    Some(SocketId::Active(e.cb.local_spec(), e.cb.remote_spec())),
                ) && (final(self).state_spec() matches SocketState::Closing(e2)) && (final(self).state_spec() matches SocketState::Closing(e2) ==> {
                    &&& e2.cb.state_spec() == EstState::Closed
                    &&& e2.cb.endpoints_spec() == e.cb.endpoints_spec()
                    &&& (e.cb.state_spec() != EstState::Closed ==> e2.cb.outbox_spec().len()
                        == e.cb.outbox_spec().len() + 1 && e2.cb.outbox_spec().last().header.rst)
                }),
                SocketState::Closing(_) => r == Err::<Option<SocketId>, Fail>(
                    Fail { errno: Errno::Enotsup },
                ) && *final(self) == *old(self),
            },
    {
        let mut tmp = SocketState::Unbound;
        core::mem::swap(&mut self.0.state, &mut tmp);
        match tmp {
            SocketState::Established(mut e) => {
                let local = e.cb.get_local();
                let remote = e.cb.get_remote();
                e.cb.abort();
                self.0.state = SocketState::Closing(e);
                Ok(Some(SocketId::Active(local, remote)))
            },
            SocketState::Listening(mut p) => {
                let ep = p.endpoint();
                p.close();
                self.0.state = SocketState::Listening(p);
                Ok(Some(SocketId::Passive(ep)))
            },
            SocketState::Connecting(mut a) => {
                let (local, remote) = a.endpoints();
                a.close();
                self.0.state = SocketState::Connecting(a);
                Ok(Some(SocketId::Active(local, remote)))
            },
            SocketState::Closing(e) => {
                self.0.state = SocketState::Closing(e);
                Err(Fail::new(Errno::Enotsup))
            },
            SocketState::Bound(a) => {
                self.0.state = SocketState::Bound(a);
                Ok(Some(SocketId::Passive(a)))
            },
            SocketState::Unbound => {
                self.0.state = SocketState::Unbound;
                Ok(None)
            },
        }
    }

    /// The connection's two endpoints, while it is connecting or
    /// established; `ENOTCONN` otherwise.
    pub fn endpoints(&self) -> (r: Result<(SocketAddrV4, SocketAddrV4), Fail>)
        ensures
            match self.state_spec() {
                SocketState::Established(_) => r == Ok::<(SocketAddrV4, SocketAddrV4), Fail>(
                    self.endpoints_of(),
                ),
                SocketState::Connecting(_) => r == Ok::<(SocketAddrV4, SocketAddrV4), Fail>(
                    self.endpoints_of(),
                ),
                _ => r == Err::<(SocketAddrV4, SocketAddrV4), Fail>(
                    Fail { errno: Errno::Enotconn },
                ),
            },
    {
        match &self.0.state {
            SocketState::Established(e) => Ok(e.endpoints()),
            SocketState::Connecting(a) => Ok(a.endpoints()),
            _ => Err(Fail::new(Errno::Enotconn)),
        }
    }

    /// Demux entry from the datagram layer: routes one inbound segment to
    /// whatever the socket is doing. Before any receive queue exists, that
    /// is while the socket is unbound or merely bound, the segment is
    /// dropped silently: a no-op, not an error.
    pub fn receive(&mut self, src_ip: u32, tcp_hdr: TcpHeader, buf: Vec<u8>)
        requires
            old(self).wf(),
        ensures
            final(self).wf(),
            final(self).rank_spec() == old(self).rank_spec(),
            !old(self).has_recv_queue() ==> *final(self) == *old(self),
            old(self).is_established() ==> final(self).is_established() && final(self).endpoints_of() == old(self).endpoints_of(),
            old(self).state_spec() matches SocketState::Established(e) ==> final(self).state_spec() matches SocketState::Established(e2) && (final(self).state_spec()
                matches SocketState::Established(e2) ==> e2.cb.recv_queue_spec()
                == e.cb.recv_queue_spec().push((src_ip, tcp_hdr, buf)) && e2.cb.state_spec()
                == e.cb.state_spec() && e2.cb.recv_buf_spec() == e.cb.recv_buf_spec()
                && e2.cb.outbox_spec() == e.cb.outbox_spec() && e2.cb.mss_spec()
                == e.cb.mss_spec()),
            old(self).state_spec() matches SocketState::Closing(e) ==> final(self).state_spec()
                matches SocketState::Closing(e2) && (final(self).state_spec()
                matches SocketState::Closing(e2) ==> e2.cb.recv_queue_spec()
                == e.cb.recv_queue_spec().push((src_ip, tcp_hdr, buf)) && e2.cb.state_spec()
                == e.cb.state_spec() && e2.cb.endpoints_spec() == e.cb.endpoints_spec()),
            old(self).state_spec() matches SocketState::Listening(p) ==> final(self).state_spec()
                matches SocketState::Listening(p2) && (final(self).state_spec()
                matches SocketState::Listening(p2) ==> PassiveSocket::receive_effect(
                p,
                p2,
                SocketAddrV4 { ip: src_ip, port: tcp_hdr.src_port },
                tcp_hdr,
            )),
            old(self).state_spec() matches SocketState::Connecting(a) ==> final(self).state_spec()
                matches SocketState::Connecting(a2) && (final(self).state_spec()
                matches SocketState::Connecting(a2) ==> ActiveSocket::receive_effect(
                a,
                a2,
                tcp_hdr,
            )),
    {
        match &mut self.0.state {
            SocketState::Listening(p) => {
                let remote = SocketAddrV4 { ip: src_ip, port: tcp_hdr.src_port };
                p.receive(remote, tcp_hdr);
            },
            SocketState::Connecting(a) => {
                a.receive(tcp_hdr);
            },
            SocketState::Established(e) => {
                e.receive(src_ip, tcp_hdr, buf);
            },
            SocketState::Closing(e) => {
                e.receive(src_ip, tcp_hdr, buf);
            },
            _ => {},
        }
    }

    /// The local address, once there is one.
    pub fn local(&self) -> (r: Option<SocketAddrV4>)
        ensures
            match self.state_spec() {
                SocketState::Unbound => r is None,
                SocketState::Bound(a) => r == Some(a),
                SocketState::Listening(p) => r == Some(p.local_spec()),
                SocketState::Connecting(a) => r == Some(a.local_spec()),
                SocketState::Established(e) => r == Some(e.cb.local_spec()),
                SocketState::Closing(e) => r == Some(e.cb.local_spec()),
            },
    {
        match &self.0.state {
            SocketState::Unbound => None,
            SocketState::Bound(a) => Some(*a),
            SocketState::Listening(p) => Some(p.endpoint()),
            SocketState::Connecting(a) => Some(a.endpoints().0),
            SocketState::Established(e) => Some(e.cb.get_local()),
            SocketState::Closing(e) => Some(e.cb.get_local()),
        }
    }

    /// The remote address, once the socket is connected to one.
    pub fn remote(&self) -> (r: Option<SocketAddrV4>)
        ensures
            match self.state_spec() {
                SocketState::Connecting(a) => r == Some(a.remote_spec()),
                SocketState::Established(e) => r == Some(e.cb.remote_spec()),
                SocketState::Closing(e) => r == Some(e.cb.remote_spec()),
                _ => r is None,
            },
    {
        match &self.0.state {
            SocketState::Unbound => None,
            SocketState::Bound(_) => None,
            SocketState::Listening(_) => None,
            SocketState::Connecting(a) => Some(a.endpoints().1),
            SocketState::Established(e) => Some(e.cb.get_remote()),
            SocketState::Closing(e) => Some(e.cb.get_remote()),
        }
    }

    /// The error that ended the last failed handshake, if any.
    pub fn last_error(&self) -> (r: Option<Fail>)
        ensures
            r == self.last_error_spec(),
    {
        self.0.last_error
    }

    /// Bytes this socket has sent that the peer has not yet acknowledged,
    /// once a connection exists: how a host observes that a push has been
    /// fully acknowledged.
    pub fn unacked_bytes(&self) -> (r: Option<u32>)
        ensures
            match self.state_spec() {
                SocketState::Established(e) => r matches Some(n) && n as int
                    == e.cb.in_flight_spec(),
                SocketState::Closing(e) => r matches Some(n) && n as int
                    == e.cb.in_flight_spec(),
                _ => r is None,
            },
    {
        match &self.0.state {
            SocketState::Established(e) => Some(e.unacked()),
            SocketState::Closing(e) => Some(e.unacked()),
            _ => None,
        }
    }

    /// Where the connection stands, once there is one: the control
    /// block's state for an established or closing socket.
    pub fn conn_state(&self) -> (r: Option<EstState>)
        ensures
            match self.state_spec() {
                SocketState::Established(e) => r == Some(e.cb.state_spec()),
                SocketState::Closing(e) => r == Some(e.cb.state_spec()),
                _ => r is None,
            },
    {
        match &self.0.state {
            SocketState::Established(e) => Some(e.cb.state()),
            SocketState::Closing(e) => Some(e.cb.state()),
            _ => None,
        }
    }

    /// Drains every segment the socket wants transmitted, in order,
    /// leaving its outbox empty and everything else as it was.
    pub fn take_outgoing(&mut self) -> (r: Vec<OutSegment>)
        requires
            old(self).wf(),
        ensures
            final(self).wf(),
            final(self).rank_spec() == old(self).rank_spec(),
            r@ == old(self).outbox_of(),
            final(self).outbox_of() == Seq::<OutSegment>::empty(),
            old(self).is_established() ==> final(self).is_established() && final(self).endpoints_of() == old(self).endpoints_of(),
            old(self).state_spec() matches SocketState::Listening(p) ==> final(self).state_spec()
                matches SocketState::Listening(p2) && (final(self).state_spec()
                matches SocketState::Listening(p2) ==> p2.local_spec() == p.local_spec()
                && p2.backlog_spec() == p.backlog_spec() && p2.nonce_spec() == p.nonce_spec()
                && p2.inflight_spec() == p.inflight_spec() && p2.ready_spec() == p.ready_spec()
                && p2.closed_spec() == p.closed_spec()),
            old(self).state_spec() matches SocketState::Connecting(a) ==> final(self).state_spec()
                matches SocketState::Connecting(a2) && (final(self).state_spec()
                matches SocketState::Connecting(a2) ==> a2.local_spec() == a.local_spec()
                && a2.remote_spec() == a.remote_spec() && a2.phase_spec() == a.phase_spec()),
            old(self).state_spec() matches SocketState::Established(e) ==> final(self).state_spec()
                matches SocketState::Established(e2) && (final(self).state_spec()
                matches SocketState::Established(e2) ==> e2.cb.state_spec() == e.cb.state_spec()
                && e2.cb.recv_buf_spec() == e.cb.recv_buf_spec() && e2.cb.recv_queue_spec()
                == e.cb.recv_queue_spec() && e2.cb.mss_spec() == e.cb.mss_spec()),
            old(self).state_spec() matches SocketState::Closing(e) ==> final(self).state_spec()
                matches SocketState::Closing(e2) && (final(self).state_spec()
                matches SocketState::Closing(e2) ==> e2.cb.state_spec() == e.cb.state_spec()
                && e2.cb.recv_buf_spec() == e.cb.recv_buf_spec() && e2.cb.recv_queue_spec()
                == e.cb.recv_queue_spec() && e2.cb.mss_spec() == e.cb.mss_spec()),
            old(self).state_spec() is Unbound || old(self).state_spec() is Bound ==> *final(self)
                == *old(self),
    {
        match &mut self.0.state {
            SocketState::Listening(p) => p.take_outgoing(),
            SocketState::Connecting(a) => a.take_outgoing(),
            SocketState::Established(e) => e.take_outgoing(),
            SocketState::Closing(e) => e.take_outgoing(),
            _ => Vec::new(),
        }
    }
}

} // verus!
