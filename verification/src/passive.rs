use vstd::prelude::*;
use std::collections::HashMap;
use std::collections::VecDeque;
use crate::tcptypes::SocketAddrV4;
use crate::tcptypes::TcpHeader;
use crate::tcptypes::OutSegment;
use crate::tcptypes::seq_add;

verus! {

broadcast use vstd::std_specs::hash::group_hash_axioms;

/// The initial sequence number a listener answers a SYN with: a keyed mix
/// of the connection's four-tuple and the listener's nonce, so the
/// half-open entry can be validated without trusting stored state.
pub open spec fn cookie_isn_spec(local: SocketAddrV4, remote: SocketAddrV4, nonce: u32) -> u32 {
    let a = ((local.ip as u64) * 0x10000 + (local.port as u64)) as u64;
    let b = ((remote.ip as u64) * 0x10000 + (remote.port as u64)) as u64;
    let x = a ^ (b << 13u64) ^ ((nonce as u64) << 27u64);
    let y = x ^ (x >> 31u64);
    ((y ^ (y >> 17u64)) & 0xFFFF_FFFF) as u32
}

/// Computes `cookie_isn_spec` at run time.
pub fn cookie_isn(local: SocketAddrV4, remote: SocketAddrV4, nonce: u32) -> (r: u32)
    ensures
        r == cookie_isn_spec(local, remote, nonce),
{
    let a: u64 = (local.ip as u64) * 0x10000 + (local.port as u64);
    let b: u64 = (remote.ip as u64) * 0x10000 + (remote.port as u64);
    let x: u64 = a ^ (b << 13u64) ^ ((nonce as u64) << 27u64);
    let y: u64 = x ^ (x >> 31u64);
    ((y ^ (y >> 17u64)) & 0xFFFF_FFFF) as u32
}

/// The key under which a prospective peer is filed: its address and port
/// packed into one word.
pub open spec fn tuple_key_spec(remote: SocketAddrV4) -> u64 {
    ((remote.ip as u64) * 0x10000 + (remote.port as u64)) as u64
}

fn tuple_key(remote: SocketAddrV4) -> (r: u64)
    ensures
        r == tuple_key_spec(remote),
{
    (remote.ip as u64) * 0x10000 + (remote.port as u64)
}

/// Whether two listener values describe the same listening state.
pub open spec fn listener_view_eq(a: PassiveSocket, b: PassiveSocket) -> bool {
    &&& a.local_spec() == b.local_spec()
    &&& a.backlog_spec() == b.backlog_spec()
    &&& a.nonce_spec() == b.nonce_spec()
    &&& a.inflight_spec() == b.inflight_spec()
    &&& a.ready_spec() == b.ready_spec()
    &&& a.outbox_spec() == b.outbox_spec()
    &&& a.closed_spec() == b.closed_spec()
}

/// One half-open connection: its SYN was answered, its ACK is awaited.
pub struct Inflight {
    pub remote: SocketAddrV4,
    pub peer_isn: u32,
}

/// One completed handshake, waiting to be accepted.
pub struct ReadyConn {
    pub remote: SocketAddrV4,
    pub peer_isn: u32,
    pub local_isn: u32,
    pub window: u16,
}

/// A listening endpoint: it answers SYNs with cookie-derived SYN-ACKs up
/// to its backlog, completes handshakes on the matching ACK, and queues
/// the completed connections for `accept`.
pub struct PassiveSocket {
    local: SocketAddrV4,
    backlog: usize,
    nonce: u32,
    window: u16,
    inflight: HashMap<u64, Inflight>,
    ready: VecDeque<ReadyConn>,
    outbox: VecDeque<OutSegment>,
    closed: bool,
}

impl PassiveSocket {
    pub closed spec fn local_spec(self) -> SocketAddrV4 {
        self.local
    }

    pub closed spec fn backlog_spec(self) -> usize {
        self.backlog
    }

    pub closed spec fn nonce_spec(self) -> u32 {
        self.nonce
    }

    /// The receive window the listener advertises in its SYN-ACKs.
    pub closed spec fn window_spec(self) -> u16 {
        self.window
    }

    pub closed spec fn inflight_spec(self) -> Map<u64, Inflight> {
        self.inflight@
    }

    pub closed spec fn ready_spec(self) -> Seq<ReadyConn> {
        self.ready@
    }

    pub closed spec fn outbox_spec(self) -> Seq<OutSegment> {
        self.outbox@
    }

    pub closed spec fn closed_spec(self) -> bool {
        self.closed
    }

    pub fn new(local: SocketAddrV4, backlog: usize, nonce: u32, window: u16) -> (r: Self)
        ensures
            r.local_spec() == local,
            r.backlog_spec() == backlog,
            r.nonce_spec() == nonce,
            r.window_spec() == window,
            r.inflight_spec() == Map::<u64, Inflight>::empty(),
            r.ready_spec() == Seq::<ReadyConn>::empty(),
            r.outbox_spec() == Seq::<OutSegment>::empty(),
            !r.closed_spec(),
    {
        PassiveSocket {
            local,
            backlog,
            nonce,
            window,
            inflight: HashMap::new(),
            ready: VecDeque::new(),
            outbox: VecDeque::new(),
            closed: false,
        }
    }

    pub fn endpoint(&self) -> (r: SocketAddrV4)
        ensures
            r == self.local_spec(),
    {
        self.local
    }

    /// What one inbound segment does to a listener. A SYN under the
    /// backlog is answered with a SYN-ACK whose sequence number is the
    /// keyed cookie of the four-tuple and nonce, and the peer is filed as
    /// half-open; a SYN at or over the backlog is dropped. An ACK that
    /// matches a half-open entry's cookie completes the handshake and
    /// queues the connection for accept. Everything else is dropped.
    pub open spec fn receive_effect(
        pre: PassiveSocket,
        post: PassiveSocket,
        remote: SocketAddrV4,
        hdr: TcpHeader,
    ) -> bool {
        let key = tuple_key_spec(remote);
        let cookie = cookie_isn_spec(pre.local_spec(), remote, pre.nonce_spec());
        &&& post.local_spec() == pre.local_spec()
        &&& post.backlog_spec() == pre.backlog_spec()
        &&& post.nonce_spec() == pre.nonce_spec()
        &&& post.window_spec() == pre.window_spec()
        &&& post.closed_spec() == pre.closed_spec()
        &&& pre.ready_spec().is_prefix_of(post.ready_spec())
        &&& if hdr.syn && !hdr.ack && !hdr.rst && !pre.closed_spec()
            && pre.inflight_spec().dom().len() + pre.ready_spec().len() < pre.backlog_spec() {
            &&& post.inflight_spec() =~= pre.inflight_spec().insert(
                key,
                Inflight { remote, peer_isn: hdr.seq },
            )
            &&& post.ready_spec() == pre.ready_spec()
            &&& post.outbox_spec().len() == pre.outbox_spec().len() + 1
            &&& post.outbox_spec().subrange(0, pre.outbox_spec().len() as int)
                == pre.outbox_spec()
            &&& ({
                let s = post.outbox_spec().last();
                &&& s.remote == remote
                &&& s.header.syn && s.header.ack && !s.header.fin && !s.header.rst
                &&& s.header.seq == cookie
                &&& s.header.ack_num == (hdr.seq + 1) % 0x1_0000_0000
                &&& s.header.window == pre.window_spec()
                &&& s.payload@ == Seq::<u8>::empty()
            })
        } else if !hdr.syn && hdr.ack && !hdr.rst && pre.inflight_spec().contains_key(key)
            && hdr.ack_num == (cookie + 1) % 0x1_0000_0000 && hdr.seq == (
        pre.inflight_spec()[key].peer_isn + 1) % 0x1_0000_0000 {
            &&& post.inflight_spec() =~= pre.inflight_spec().remove(key)
            &&& post.ready_spec() == pre.ready_spec().push(
                ReadyConn {
                    remote,
                    peer_isn: pre.inflight_spec()[key].peer_isn,
                    local_isn: cookie,
                    window: hdr.window,
                },
            )
            &&& post.outbox_spec() == pre.outbox_spec()
        } else {
            &&& post.inflight_spec() =~= pre.inflight_spec()
            &&& post.ready_spec() == pre.ready_spec()
            &&& post.outbox_spec() == pre.outbox_spec()
        }
    }

    /// Applies one inbound segment, as `receive_effect` describes.
    pub fn receive(&mut self, remote: SocketAddrV4, hdr: TcpHeader)
        ensures
            Self::receive_effect(*old(self), *final(self), remote, hdr),
    {
        let key = tuple_key(remote);
        if hdr.syn && !hdr.ack && !hdr.rst {
            if self.closed {
                return ;
            }
            let half_open = self.inflight.len() as u128 + self.ready.len() as u128;
            if half_open >= self.backlog as u128 {
                return ;
            }
            let cookie = cookie_isn(self.local, remote, self.nonce);
            self.inflight.insert(key, Inflight { remote, peer_isn: hdr.seq });
            let header = TcpHeader {
                src_port: self.local.port,
                dst_port: remote.port,
                seq: cookie,
                ack_num: seq_add(hdr.seq, 1),
                syn: true,
                ack: true,
                fin: false,
                rst: false,
                window: self.window,
            };
            self.outbox.push_back(OutSegment { remote, header, payload: Vec::new() });
            proof {
                assert(final(self).outbox_spec().subrange(
                    0,
                    old(self).outbox_spec().len() as int,
                ) =~= old(self).outbox_spec());
            }
            return ;
        }
        if !hdr.syn && hdr.ack && !hdr.rst {
            let entry_ok = match self.inflight.get(&key) {
                Some(e) => {
                    let cookie = cookie_isn(self.local, remote, self.nonce);
                    hdr.ack_num == seq_add(cookie, 1) && hdr.seq == seq_add(e.peer_isn, 1)
                },
                None => false,
            };
            if entry_ok {
                match self.inflight.remove(&key) {
                    Some(e) => {
                        let cookie = cookie_isn(self.local, remote, self.nonce);
                        self.ready.push_back(
                            ReadyConn {
                                remote,
                                peer_isn: e.peer_isn,
                                local_isn: cookie,
                                window: hdr.window,
                            },
                        );
                    },
                    None => {
                        proof {
                            assert(false);
                        }
                    },
                }
            }
            return ;
        }
    }

    /// Hands out the next completed connection, oldest first.
    pub fn pop_ready(&mut self) -> (r: Option<ReadyConn>)
        ensures
            final(self).local_spec() == old(self).local_spec(),
            final(self).backlog_spec() == old(self).backlog_spec(),
            final(self).nonce_spec() == old(self).nonce_spec(),
            final(self).inflight_spec() == old(self).inflight_spec(),
            final(self).outbox_spec() == old(self).outbox_spec(),
            final(self).closed_spec() == old(self).closed_spec(),
            old(self).ready_spec().len() == 0 ==> r is None && final(self).ready_spec() == old(
                self,
            ).ready_spec(),
            old(self).ready_spec().len() > 0 ==> r == Some(old(self).ready_spec().first())
                && final(self).ready_spec() == old(self).ready_spec().drop_first(),
    {
        let r = self.ready.pop_front();
        proof {
            if old(self).ready_spec().len() > 0 {
                assert(final(self).ready_spec() =~= old(self).ready_spec().drop_first());
            }
        }
        r
    }

    /// Stops answering SYNs. Idempotent.
    pub fn close(&mut self)
        ensures
            final(self).closed_spec(),
            final(self).local_spec() == old(self).local_spec(),
            final(self).inflight_spec() == old(self).inflight_spec(),
            final(self).ready_spec() == old(self).ready_spec(),
            final(self).outbox_spec() == old(self).outbox_spec(),
    {
        self.closed = true;
    }

    /// Drains the segments waiting for the datagram layer.
    pub fn take_outgoing(&mut self) -> (r: Vec<OutSegment>)
        ensures
            r@ == old(self).outbox_spec(),
            final(self).outbox_spec() == Seq::<OutSegment>::empty(),
            final(self).local_spec() == old(self).local_spec(),
            final(self).backlog_spec() == old(self).backlog_spec(),
            final(self).nonce_spec() == old(self).nonce_spec(),
            final(self).inflight_spec() == old(self).inflight_spec(),
            final(self).ready_spec() == old(self).ready_spec(),
            final(self).closed_spec() == old(self).closed_spec(),
    {
        let ghost ob0 = self.outbox@;
        let mut r: Vec<OutSegment> = Vec::new();
        while self.outbox.len() > 0
            invariant
                r@ + self.outbox@ == ob0,
                *self == (PassiveSocket { outbox: self.outbox, ..*old(self) }),
            decreases self.outbox@.len(),
        {
            match self.outbox.pop_front() {
                Some(seg) => {
                    r.push(seg);
                    proof {
                        assert(r@ + self.outbox@ =~= ob0);
                    }
                },
                None => {
                    proof {
                        assert(false);
                    }
                },
            }
        }
        proof {
            assert(r@ =~= ob0);
        }
        r
    }
}

} // verus!
