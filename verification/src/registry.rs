//! The session registry: one transfer per peer address. Entries are
//! created only by a request from an unknown peer and leave the mapping the
//! moment their session becomes terminal; a datagram from an address with
//! no session, other than a request, draws `Error{UnknownTID}` and touches
//! no session.
//!
//! Keying by peer address alone (one active transfer per address) is a
//! deliberate simplification for a single-socket server; a distinct local
//! TID per transfer would resist TID guessing better.

use vstd::prelude::*;

use crate::packet::err_packet;
use crate::packet::error_v;
use crate::packet::DecodeError;
use crate::packet::ErrorCode;
use crate::packet::Packet;
use crate::packet::PacketV;
use crate::packet::TransferMode;
use crate::session::chunk;
use crate::session::wrap_inc;
use crate::session::Direction;
use crate::session::OpenReadOutcome;
use crate::session::OpenWriteOutcome;
use crate::session::PeerAddr;
use crate::session::SessionConfig;
use crate::session::SessionState;
use crate::session::TransferSession;

verus! {

/// There is a session for `addr` in `s`.
pub open spec fn has_session_seq(s: Seq<TransferSession>, addr: PeerAddr) -> bool {
    exists|i: int| 0 <= i < s.len() && s[i].peer == addr
}

/// The index of the session for `addr`, where one exists and addresses are
/// unique.
pub open spec fn idx_of(s: Seq<TransferSession>, addr: PeerAddr) -> int {
    choose|i: int| 0 <= i < s.len() && s[i].peer == addr
}

/// The session for `addr`, where one exists.
pub open spec fn session_at(s: Seq<TransferSession>, addr: PeerAddr) -> TransferSession {
    s[idx_of(s, addr)]
}

/// `r` is a reply carrying exactly the packet value `pv`.
pub open spec fn reply_is(r: RouteReply, pv: PacketV) -> bool {
    match r {
        RouteReply::Reply(p) => p@ == pv && p.wf(),
        _ => false,
    }
}

/// What the dispatch loop must do with an inbound datagram's packet.
pub enum RouteReply {
    /// Nothing to send.
    Ignored,
    /// Send this packet back to the datagram's source.
    Reply(Packet),
    /// A read request from a new peer: open the named source for reading
    /// and hand the outcome to `establish_read`.
    OpenRead { filename: Vec<u8>, mode: TransferMode },
    /// A write request from a new peer: open the named destination for
    /// writing and hand the outcome to `establish_write`.
    OpenWrite { filename: Vec<u8>, mode: TransferMode },
}

/// The map from peer address to its one active session.
pub struct SessionRegistry {
    pub sessions: Vec<TransferSession>,
    pub cfg: SessionConfig,
}

impl SessionRegistry {
    /// Every stored session is live, holds its own invariant, and no two
    /// share a peer address.
    pub open spec fn inv(self) -> bool {
        &&& forall|i: int|
            0 <= i < self.sessions@.len() ==> (#[trigger] self.sessions@[i]).inv()
                && self.sessions@[i].state == SessionState::Transferring
        &&& forall|i: int, j: int|
            0 <= i < self.sessions@.len() && 0 <= j < self.sessions@.len() && i != j
                ==> (#[trigger] self.sessions@[i]).peer != (#[trigger] self.sessions@[j]).peer
    }

    pub open spec fn has_session(self, addr: PeerAddr) -> bool {
        has_session_seq(self.sessions@, addr)
    }

    pub fn new(cfg: SessionConfig) -> (r: SessionRegistry)
        ensures
            r.inv(),
            r.cfg == cfg,
            r.sessions@.len() == 0,
    {
        SessionRegistry { sessions: Vec::new(), cfg }
    }

    /// Whether `addr` has an active session.
    pub fn contains_peer(&self, addr: PeerAddr) -> (r: bool)
        ensures
            r == self.has_session(addr),
    {
        match self.find(addr) {
            Some(_) => true,
            None => false,
        }
    }

    /// The addresses with an active session, in storage order.
    pub fn peers(&self) -> (r: Vec<PeerAddr>)
        ensures
            r@.len() == self.sessions@.len(),
            forall|i: int| 0 <= i < r@.len() ==> r@[i] == self.sessions@[i].peer,
    {
        let mut out: Vec<PeerAddr> = Vec::new();
        let mut i: usize = 0;
        while i < self.sessions.len()
            invariant
                i <= self.sessions@.len(),
                out@.len() == i,
                forall|j: int| 0 <= j < i ==> out@[j] == self.sessions@[j].peer,
            decreases self.sessions@.len() - i,
        {
            out.push(self.sessions[i].peer);
            i = i + 1;
        }
        out
    }

    /// The block a write session for `addr` would accept next, if `addr`
    /// has a live write session. The dispatch loop uses this to know
    /// whether a Data payload must be persisted before it is routed.
    pub fn expected_write_block(&self, addr: PeerAddr) -> (r: Option<u16>)
        requires
            self.inv(),
        ensures
            match r {
                Some(b) => self.has_session(addr) && session_at(self.sessions@, addr).direction
                    == Direction::Write && b == session_at(self.sessions@, addr).expected_block,
                None => !self.has_session(addr) || session_at(self.sessions@, addr).direction
                    == Direction::Read,
            },
    {
        match self.find(addr) {
            None => None,
            Some(i) => {
                proof {
                    self.lemma_found_is_idx(i as int, addr);
                }
                match self.sessions[i].direction {
                    Direction::Write => Some(self.sessions[i].expected_block),
                    Direction::Read => None,
                }
            },
        }
    }

    fn find(&self, addr: PeerAddr) -> (r: Option<usize>)
        ensures
            match r {
                Some(i) => i < self.sessions@.len() && self.sessions@[i as int].peer == addr,
                None => !self.has_session(addr),
            },
    {
        let mut i: usize = 0;
        while i < self.sessions.len()
            invariant
                i <= self.sessions@.len(),
                forall|j: int| 0 <= j < i ==> self.sessions@[j].peer != addr,
            decreases self.sessions@.len() - i,
        {
            if self.sessions[i].peer == addr {
                return Some(i);
            }
            i = i + 1;
        }
        None
    }

    /// With unique peers, the found index is the chosen one.
    proof fn lemma_found_is_idx(self, i: int, addr: PeerAddr)
        requires
            self.inv(),
            0 <= i < self.sessions@.len(),
            self.sessions@[i].peer == addr,
        ensures
            has_session_seq(self.sessions@, addr),
            idx_of(self.sessions@, addr) == i,
            session_at(self.sessions@, addr) == self.sessions@[i],
    {
        assert(has_session_seq(self.sessions@, addr));
        let j = idx_of(self.sessions@, addr);
        assert(0 <= j < self.sessions@.len() && self.sessions@[j].peer == addr);
        if j != i {
            assert(self.sessions@[i].peer != self.sessions@[j].peer);
        }
    }

    /// Routes one decoded datagram. `write_ok` is the storage verdict on
    /// persisting the payload, consulted only when a write session accepts
    /// its expected Data block (see `expected_write_block`).
    ///
    /// A decode failure draws `Error{IllegalOperation}` when the source has
    /// a session and is discarded without reply when it does not. A request
    /// from a new peer asks the caller to open storage; a request from a
    /// peer with a session draws `Error{IllegalOperation}` and no new
    /// session. Any other packet from a peer without a session draws
    /// `Error{UnknownTID}` and touches nothing. A session that reaches a
    /// terminal state leaves the registry at once.
    pub fn route(
        &mut self,
        src: PeerAddr,
        decoded: Result<Packet, DecodeError>,
        write_ok: bool,
        now: u64,
    ) -> (r: RouteReply)
        requires
            old(self).inv(),
            decoded is Ok ==> decoded.unwrap().wf(),
        ensures
            final(self).inv(),
            final(self).cfg == old(self).cfg,
            forall|i: int|
                0 <= i < final(self).sessions@.len()
                    && (#[trigger] final(self).sessions@[i]).peer != src
                    ==> old(self).sessions@.contains(final(self).sessions@[i]),
            forall|i: int|
                0 <= i < old(self).sessions@.len() && (#[trigger] old(self).sessions@[i]).peer
                    != src ==> final(self).sessions@.contains(old(self).sessions@[i]),
            decoded is Err && old(self).has_session(src) ==> *final(self) == *old(self)
                && reply_is(r, error_v(ErrorCode::IllegalOperation)),
            decoded is Err && !old(self).has_session(src) ==> *final(self) == *old(self)
                && r is Ignored,
            decoded is Ok && !old(self).has_session(src) ==> match decoded.unwrap()@ {
                PacketV::ReadRequest { filename, mode } => *final(self) == *old(self) && (
                r matches RouteReply::OpenRead { filename: f2, mode: m2 } && f2@ == filename && m2
                    == mode),
                PacketV::WriteRequest { filename, mode } => *final(self) == *old(self) && (
                r matches RouteReply::OpenWrite { filename: f2, mode: m2 } && f2@ == filename && m2
                    == mode),
                _ => *final(self) == *old(self) && reply_is(r, error_v(ErrorCode::UnknownTid)),
            },
            decoded is Ok && old(self).has_session(src) && ((decoded.unwrap()@ matches
            PacketV::ReadRequest { .. }) || (decoded.unwrap()@ matches PacketV::WriteRequest {
                ..
            })) ==> *final(self) == *old(self) && reply_is(
                r,
                error_v(ErrorCode::IllegalOperation),
            ),
            decoded is Ok && old(self).has_session(src) ==> ({
                let s0 = session_at(old(self).sessions@, src);
                match decoded.unwrap()@ {
                    PacketV::Error { .. } => !final(self).has_session(src) && r is Ignored,
                    PacketV::Ack { block } => {
                        if s0.direction == Direction::Write {
                            *final(self) == *old(self) && reply_is(
                                r,
                                error_v(ErrorCode::IllegalOperation),
                            )
                        } else if block != s0.expected_ack {
                            *final(self) == *old(self) && r is Ignored
                        } else if s0.file@.len() - s0.offset < 512 {
                            !final(self).has_session(src) && r is Ignored
                        } else {
                            &&& final(self).has_session(src)
                            &&& reply_is(
                                r,
                                PacketV::Data {
                                    block: wrap_inc(block),
                                    payload: chunk(s0.file@, s0.offset + 512),
                                },
                            )
                            &&& session_at(final(self).sessions@, src).offset == s0.offset + 512
                            &&& session_at(final(self).sessions@, src).expected_ack == wrap_inc(
                                block,
                            )
                        }
                    },
                    PacketV::Data { block, payload } => {
                        if s0.direction == Direction::Read {
                            *final(self) == *old(self) && reply_is(
                                r,
                                error_v(ErrorCode::IllegalOperation),
                            )
                        } else if block != s0.expected_block {
                            *final(self) == *old(self) && r is Ignored
                        } else if !write_ok {
                            !final(self).has_session(src) && reply_is(
                                r,
                                error_v(ErrorCode::DiskFull),
                            )
                        } else if payload.len() < 512 {
                            !final(self).has_session(src) && reply_is(
                                r,
                                PacketV::Ack { block },
                            )
                        } else {
                            &&& final(self).has_session(src)
                            &&& reply_is(r, PacketV::Ack { block })
                            &&& session_at(final(self).sessions@, src).received@ == s0.received@
                                + payload
                            &&& session_at(final(self).sessions@, src).expected_block == wrap_inc(
                                block,
                            )
                        }
                    },
                    _ => true,
                }
            }),
    {
        let found = self.find(src);
        match decoded {
            Err(_) => {
                match found {
                    Some(_) => RouteReply::Reply(err_packet(ErrorCode::IllegalOperation)),
                    None => RouteReply::Ignored,
                }
            },
            Ok(pkt) => {
                match found {
                    None => {
                        match pkt {
                            Packet::ReadRequest { filename, mode } => RouteReply::OpenRead {
                                filename,
                                mode,
                            },
                            Packet::WriteRequest { filename, mode } => RouteReply::OpenWrite {
                                filename,
                                mode,
                            },
                            _ => RouteReply::Reply(err_packet(ErrorCode::UnknownTid)),
                        }
                    },
                    Some(i) => {
                        if matches!(pkt, Packet::ReadRequest { .. } | Packet::WriteRequest { .. }) {
                            return RouteReply::Reply(err_packet(ErrorCode::IllegalOperation));
                        }
                        proof {
                            self.lemma_found_is_idx(i as int, src);
                        }
                        // Traffic the session would ignore, or answer without a
                        // state change, leaves the registry untouched.
                        match &pkt {
                            Packet::Ack { block } => {
                                if matches!(self.sessions[i].direction, Direction::Write) {
                                    return RouteReply::Reply(
                                        err_packet(ErrorCode::IllegalOperation),
                                    );
                                }
                                if *block != self.sessions[i].expected_ack {
                                    return RouteReply::Ignored;
                                }
                            },
                            Packet::Data { block, .. } => {
                                if matches!(self.sessions[i].direction, Direction::Read) {
                                    return RouteReply::Reply(
                                        err_packet(ErrorCode::IllegalOperation),
                                    );
                                }
                                if *block != self.sessions[i].expected_block {
                                    return RouteReply::Ignored;
                                }
                            },
                            _ => {},
                        }
                        let ghost pre = self.sessions@;
                        let mut s = self.sessions.remove(i);
                        let reply = s.on_packet(pkt, write_ok, now);
                        let alive = matches!(s.state, SessionState::Transferring);
                        if alive {
                            self.sessions.push(s);
                            proof {
                                self.lemma_restore(pre, i as int, src);
                            }
                        } else {
                            proof {
                                self.lemma_removed(pre, i as int, src);
                            }
                        }
                        match reply {
                            Some(p) => RouteReply::Reply(p),
                            None => RouteReply::Ignored,
                        }
                    },
                }
            },
        }
    }

    /// Creates the session a `ReadRequest` from a new peer asked for, from
    /// the storage collaborator's open outcome, and returns the one packet
    /// to send back. A session joins the registry exactly when the open
    /// succeeded and the mode is executable; a failed establishment leaves
    /// the registry as it was.
    pub fn establish_read(
        &mut self,
        src: PeerAddr,
        mode: TransferMode,
        outcome: OpenReadOutcome,
        now: u64,
    ) -> (r: Packet)
        requires
            old(self).inv(),
        ensures
            final(self).inv(),
            final(self).cfg == old(self).cfg,
            r.wf(),
            old(self).has_session(src) ==> *final(self) == *old(self) && r@ == error_v(
                ErrorCode::IllegalOperation,
            ),
            !old(self).has_session(src) ==> match outcome {
                OpenReadOutcome::NotFound => *final(self) == *old(self) && r@ == error_v(
                    ErrorCode::FileNotFound,
                ),
                OpenReadOutcome::AccessDenied => *final(self) == *old(self) && r@ == error_v(
                    ErrorCode::AccessViolation,
                ),
                OpenReadOutcome::Opened(data) => if mode == TransferMode::Mail {
                    *final(self) == *old(self) && r@ == error_v(ErrorCode::IllegalOperation)
                } else {
                    &&& r@ == (PacketV::Data { block: 1, payload: chunk(data@, 0) })
                    &&& final(self).sessions@ == old(self).sessions@.push(
                        session_at(final(self).sessions@, src),
                    )
                    &&& final(self).has_session(src)
                    &&& ({
                        let s = session_at(final(self).sessions@, src);
                        &&& s.direction == Direction::Read
                        &&& s.mode == mode
                        &&& s.file@ == data@
                        &&& s.offset == 0
                        &&& s.expected_ack == 1
                        &&& s.timer.retries == 0
                        &&& s.timer.timeout == old(self).cfg.timeout
                        &&& s.timer.max_retries == old(self).cfg.max_retries
                    })
                },
            },
    {
        if self.contains_peer(src) {
            return err_packet(ErrorCode::IllegalOperation);
        }
        let cfg = self.cfg;
        let (created, reply) = TransferSession::establish_read(src, mode, outcome, &cfg, now);
        match created {
            None => reply,
            Some(s) => {
                let ghost pre = self.sessions@;
                self.sessions.push(s);
                proof {
                    self.lemma_pushed(pre, src);
                }
                reply
            },
        }
    }

    /// The write-side counterpart of `establish_read`: creates the session
    /// a `WriteRequest` from a new peer asked for and returns the one
    /// packet to send back. On success the transfer opens with `Ack{0}`.
    pub fn establish_write(
        &mut self,
        src: PeerAddr,
        mode: TransferMode,
        outcome: OpenWriteOutcome,
        now: u64,
    ) -> (r: Packet)
        requires
            old(self).inv(),
        ensures
            final(self).inv(),
            final(self).cfg == old(self).cfg,
            r.wf(),
            old(self).has_session(src) ==> *final(self) == *old(self) && r@ == error_v(
                ErrorCode::IllegalOperation,
            ),
            !old(self).has_session(src) ==> match outcome {
                OpenWriteOutcome::AlreadyExists => *final(self) == *old(self) && r@ == error_v(
                    ErrorCode::FileAlreadyExists,
                ),
                OpenWriteOutcome::AccessDenied => *final(self) == *old(self) && r@ == error_v(
                    ErrorCode::AccessViolation,
                ),
                OpenWriteOutcome::Full => *final(self) == *old(self) && r@ == error_v(
                    ErrorCode::DiskFull,
                ),
                OpenWriteOutcome::Opened => if mode == TransferMode::Mail {
                    *final(self) == *old(self) && r@ == error_v(ErrorCode::IllegalOperation)
                } else {
                    &&& r@ == (PacketV::Ack { block: 0 })
                    &&& final(self).sessions@ == old(self).sessions@.push(
                        session_at(final(self).sessions@, src),
                    )
                    &&& final(self).has_session(src)
                    &&& ({
                        let s = session_at(final(self).sessions@, src);
                        &&& s.direction == Direction::Write
                        &&& s.mode == mode
                        &&& s.received@ == Seq::<u8>::empty()
                        &&& s.expected_block == 1
                        &&& s.timer.retries == 0
                        &&& s.timer.timeout == old(self).cfg.timeout
                        &&& s.timer.max_retries == old(self).cfg.max_retries
                    })
                },
            },
    {
        if self.contains_peer(src) {
            return err_packet(ErrorCode::IllegalOperation);
        }
        let cfg = self.cfg;
        let (created, reply) = TransferSession::establish_write(src, mode, outcome, &cfg, now);
        match created {
            None => reply,
            Some(s) => {
                let ghost pre = self.sessions@;
                self.sessions.push(s);
                proof {
                    self.lemma_pushed(pre, src);
                }
                reply
            },
        }
    }

    /// Drives one session's timer. Before its deadline nothing happens; at
    /// the deadline the packet in flight is resent verbatim while
    /// retransmissions remain; a session whose retries are exhausted fails,
    /// leaves the registry, and nothing further is sent for it.
    pub fn tick_one(&mut self, src: PeerAddr, now: u64) -> (r: Option<Packet>)
        requires
            old(self).inv(),
        ensures
            final(self).inv(),
            final(self).cfg == old(self).cfg,
            r is Some ==> r.unwrap().wf(),
            !old(self).has_session(src) ==> *final(self) == *old(self) && r is None,
            old(self).has_session(src) ==> ({
                let s0 = session_at(old(self).sessions@, src);
                &&& (!s0.timer.spec_expired(now) ==> *final(self) == *old(self) && r is None)
                &&& ((s0.timer.spec_expired(now) && s0.timer.retries >= s0.timer.max_retries)
                    ==> !final(self).has_session(src) && r is None)
                &&& ((s0.timer.spec_expired(now) && s0.timer.retries < s0.timer.max_retries) ==> (
                r is Some && r.unwrap()@ == s0.last_sent@ && final(self).has_session(src)
                    && session_at(final(self).sessions@, src).timer.retries == s0.timer.retries + 1
                    && session_at(final(self).sessions@, src).last_sent@ == s0.last_sent@))
            }),
            forall|i: int|
                0 <= i < final(self).sessions@.len()
                    && (#[trigger] final(self).sessions@[i]).peer != src
                    ==> old(self).sessions@.contains(final(self).sessions@[i]),
            forall|i: int|
                0 <= i < old(self).sessions@.len() && (#[trigger] old(self).sessions@[i]).peer
                    != src ==> final(self).sessions@.contains(old(self).sessions@[i]),
    {
        let found = self.find(src);
        match found {
            None => None,
            Some(i) => {
                proof {
                    self.lemma_found_is_idx(i as int, src);
                }
                if !self.sessions[i].timer.expired(now) {
                    return None;
                }
                let ghost pre = self.sessions@;
                let mut s = self.sessions.remove(i);
                let reply = s.on_timeout(now);
                let alive = matches!(s.state, SessionState::Transferring);
                if alive {
                    self.sessions.push(s);
                    proof {
                        self.lemma_restore(pre, i as int, src);
                    }
                } else {
                    proof {
                        self.lemma_removed(pre, i as int, src);
                    }
                }
                reply
            },
        }
    }

    /// Pushing a session for a fresh peer keeps peers unique and maps that
    /// peer to the pushed session.
    proof fn lemma_pushed(self, pre: Seq<TransferSession>, src: PeerAddr)
        requires
            !has_session_seq(pre, src),
            forall|a: int, b: int|
                0 <= a < pre.len() && 0 <= b < pre.len() && a != b ==> (#[trigger] pre[a]).peer != (
                #[trigger] pre[b]).peer,
            self.sessions@ == pre.push(self.sessions@[self.sessions@.len() - 1]),
            self.sessions@[self.sessions@.len() - 1].peer == src,
        ensures
            forall|a: int, b: int|
                0 <= a < self.sessions@.len() && 0 <= b < self.sessions@.len() && a != b ==> (
                #[trigger] self.sessions@[a]).peer != (#[trigger] self.sessions@[b]).peer,
            has_session_seq(self.sessions@, src),
            session_at(self.sessions@, src) == self.sessions@[self.sessions@.len() - 1],
    {
        let s = self.sessions@;
        let n = s.len();
        assert forall|a: int, b: int| 0 <= a < n && 0 <= b < n && a != b implies (
        #[trigger] s[a]).peer != (#[trigger] s[b]).peer by {
            if a < n - 1 && b < n - 1 {
                assert(s[a] == pre[a] && s[b] == pre[b]);
            } else if a == n - 1 {
                assert(s[b] == pre[b]);
                if s[b].peer == src {
                    assert(has_session_seq(pre, src));
                }
            } else {
                assert(s[a] == pre[a]);
                if s[a].peer == src {
                    assert(has_session_seq(pre, src));
                }
            }
        }
        assert(has_session_seq(s, src));
        let j = idx_of(s, src);
        if j != n - 1 {
            assert(s[j] == pre[j]);
            assert(has_session_seq(pre, src));
        }
    }

    /// After removing index `i` and pushing back a session with the same
    /// peer, the registry still maps each other peer to its old session and
    /// `src` to the pushed one.
    proof fn lemma_restore(self, pre: Seq<TransferSession>, i: int, src: PeerAddr)
        requires
            0 <= i < pre.len(),
            pre[i].peer == src,
            forall|a: int, b: int|
                0 <= a < pre.len() && 0 <= b < pre.len() && a != b ==> (#[trigger] pre[a]).peer != (
                #[trigger] pre[b]).peer,
            self.sessions@ == pre.remove(i).push(self.sessions@[self.sessions@.len() - 1]),
            self.sessions@[self.sessions@.len() - 1].peer == src,
        ensures
            forall|a: int, b: int|
                0 <= a < self.sessions@.len() && 0 <= b < self.sessions@.len() && a != b ==> (
                #[trigger] self.sessions@[a]).peer != (#[trigger] self.sessions@[b]).peer,
            has_session_seq(self.sessions@, src),
            session_at(self.sessions@, src) == self.sessions@[self.sessions@.len() - 1],
            forall|k: int|
                0 <= k < self.sessions@.len() && (#[trigger] self.sessions@[k]).peer != src
                    ==> pre.contains(self.sessions@[k]),
            forall|k: int|
                0 <= k < pre.len() && (#[trigger] pre[k]).peer != src ==> self.sessions@.contains(
                pre[k],
            ),
    {
        let s = self.sessions@;
        let n = s.len();
        let last = s[n - 1];
        assert forall|a: int, b: int| 0 <= a < n && 0 <= b < n && a != b implies (
        #[trigger] s[a]).peer != (#[trigger] s[b]).peer by {
            if a < n - 1 && b < n - 1 {
                let a0 = if a < i {
                    a
                } else {
                    a + 1
                };
                let b0 = if b < i {
                    b
                } else {
                    b + 1
                };
                assert(s[a] == pre[a0] && s[b] == pre[b0]);
            } else if a == n - 1 {
                let b0 = if b < i {
                    b
                } else {
                    b + 1
                };
                assert(s[b] == pre[b0]);
                assert(b0 != i);
            } else {
                let a0 = if a < i {
                    a
                } else {
                    a + 1
                };
                assert(s[a] == pre[a0]);
                assert(a0 != i);
            }
        }
        assert(has_session_seq(s, src));
        let j = idx_of(s, src);
        if j != n - 1 {
            let j0 = if j < i {
                j
            } else {
                j + 1
            };
            assert(s[j] == pre[j0]);
            assert(j0 != i ==> pre[j0].peer != pre[i].peer);
        }
        assert forall|k: int| 0 <= k < n && (#[trigger] s[k]).peer != src implies pre.contains(
            s[k],
        ) by {
            if k < n - 1 {
                let k0 = if k < i {
                    k
                } else {
                    k + 1
                };
                assert(s[k] == pre[k0]);
            }
        }
        assert forall|k: int| 0 <= k < pre.len() && (#[trigger] pre[k]).peer != src implies s
            .contains(pre[k]) by {
            let k1 = if k < i {
                k
            } else {
                k - 1
            };
            assert(k != i);
            assert(s[k1] == pre[k]);
        }
    }

    /// After removing index `i` for good, each other peer still maps to its
    /// old session and `src` maps to none.
    proof fn lemma_removed(self, pre: Seq<TransferSession>, i: int, src: PeerAddr)
        requires
            0 <= i < pre.len(),
            pre[i].peer == src,
            forall|a: int, b: int|
                0 <= a < pre.len() && 0 <= b < pre.len() && a != b ==> (#[trigger] pre[a]).peer != (
                #[trigger] pre[b]).peer,
            self.sessions@ == pre.remove(i),
        ensures
            forall|a: int, b: int|
                0 <= a < self.sessions@.len() && 0 <= b < self.sessions@.len() && a != b ==> (
                #[trigger] self.sessions@[a]).peer != (#[trigger] self.sessions@[b]).peer,
            !has_session_seq(self.sessions@, src),
            forall|k: int|
                0 <= k < self.sessions@.len() && (#[trigger] self.sessions@[k]).peer != src
                    ==> pre.contains(self.sessions@[k]),
            forall|k: int|
                0 <= k < pre.len() && (#[trigger] pre[k]).peer != src ==> self.sessions@.contains(
                pre[k],
            ),
    {
        let s = self.sessions@;
        let n = s.len();
        assert forall|a: int, b: int| 0 <= a < n && 0 <= b < n && a != b implies (
        #[trigger] s[a]).peer != (#[trigger] s[b]).peer by {
            let a0 = if a < i {
                a
            } else {
                a + 1
            };
            let b0 = if b < i {
                b
            } else {
                b + 1
            };
            assert(s[a] == pre[a0] && s[b] == pre[b0]);
        }
        assert forall|k: int| 0 <= k < n implies (#[trigger] s[k]).peer != src by {
            let k0 = if k < i {
                k
            } else {
                k + 1
            };
            assert(s[k] == pre[k0]);
            assert(k0 != i ==> pre[k0].peer != pre[i].peer);
        }
        assert forall|k: int| 0 <= k < n && (#[trigger] s[k]).peer != src implies pre.contains(
            s[k],
        ) by {
            let k0 = if k < i {
                k
            } else {
                k + 1
            };
            assert(s[k] == pre[k0]);
        }
        assert forall|k: int| 0 <= k < pre.len() && (#[trigger] pre[k]).peer != src implies s
            .contains(pre[k]) by {
            let k1 = if k < i {
                k
            } else {
                k - 1
            };
            assert(k != i);
            assert(s[k1] == pre[k]);
        }
    }
}

} // verus!
