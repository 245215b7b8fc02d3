//! The per-peer transfer session: a lock-step state machine over blocks of
//! at most 512 bytes, with exactly one packet in flight at any time.
//!
//! Storage is a collaborator. For a read transfer the caller opens the
//! source and hands its bytes in; for a write transfer the caller persists
//! each accepted payload and hands back whether that succeeded. Every
//! decision of the protocol is made here and is verified.

use vstd::prelude::*;

use crate::packet::append_bytes;
use crate::packet::copy_range;
use crate::packet::err_packet;
use crate::packet::error_v;
use crate::packet::ErrorCode;
use crate::packet::Packet;
use crate::packet::PacketV;
use crate::packet::TransferMode;
use crate::timer::sat_add;
use crate::timer::RetransmissionTimer;

verus! {

/// One endpoint of a transfer: address and port. The port is the peer's
/// transfer identifier (TID); a datagram from any other address/port does
/// not belong to this session.
#[derive(Clone, Copy, PartialEq, Eq, Structural, Debug)]
pub struct PeerAddr {
    pub ip: u32,
    pub port: u16,
}

#[derive(Clone, Copy, PartialEq, Eq, Structural, Debug)]
pub enum Direction {
    Read,
    Write,
}

/// `Transferring` is the live state; `Completed` and `Failed` are terminal
/// and a terminal session leaves the registry at once.
#[derive(Clone, Copy, PartialEq, Eq, Structural, Debug)]
pub enum SessionState {
    Transferring,
    Completed,
    Failed,
}

/// What opening the byte-stream source of a read transfer yielded.
pub enum OpenReadOutcome {
    /// The source opened; these are its bytes.
    Opened(Vec<u8>),
    NotFound,
    AccessDenied,
}

/// What opening the byte-stream sink of a write transfer yielded.
#[derive(Clone, Copy, PartialEq, Eq, Structural, Debug)]
pub enum OpenWriteOutcome {
    Opened,
    AlreadyExists,
    AccessDenied,
    Full,
}

/// The two configurable knobs of the retransmission policy.
#[derive(Clone, Copy, PartialEq, Eq, Structural, Debug)]
pub struct SessionConfig {
    /// Retransmission interval, in the caller's clock units.
    pub timeout: u64,
    /// Retransmissions allowed before the transfer fails.
    pub max_retries: u32,
}

/// The block number after `b`, wrapping modulo 65536.
pub open spec fn wrap_inc(b: u16) -> u16 {
    if b == 65535 {
        0
    } else {
        (b + 1) as u16
    }
}

pub fn wrap_inc_exec(b: u16) -> (r: u16)
    ensures
        r == wrap_inc(b),
{
    if b == 65535 {
        0
    } else {
        b + 1
    }
}

/// Where the block starting at `offset` ends: 512 bytes, or the end of the
/// file for the final block.
pub open spec fn chunk_end(len: int, offset: int) -> int {
    if len - offset >= 512 {
        offset + 512
    } else {
        len
    }
}

/// The payload of the block starting at `offset`.
pub open spec fn chunk(file: Seq<u8>, offset: int) -> Seq<u8> {
    file.subrange(offset, chunk_end(file.len() as int, offset))
}

/// The state machine of one transfer, keyed by its peer's TID.
pub struct TransferSession {
    pub peer: PeerAddr,
    pub direction: Direction,
    pub mode: TransferMode,
    pub state: SessionState,
    /// Read transfers: the bytes being served.
    pub file: Vec<u8>,
    /// Read transfers: start of the block now in flight; always a multiple
    /// of 512.
    pub offset: usize,
    /// Read transfers: the only ack that makes progress.
    pub expected_ack: u16,
    /// Write transfers: every payload accepted so far, in order.
    pub received: Vec<u8>,
    /// Write transfers: the only block number that makes progress.
    pub expected_block: u16,
    /// The one packet in flight, kept for verbatim retransmission.
    pub last_sent: Packet,
    pub timer: RetransmissionTimer,
}

impl TransferSession {
    /// The lock-step invariant of a live session: exactly one packet is
    /// unacknowledged, and it is `last_sent` — for a read the Data block
    /// starting at `offset`, for a write the Ack the next Data answers.
    pub open spec fn inv(self) -> bool {
        self.state == SessionState::Transferring ==> {
            &&& self.last_sent.wf()
            &&& match self.direction {
                Direction::Read => {
                    &&& self.offset % 512 == 0
                    &&& self.offset <= self.file@.len()
                    &&& self.last_sent@ == (PacketV::Data {
                        block: self.expected_ack,
                        payload: chunk(self.file@, self.offset as int),
                    })
                },
                Direction::Write => {
                    &&& self.received@.len() % 512 == 0
                    &&& match self.last_sent@ {
                        PacketV::Ack { block } => self.expected_block == wrap_inc(block),
                        _ => false,
                    }
                },
            }
        }
    }

    /// How many distinct Data blocks a read session has issued so far.
    pub open spec fn data_blocks_issued(self) -> int {
        self.offset as int / 512 + 1
    }

    /// Runs the establishing step of a read transfer. `outcome` is what the
    /// storage collaborator said to opening the named source. Exactly one
    /// packet is always produced; a session is produced exactly when the
    /// open succeeded and the mode is executable.
    pub fn establish_read(
        peer: PeerAddr,
        mode: TransferMode,
        outcome: OpenReadOutcome,
        cfg: &SessionConfig,
        now: u64,
    ) -> (r: (Option<TransferSession>, Packet))
        ensures
            r.1.wf(),
            match outcome {
                OpenReadOutcome::NotFound => r.0 is None && r.1@ == error_v(
                    ErrorCode::FileNotFound,
                ),
                OpenReadOutcome::AccessDenied => r.0 is None && r.1@ == error_v(
                    ErrorCode::AccessViolation,
                ),
                OpenReadOutcome::Opened(data) => if mode == TransferMode::Mail {
                    r.0 is None && r.1@ == error_v(ErrorCode::IllegalOperation)
                } else {
                    &&& r.0 is Some
                    &&& ({
                        let s = r.0.unwrap();
                        &&& s.inv()
                        &&& s.state == SessionState::Transferring
                        &&& s.direction == Direction::Read
                        &&& s.peer == peer
                        &&& s.mode == mode
                        &&& s.file@ == data@
                        &&& s.offset == 0
                        &&& s.expected_ack == 1
                        &&& s.timer.deadline == Some(sat_add(now, cfg.timeout))
                        &&& s.timer.retries == 0
                        &&& s.timer.timeout == cfg.timeout
                        &&& s.timer.max_retries == cfg.max_retries
                    })
                    &&& r.1@ == (PacketV::Data { block: 1, payload: chunk(data@, 0) })
                },
            },
    {
        match outcome {
            OpenReadOutcome::NotFound => (None, err_packet(ErrorCode::FileNotFound)),
            OpenReadOutcome::AccessDenied => (None, err_packet(ErrorCode::AccessViolation)),
            OpenReadOutcome::Opened(data) => {
                if matches!(mode, TransferMode::Mail) {
                    (None, err_packet(ErrorCode::IllegalOperation))
                } else {
                    let end: usize = if data.len() >= 512 {
                        512
                    } else {
                        data.len()
                    };
                    let payload = copy_range(&data, 0, end);
                    let pkt = Packet::Data { block: 1, payload };
                    let mut timer = RetransmissionTimer::new(cfg.timeout, cfg.max_retries);
                    timer.arm(now);
                    let s = TransferSession {
                        peer,
                        direction: Direction::Read,
                        mode,
                        state: SessionState::Transferring,
                        file: data,
                        offset: 0,
                        expected_ack: 1,
                        received: Vec::new(),
                        expected_block: 0,
                        last_sent: pkt.duplicate(),
                        timer,
                    };
                    (Some(s), pkt)
                }
            },
        }
    }

    /// Runs the establishing step of a write transfer. `outcome` is what
    /// the storage collaborator said to opening the named destination. On
    /// success the transfer opens with `Ack{0}` and waits for block 1.
    pub fn establish_write(
        peer: PeerAddr,
        mode: TransferMode,
        outcome: OpenWriteOutcome,
        cfg: &SessionConfig,
        now: u64,
    ) -> (r: (Option<TransferSession>, Packet))
        ensures
            r.1.wf(),
            match outcome {
                OpenWriteOutcome::AlreadyExists => r.0 is None && r.1@ == error_v(
                    ErrorCode::FileAlreadyExists,
                ),
                OpenWriteOutcome::AccessDenied => r.0 is None && r.1@ == error_v(
                    ErrorCode::AccessViolation,
                ),
                OpenWriteOutcome::Full => r.0 is None && r.1@ == error_v(ErrorCode::DiskFull),
                OpenWriteOutcome::Opened => if mode == TransferMode::Mail {
                    r.0 is None && r.1@ == error_v(ErrorCode::IllegalOperation)
                } else {
                    &&& r.0 is Some
                    &&& ({
                        let s = r.0.unwrap();
                        &&& s.inv()
                        &&& s.state == SessionState::Transferring
                        &&& s.direction == Direction::Write
                        &&& s.peer == peer
                        &&& s.mode == mode
                        &&& s.received@ == Seq::<u8>::empty()
                        &&& s.expected_block == 1
                        &&& s.timer.deadline == Some(sat_add(now, cfg.timeout))
                        &&& s.timer.retries == 0
                        &&& s.timer.timeout == cfg.timeout
                        &&& s.timer.max_retries == cfg.max_retries
                    })
                    &&& r.1@ == (PacketV::Ack { block: 0 })
                },
            },
    {
        match outcome {
            OpenWriteOutcome::AlreadyExists => (None, err_packet(ErrorCode::FileAlreadyExists)),
            OpenWriteOutcome::AccessDenied => (None, err_packet(ErrorCode::AccessViolation)),
            OpenWriteOutcome::Full => (None, err_packet(ErrorCode::DiskFull)),
            OpenWriteOutcome::Opened => {
                if matches!(mode, TransferMode::Mail) {
                    (None, err_packet(ErrorCode::IllegalOperation))
                } else {
                    let pkt = Packet::Ack { block: 0 };
                    let mut timer = RetransmissionTimer::new(cfg.timeout, cfg.max_retries);
                    timer.arm(now);
                    let s = TransferSession {
                        peer,
                        direction: Direction::Write,
                        mode,
                        state: SessionState::Transferring,
                        file: Vec::new(),
                        offset: 0,
                        expected_ack: 0,
                        received: Vec::new(),
                        expected_block: 1,
                        last_sent: pkt.duplicate(),
                        timer,
                    };
                    (Some(s), pkt)
                }
            },
        }
    }

    /// Consumes one packet addressed to this session, in arrival order.
    ///
    /// `write_ok` is the storage collaborator's verdict on persisting the
    /// payload of an accepted Data block; it is consulted only when a write
    /// transfer accepts the expected block.
    ///
    /// Stale or duplicate packets are ignored outright — no reply, no state
    /// change, no timer reset — so a duplicated Ack never produces a second
    /// retransmission. A peer Error fails the session silently. A request
    /// or wrong-direction packet draws `Error{IllegalOperation}` without a
    /// state change.
    pub fn on_packet(&mut self, pkt: Packet, write_ok: bool, now: u64) -> (r: Option<Packet>)
        requires
            old(self).inv(),
            old(self).state == SessionState::Transferring,
            pkt.wf(),
        ensures
            final(self).inv(),
            final(self).peer == old(self).peer,
            final(self).direction == old(self).direction,
            final(self).mode == old(self).mode,
            final(self).file@ == old(self).file@,
            final(self).timer.timeout == old(self).timer.timeout,
            final(self).timer.max_retries == old(self).timer.max_retries,
            r is Some ==> r.unwrap().wf(),
            (pkt@ matches PacketV::Error { .. }) ==> final(self).state == SessionState::Failed
                && final(self).timer.deadline is None && r is None && final(self).offset == old(
                self,
            ).offset && final(self).expected_ack == old(self).expected_ack && final(self).received@
                == old(self).received@ && final(self).expected_block == old(self).expected_block,
            ((pkt@ matches PacketV::ReadRequest { .. }) || (pkt@ matches PacketV::WriteRequest {
                ..
            }) || ((pkt@ matches PacketV::Ack { .. }) && old(self).direction == Direction::Write)
                || ((pkt@ matches PacketV::Data { .. }) && old(self).direction == Direction::Read))
                ==> *final(self) == *old(self) && r is Some && r.unwrap()@ == error_v(
                ErrorCode::IllegalOperation,
            ),
            old(self).direction == Direction::Read ==> match pkt@ {
                PacketV::Ack { block } => {
                    if block != old(self).expected_ack {
                        &&& *final(self) == *old(self)
                        &&& r is None
                    } else if old(self).file@.len() - old(self).offset < 512 {
                        &&& final(self).state == SessionState::Completed
                        &&& final(self).timer.deadline is None
                        &&& final(self).offset == old(self).offset
                        &&& r is None
                        &&& final(self).data_blocks_issued() == old(self).file@.len() as int / 512
                            + 1
                    } else {
                        &&& final(self).state == SessionState::Transferring
                        &&& final(self).offset == old(self).offset + 512
                        &&& final(self).expected_ack == wrap_inc(block)
                        &&& final(self).expected_ack != block
                        &&& r is Some
                        &&& r.unwrap()@ == (PacketV::Data {
                            block: wrap_inc(block),
                            payload: chunk(old(self).file@, old(self).offset + 512),
                        })
                        &&& final(self).timer.deadline == Some(
                            sat_add(now, old(self).timer.timeout),
                        )
                        &&& final(self).timer.retries == 0
                    }
                },
                _ => true,
            },
            old(self).direction == Direction::Write ==> match pkt@ {
                PacketV::Data { block, payload } => {
                    if block != old(self).expected_block {
                        &&& *final(self) == *old(self)
                        &&& r is None
                    } else if !write_ok {
                        &&& final(self).state == SessionState::Failed
                        &&& final(self).timer.deadline is None
                        &&& r is Some
                        &&& r.unwrap()@ == error_v(ErrorCode::DiskFull)
                    } else {
                        &&& final(self).received@ == old(self).received@ + payload
                        &&& r is Some
                        &&& r.unwrap()@ == (PacketV::Ack { block })
                        &&& (payload.len() < 512 ==> final(self).state == SessionState::Completed
                            && final(self).timer.deadline is None)
                        &&& (payload.len() == 512 ==> final(self).state
                            == SessionState::Transferring && final(self).expected_block
                            == wrap_inc(block) && final(self).timer.deadline == Some(
                            sat_add(now, old(self).timer.timeout),
                        ) && final(self).timer.retries == 0)
                    }
                },
                _ => true,
            },
    {
        match pkt {
            Packet::Error { .. } => {
                self.state = SessionState::Failed;
                self.timer.cancel();
                None
            },
            Packet::ReadRequest { .. } | Packet::WriteRequest { .. } => {
                Some(err_packet(ErrorCode::IllegalOperation))
            },
            Packet::Ack { block } => {
                match self.direction {
                    Direction::Write => Some(err_packet(ErrorCode::IllegalOperation)),
                    Direction::Read => {
                        if block != self.expected_ack {
                            return None;
                        }
                        if self.file.len() - self.offset < 512 {
                            self.state = SessionState::Completed;
                            self.timer.cancel();
                            return None;
                        }
                        let new_offset = self.offset + 512;
                        let end: usize = if self.file.len() - new_offset >= 512 {
                            new_offset + 512
                        } else {
                            self.file.len()
                        };
                        let payload = copy_range(&self.file, new_offset, end);
                        let nb = wrap_inc_exec(block);
                        let out = Packet::Data { block: nb, payload };
                        self.offset = new_offset;
                        self.expected_ack = nb;
                        self.last_sent = out.duplicate();
                        self.timer.arm(now);
                        Some(out)
                    },
                }
            },
            Packet::Data { block, payload } => {
                match self.direction {
                    Direction::Read => Some(err_packet(ErrorCode::IllegalOperation)),
                    Direction::Write => {
                        if block != self.expected_block {
                            return None;
                        }
                        if !write_ok {
                            self.state = SessionState::Failed;
                            self.timer.cancel();
                            return Some(err_packet(ErrorCode::DiskFull));
                        }
                        append_bytes(&mut self.received, &payload);
                        let out = Packet::Ack { block };
                        if payload.len() < 512 {
                            self.state = SessionState::Completed;
                            self.timer.cancel();
                        } else {
                            self.expected_block = wrap_inc_exec(block);
                            self.last_sent = out.duplicate();
                            self.timer.arm(now);
                        }
                        Some(out)
                    },
                }
            },
        }
    }

    /// Lock-step accounting for a read transfer whose in-flight Data block
    /// is the final one (payload shorter than 512 bytes; `on_packet`
    /// completes the transfer when it is acknowledged). At that point the
    /// number of distinct Data blocks issued is exactly
    /// `file_size / 512 + 1`: the ceiling of `file_size / 512`, with one
    /// zero-length terminal block when the size is a multiple of 512 —
    /// and the final payload's length is `file_size % 512`.
    ///
    /// That at most one Data packet is unacknowledged at any point is the
    /// session invariant itself: the one packet in flight is `last_sent`,
    /// and `on_packet` issues a new block only when that one is
    /// acknowledged.
    pub proof fn lemma_lock_step_count(s: TransferSession)
        requires
            s.inv(),
            s.state == SessionState::Transferring,
            s.direction == Direction::Read,
            s.file@.len() - s.offset < 512,
        ensures
            s.data_blocks_issued() == s.file@.len() as int / 512 + 1,
            chunk(s.file@, s.offset as int).len() == s.file@.len() as int % 512,
    {
        let len = s.file@.len() as int;
        let offset = s.offset as int;
        assert(len == 512 * (len / 512) + len % 512);
        assert(offset == 512 * (offset / 512));
        assert(offset / 512 == len / 512);
        assert(len - offset == len % 512);
    }

    /// Duplicate tolerance: right after a read session accepts `Ack{n}` its
    /// expected ack is `wrap_inc(n)`, which never equals `n` — so by
    /// `on_packet`'s contract a resend of the same `Ack{n}` is ignored
    /// outright: no state change, no reply, no timer reset. The only
    /// retransmission that can follow is the timer-driven one.
    pub proof fn lemma_duplicate_ack_ignored(s: TransferSession, n: u16)
        requires
            s.state == SessionState::Transferring,
            s.direction == Direction::Read,
            s.expected_ack == wrap_inc(n),
        ensures
            n != s.expected_ack,
    {
    }

    /// Error packets are never retransmitted: the packet a live session
    /// keeps for verbatim resending is always the Data or Ack in flight,
    /// never an Error — error replies are best-effort and sent once.
    pub proof fn lemma_error_never_retransmitted(s: TransferSession)
        requires
            s.inv(),
            s.state == SessionState::Transferring,
        ensures
            !(s.last_sent@ matches PacketV::Error { .. }),
    {
    }

    /// Drives the timer. Before the deadline this is a no-op. At the
    /// deadline, while retransmissions remain, the packet in flight is
    /// resent verbatim and the deadline rearmed; once the retry count is
    /// exhausted the session fails and sends nothing further.
    pub fn on_timeout(&mut self, now: u64) -> (r: Option<Packet>)
        requires
            old(self).inv(),
            old(self).state == SessionState::Transferring,
        ensures
            final(self).inv(),
            final(self).peer == old(self).peer,
            final(self).direction == old(self).direction,
            final(self).mode == old(self).mode,
            final(self).file@ == old(self).file@,
            final(self).offset == old(self).offset,
            final(self).expected_ack == old(self).expected_ack,
            final(self).received@ == old(self).received@,
            final(self).expected_block == old(self).expected_block,
            final(self).last_sent@ == old(self).last_sent@,
            final(self).timer.timeout == old(self).timer.timeout,
            final(self).timer.max_retries == old(self).timer.max_retries,
            !old(self).timer.spec_expired(now) ==> *final(self) == *old(self) && r is None,
            (old(self).timer.spec_expired(now) && old(self).timer.retries
                >= old(self).timer.max_retries) ==> (final(self).state == SessionState::Failed
                && final(self).timer.deadline is None && r is None),
            (old(self).timer.spec_expired(now) && old(self).timer.retries
                < old(self).timer.max_retries) ==> (final(self).state == SessionState::Transferring
                && r is Some && r.unwrap()@ == old(self).last_sent@ && r.unwrap().wf()
                && final(self).timer.retries == old(self).timer.retries + 1
                && final(self).timer.deadline == Some(sat_add(now, old(self).timer.timeout))),
    {
        if !self.timer.expired(now) {
            return None;
        }
        if self.timer.retries >= self.timer.max_retries {
            self.state = SessionState::Failed;
            self.timer.cancel();
            return None;
        }
        self.timer.record_retry();
        self.timer.rearm(now);
        Some(self.last_sent.duplicate())
    }
}

} // verus!
