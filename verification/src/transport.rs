//! Session routing for the multiplexed transports: the transport error
//! kinds, the server's session registry, the per-connection lifecycle, and
//! the decode step of the per-connection reader.
//!
//! A session identifier is the transport-assigned 128-bit routing key for
//! one physical connection. It is distinct from the 64-bit `session_id` tag
//! inside the wire header, which is application metadata chosen by the
//! sender and never drives routing here.

use vstd::prelude::*;
use crate::protocol::MsgError;
use crate::protocol::Packet;
use crate::protocol::PacketHeader;
use crate::protocol::header_built_from;
use crate::protocol::header_matches;
use crate::protocol::lemma_packet_round_trip;
use crate::protocol::spec_header_bytes;
use crate::protocol::spec_le_u32;
use crate::protocol::spec_packet_decode;

verus! {

/// std::io::Error, carried opaquely inside `TransportError::Io`.
#[verifier::external_type_specification]
#[verifier::external_body]
pub struct ExIoError(std::io::Error);

/// tokio's bounded-channel sender, held opaquely as a connection's outbound
/// queue handle.
#[verifier::external_type_specification]
#[verifier::external_body]
#[verifier::reject_recursive_types(T)]
pub struct ExSender<T>(tokio::sync::mpsc::Sender<T>);

/// Errors reported by a transport.
#[derive(Debug)]
pub enum TransportError {
    /// A codec failure met while reading from a socket.
    MsgError,
    /// Tearing the transport down failed.
    CloseError,
    /// An underlying socket failure.
    Io(std::io::Error),
    /// A send named a session this transport does not know.
    ConnectionNotFound,
    /// The target connection's delivery queue is already closed.
    SendError,
    /// A socket read failed.
    ReceiveError,
}

/// Relies on tokio::sync::mpsc::Sender::clone: a new handle to the same
/// channel. Nothing is assumed of the value.
#[verifier::external_body]
fn clone_sender(tx: &tokio::sync::mpsc::Sender<Packet>) -> tokio::sync::mpsc::Sender<Packet> {
    tx.clone()
}

/// The server's connection registry: session identifier to that
/// connection's outbound queue handle. It is the single source of truth for
/// whether a session is currently reachable.
pub struct SessionRegistry {
    entries: Vec<(u128, tokio::sync::mpsc::Sender<Packet>)>,
}

impl SessionRegistry {
    /// The registered session identifiers, in insertion order.
    pub closed spec fn ids(&self) -> Seq<u128> {
        self.entries@.map(|i: int, e: (u128, tokio::sync::mpsc::Sender<Packet>)| e.0)
    }

    /// A session identifier is registered.
    pub open spec fn spec_contains(&self, id: u128) -> bool {
        self.ids().contains(id)
    }

    /// Well-formed: no session identifier is registered twice.
    pub open spec fn wf(&self) -> bool {
        forall|i: int, j: int|
            0 <= i < j < self.ids().len() ==> self.ids()[i] != self.ids()[j]
    }

    /// What routing a send to a session yields: the queue handle stands
    /// behind the `Ok`, and an unknown session is `ConnectionNotFound`.
    pub open spec fn spec_route(&self, id: u128) -> Result<(), TransportError> {
        if self.spec_contains(id) {
            Ok(())
        } else {
            Err(TransportError::ConnectionNotFound)
        }
    }

    /// An empty registry.
    pub fn new() -> (r: Self)
        ensures
            r.wf(),
            r.ids() == Seq::<u128>::empty(),
    {
        let r = SessionRegistry { entries: Vec::new() };
        proof {
            assert(r.ids() =~= Seq::<u128>::empty());
        }
        r
    }

    /// How many sessions are registered.
    pub fn len(&self) -> (r: usize)
        ensures
            r == self.ids().len(),
    {
        self.entries.len()
    }

    /// Whether a session is registered.
    pub fn contains(&self, id: u128) -> (r: bool)
        ensures
            r == self.spec_contains(id),
    {
        let mut i: usize = 0;
        while i < self.entries.len()
            invariant
                i <= self.entries@.len(),
                forall|k: int| 0 <= k < i ==> self.ids()[k] != id,
            decreases self.entries@.len() - i,
        {
            if self.entries[i].0 == id {
                assert(self.ids()[i as int] == id);
                return true;
            }
            i = i + 1;
        }
        proof {
            if self.ids().contains(id) {
                let k = choose|k: int| 0 <= k < self.ids().len() && self.ids()[k] == id;
                assert(self.ids()[k] != id);
            }
        }
        false
    }

    /// Registers a session's outbound queue handle. Returns true and adds
    /// the entry when the identifier is new; leaves the registry unchanged
    /// and returns false when it is already present.
    pub fn register(&mut self, id: u128, tx: tokio::sync::mpsc::Sender<Packet>) -> (r: bool)
        requires
            old(self).wf(),
        ensures
            final(self).wf(),
            old(self).spec_contains(id) ==> (!r && final(self).ids() == old(self).ids()),
            !old(self).spec_contains(id) ==> (r && final(self).ids() == old(self).ids().push(id)),
    {
        if self.contains(id) {
            return false;
        }
        let ghost old_ids = self.ids();
        self.entries.push((id, tx));
        proof {
            assert(self.ids() =~= old_ids.push(id));
        }
        true
    }

    /// Removes a session's entry, dropping its queue handle. Afterwards the
    /// identifier is not registered; every other registration is kept.
    /// Returns whether an entry was removed.
    pub fn remove(&mut self, id: u128) -> (r: bool)
        requires
            old(self).wf(),
        ensures
            final(self).wf(),
            r == old(self).spec_contains(id),
            !final(self).spec_contains(id),
            forall|x: u128|
                final(self).spec_contains(x) <==> (old(self).spec_contains(x) && x != id),
    {
        let ghost old_ids = self.ids();
        let mut i: usize = 0;
        while i < self.entries.len()
            invariant
                i <= self.entries@.len(),
                old(self).wf(),
                self.ids() == old_ids,
                self.entries@ == old(self).entries@,
                forall|k: int| 0 <= k < i ==> self.ids()[k] != id,
            decreases self.entries@.len() - i,
        {
            if self.entries[i].0 == id {
                assert(self.ids()[i as int] == id);
                self.entries.remove(i);
                proof {
                    let ii = i as int;
                    assert(self.entries@ == old(self).entries@.remove(ii));
                    assert forall|k: int| 0 <= k < self.ids().len() implies self.ids()[k] == (
                    if k < ii {
                        old_ids[k]
                    } else {
                        old_ids[k + 1]
                    }) by {
                        if k < ii {
                            assert(self.entries@[k] == old(self).entries@[k]);
                        } else {
                            assert(self.entries@[k] == old(self).entries@[k + 1]);
                        }
                    }
                    assert(old_ids[ii] == id);
                    assert(old(self).spec_contains(id));
                    assert forall|j: int| 0 <= j < old_ids.len() && j != ii implies old_ids[j]
                        != id by {
                        if j < ii {
                            assert(old(self).ids()[j] != old(self).ids()[ii]);
                        } else {
                            assert(old(self).ids()[ii] != old(self).ids()[j]);
                        }
                    }
                    assert forall|x: u128| self.spec_contains(x) implies (old(
                        self,
                    ).spec_contains(x) && x != id) by {
                        let k = choose|k: int|
                            0 <= k < self.ids().len() && self.ids()[k] == x;
                        if k < ii {
                            assert(old_ids[k] == x);
                        } else {
                            assert(old_ids[k + 1] == x);
                            assert(k + 1 != ii);
                        }
                    }
                    assert forall|x: u128| old(self).spec_contains(x) && x != id implies self
                        .spec_contains(x) by {
                        let k = choose|k: int| 0 <= k < old_ids.len() && old_ids[k] == x;
                        if k < ii {
                            assert(self.ids()[k] == x);
                        } else {
                            assert(k != ii);
                            assert(self.ids()[k - 1] == x);
                        }
                    }
                    assert forall|p: int, q: int|
                        0 <= p < q < self.ids().len() implies self.ids()[p] != self.ids()[q] by {
                        let p2: int = if p < ii {
                            p
                        } else {
                            p + 1
                        };
                        let q2: int = if q < ii {
                            q
                        } else {
                            q + 1
                        };
                        assert(self.ids()[p] == old_ids[p2]);
                        assert(self.ids()[q] == old_ids[q2]);
                        assert(old(self).ids()[p2] != old(self).ids()[q2]);
                    }
                }
                return true;
            }
            i = i + 1;
        }
        proof {
            if self.ids().contains(id) {
                let k = choose|k: int| 0 <= k < self.ids().len() && self.ids()[k] == id;
                assert(self.ids()[k] != id);
            }
        }
        false
    }

    /// Routes a send to a session: a fresh handle to the session's outbound
    /// queue when it is registered, `ConnectionNotFound` otherwise, exactly
    /// as `spec_route` says. The caller enqueues on the returned handle
    /// outside any registry lock, so a full queue never blocks the registry.
    pub fn route(&self, id: u128) -> (r: Result<tokio::sync::mpsc::Sender<Packet>, TransportError>)
        ensures
            r is Ok <==> self.spec_route(id) is Ok,
            r matches Err(e) ==> (e is ConnectionNotFound && self.spec_route(id) == Err::<
                (),
                TransportError,
            >(TransportError::ConnectionNotFound)),
    {
        let mut i: usize = 0;
        while i < self.entries.len()
            invariant
                i <= self.entries@.len(),
                forall|k: int| 0 <= k < i ==> self.ids()[k] != id,
            decreases self.entries@.len() - i,
        {
            if self.entries[i].0 == id {
                assert(self.ids()[i as int] == id);
                return Ok(clone_sender(&self.entries[i].1));
            }
            i = i + 1;
        }
        proof {
            if self.ids().contains(id) {
                let k = choose|k: int| 0 <= k < self.ids().len() && self.ids()[k] == id;
                assert(self.ids()[k] != id);
            }
        }
        Err(TransportError::ConnectionNotFound)
    }

    /// Empties the registry, dropping every queue handle. Dropping a
    /// connection's handle closes its queue, which ends that connection's
    /// writer task: clearing is the cascading-teardown step of `close`.
    pub fn clear(&mut self)
        ensures
            final(self).wf(),
            final(self).ids() == Seq::<u128>::empty(),
    {
        self.entries = Vec::new();
        proof {
            assert(self.ids() =~= Seq::<u128>::empty());
        }
    }
}

/// Lifecycle of one server-side connection.
#[derive(Debug, PartialEq, Eq, Structural, Clone, Copy)]
pub enum ConnState {
    /// Accepted: session identifier assigned, registry entry inserted.
    Connecting,
    /// Reader and writer tasks both running.
    Established,
    /// A task observed an error or the outbound queue closed.
    Terminating,
    /// The writer task finished and the registry entry is removed.
    Terminated,
}

/// What a connection's tasks can observe.
#[derive(Debug, PartialEq, Eq, Structural, Clone, Copy)]
pub enum ConnEvent {
    /// Both per-connection tasks started.
    TasksStarted,
    /// The reader task failed: closed socket or malformed packet.
    ReadFailed,
    /// The writer task failed to write to the socket.
    WriteFailed,
    /// The connection's outbound queue closed.
    QueueClosed,
    /// The writer task finished.
    WriterExited,
}

/// What the surrounding task loop must do after a step.
#[derive(Debug, PartialEq, Eq, Structural, Clone, Copy)]
pub enum ConnAction {
    /// Nothing beyond running on.
    Keep,
    /// Remove this connection's registry entry and abort its reader.
    RemoveEntry,
}

/// The connection lifecycle: Connecting on TasksStarted becomes
/// Established; a task failure or a closed queue moves a live connection to
/// Terminating; the writer's exit moves any connection not yet Terminated
/// to Terminated and is the one step that removes the registry entry.
pub open spec fn spec_conn_step(s: ConnState, e: ConnEvent) -> (ConnState, ConnAction) {
    match e {
        ConnEvent::TasksStarted => {
            if s == ConnState::Connecting {
                (ConnState::Established, ConnAction::Keep)
            } else {
                (s, ConnAction::Keep)
            }
        },
        ConnEvent::ReadFailed | ConnEvent::WriteFailed | ConnEvent::QueueClosed => {
            if s == ConnState::Connecting || s == ConnState::Established {
                (ConnState::Terminating, ConnAction::Keep)
            } else {
                (s, ConnAction::Keep)
            }
        },
        ConnEvent::WriterExited => {
            if s == ConnState::Terminated {
                (ConnState::Terminated, ConnAction::Keep)
            } else {
                (ConnState::Terminated, ConnAction::RemoveEntry)
            }
        },
    }
}

/// Advances one connection's lifecycle on an observed event and says what
/// the task loop must do, exactly as `spec_conn_step` lays the table out.
pub fn conn_step(s: ConnState, e: ConnEvent) -> (r: (ConnState, ConnAction))
    ensures
        r == spec_conn_step(s, e),
{
    match e {
        ConnEvent::TasksStarted => {
            if s == ConnState::Connecting {
                (ConnState::Established, ConnAction::Keep)
            } else {
                (s, ConnAction::Keep)
            }
        },
        ConnEvent::ReadFailed | ConnEvent::WriteFailed | ConnEvent::QueueClosed => {
            if s == ConnState::Connecting || s == ConnState::Established {
                (ConnState::Terminating, ConnAction::Keep)
            } else {
                (s, ConnAction::Keep)
            }
        },
        ConnEvent::WriterExited => {
            if s == ConnState::Terminated {
                (ConnState::Terminated, ConnAction::Keep)
            } else {
                (ConnState::Terminated, ConnAction::RemoveEntry)
            }
        },
    }
}

/// The registry entry is removed exactly when the writer task exits on a
/// connection not already terminated; no other step touches the registry.
pub proof fn lemma_entry_removed_only_on_writer_exit(s: ConnState, e: ConnEvent)
    ensures
        spec_conn_step(s, e).1 == ConnAction::RemoveEntry <==> (e == ConnEvent::WriterExited && s
            != ConnState::Terminated),
{
}

/// The payload length declared by a buffer holding at least the first 20
/// header bytes, read little-endian at its fixed offset; None when the
/// buffer is shorter. The reader task reads exactly 64 header bytes, asks
/// this for the declared length, then reads exactly that many more bytes.
pub fn header_declared_payload_len(header: &[u8]) -> (r: Option<u32>)
    ensures
        header@.len() >= 20 ==> r == Some(
            spec_le_u32(header@[16], header@[17], header@[18], header@[19]),
        ),
        header@.len() < 20 ==> r is None,
{
    if header.len() < 20 {
        return None;
    }
    let n = (header[16] as u32) | ((header[17] as u32) << 8) | ((header[18] as u32) << 16) | ((
    header[19] as u32) << 24);
    Some(n)
}

/// Decodes a fully assembled inbound buffer into a packet, reporting any
/// codec failure as the transport-level `MsgError`, as the reader task does.
pub fn decode_inbound(buf: &[u8]) -> (r: Result<Packet, TransportError>)
    ensures
        match r {
            Ok(p) => {
                &&& spec_packet_decode(buf@) == Ok::<Seq<u8>, MsgError>(p.payload@)
                &&& header_matches(p.header, buf@)
            },
            Err(e) => spec_packet_decode(buf@) is Err && e is MsgError,
        },
{
    match Packet::from_bytes(buf) {
        Ok(p) => Ok(p),
        Err(_) => Err(TransportError::MsgError),
    }
}

/// Per-session ordering, its sequential core: when a connection's byte
/// stream holds two encoded packets back to back, the reader's framing —
/// take 64 bytes, read the declared length, take that many more — yields
/// the first payload and then the second, in the order they were written,
/// and nothing of the second is consumed by the first frame.
pub proof fn lemma_stream_frames_in_order(
    h1: PacketHeader,
    p1: Seq<u8>,
    s1: u64,
    h2: PacketHeader,
    p2: Seq<u8>,
    s2: u64,
)
    requires
        header_built_from(h1, p1, s1),
        p1.len() <= u32::MAX,
        header_built_from(h2, p2, s2),
        p2.len() <= u32::MAX,
    ensures
        ({
            let stream = (spec_header_bytes(h1) + p1) + (spec_header_bytes(h2) + p2);
            let first_end = 64 + p1.len() as int;
            &&& spec_le_u32(stream[16], stream[17], stream[18], stream[19]) == p1.len()
            &&& spec_packet_decode(stream.take(first_end)) == Ok::<Seq<u8>, MsgError>(p1)
            &&& stream.skip(first_end) == spec_header_bytes(h2) + p2
            &&& spec_packet_decode(stream.skip(first_end)) == Ok::<Seq<u8>, MsgError>(p2)
        }),
{
    lemma_packet_round_trip(h1, p1, s1);
    lemma_packet_round_trip(h2, p2, s2);
    let b1 = spec_header_bytes(h1) + p1;
    let b2 = spec_header_bytes(h2) + p2;
    let stream = b1 + b2;
    let first_end = 64 + p1.len() as int;
    assert(stream.take(first_end) =~= b1);
    assert(stream.skip(first_end) =~= b2);
    assert(stream[16] == b1[16] && stream[17] == b1[17] && stream[18] == b1[18] && stream[19]
        == b1[19]);
    assert(header_matches(h1, b1));
}

/// Registry cleanup: once a session's entry has been removed — every other
/// registration kept — routing a send to that session reports
/// `ConnectionNotFound`.
pub proof fn lemma_removed_session_unreachable(
    before: SessionRegistry,
    after: SessionRegistry,
    id: u128,
)
    requires
        forall|x: u128| after.spec_contains(x) <==> (before.spec_contains(x) && x != id),
    ensures
        after.spec_route(id) == Err::<(), TransportError>(TransportError::ConnectionNotFound),
{
    assert(!after.spec_contains(id));
}

} // verus!
