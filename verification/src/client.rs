//! Clientside implementation of the connection protocol.
//!
//! The client is a state machine over two packet queues. The process around
//! it feeds decoded datagrams into the inbound queue (after screening them
//! with [`screen_client_datagram`]) and drains the outbound queue onto the
//! socket; `poll` and `send` never touch a socket themselves.

use vstd::prelude::*;

use crate::packet::AbstractPacket;
use crate::packet::Packet;
use crate::packet::PacketType;
use crate::packet::spec_deserialize;
use crate::shared::ConnectionConfig;
use crate::shared::SequenceManager;
use crate::shared::SocketAddress;
use crate::shared::is_newer;
use crate::shared::next_sequence;

verus! {

/// The current state of a connection.
#[derive(PartialEq, Eq, Structural, Clone, Copy, Debug)]
pub enum ConnectionState {
    Disconnected,
    Connecting,
    Connected,
}

/// A poll attempt failed for some reason.
#[derive(PartialEq, Eq, Structural, Clone, Copy, Debug)]
pub enum PollFailResult {
    Empty,
    Disconnected,
}

/// Additional configuration options for a Client connection.
#[derive(PartialEq, Eq, Structural, Clone, Copy, Debug)]
pub struct ClientConnectionConfig {
    /// How many times should we ask for a connection before giving up?
    pub max_connect_retries: u32,
    /// How long (in milliseconds) should each connection request await an
    /// answer?
    pub connect_attempt_timeout: u64,
}

impl ClientConnectionConfig {
    /// Create a new ClientConnectionConfig object.
    pub fn new(max_connect_retries: u32, connect_attempt_timeout: u64) -> (r:
        ClientConnectionConfig)
        ensures
            r.max_connect_retries == max_connect_retries,
            r.connect_attempt_timeout == connect_attempt_timeout,
    {
        ClientConnectionConfig { max_connect_retries, connect_attempt_timeout }
    }
}

/// How the tracker's newest-received id evolves past one inbound packet: a
/// fresh `Message` advances it, everything else leaves it alone.
pub open spec fn tracker_step(last: u16, p: AbstractPacket) -> u16 {
    if p.packet_type is Message && is_newer(last, p.sequence_id) {
        p.sequence_id
    } else {
        last
    }
}

/// The tracker's newest-received id after the first `j` packets of `q`.
pub open spec fn tracker_after(last: u16, q: Seq<Packet>, j: int) -> u16
    decreases j,
{
    if j <= 0 {
        last
    } else {
        tracker_step(tracker_after(last, q, j - 1), q[j - 1]@)
    }
}

/// A drained packet yields nothing to the caller: it is not a `Disconnect`,
/// and if it is a fresh `Message` its payload was rejected by the
/// deserializer (which still advances the tracker).
pub open spec fn passed_over<T, D: Fn(&Vec<u8>) -> Option<T>>(
    deserializer: D,
    last: u16,
    p: Packet,
) -> bool {
    &&& !(p@.packet_type is Disconnect)
    &&& (p@.packet_type is Message && is_newer(last, p@.sequence_id)) ==> (
    p.packet_content matches Some(c) && call_ensures(deserializer, (&c,), None::<T>))
}

/// The first `k` packets of `q` were all passed over, each against the
/// tracker value current when it was reached.
pub open spec fn drained<T, D: Fn(&Vec<u8>) -> Option<T>>(
    deserializer: D,
    last: u16,
    q: Seq<Packet>,
    k: int,
) -> bool {
    forall|j: int| 0 <= j < k ==> passed_over(deserializer, tracker_after(last, q, j), #[trigger] q[j])
}

/// Clientside endpoint: a single-target connection driven by `poll` and
/// `send` over its internal queues.
#[verifier::reject_recursive_types(T)]
pub struct Client<T, D, S> where D: Fn(&Vec<u8>) -> Option<T>, S: Fn(&T) -> Vec<u8> {
    /// The socket address we use locally
    pub addr: SocketAddress,
    /// The address of the server we intend to connect to
    pub target_addr: SocketAddress,
    /// Basic configuration for connecting
    pub config: ConnectionConfig<T, D, S>,
    /// What's the current state of our connection
    pub connection_state: ConnectionState,
    /// Outbound ids and inbound freshness
    pub sequence_manager: SequenceManager,
    /// Screened packets delivered by the reader, oldest first
    pub inbound: Vec<Packet>,
    /// Packets awaiting the writer, oldest first
    pub outbound: Vec<Packet>,
}

impl<T, D, S> Client<T, D, S> where D: Fn(&Vec<u8>) -> Option<T>, S: Fn(&T) -> Vec<u8> {
    /// Every queued inbound packet carries a payload exactly if it is a
    /// `Message`, as every decoded datagram does.
    pub open spec fn wf(&self) -> bool {
        forall|i: int| 0 <= i < self.inbound@.len() ==> (#[trigger] self.inbound@[i])@.wf()
    }

    /// The identity and configuration of the endpoint: everything a call may
    /// never change.
    pub open spec fn same_endpoint(&self, other: &Client<T, D, S>) -> bool {
        &&& self.addr == other.addr
        &&& self.target_addr == other.target_addr
        &&& self.config == other.config
    }

    /// Create a client in the `Disconnected` state with empty queues. The
    /// process around it binds the socket and pumps the queues.
    pub fn new(addr: SocketAddress, target_addr: SocketAddress, config: ConnectionConfig<T, D, S>)
        -> (r: Client<T, D, S>)
        ensures
            r.addr == addr,
            r.target_addr == target_addr,
            r.config == config,
            r.connection_state is Disconnected,
            r.sequence_manager.last_sent_sequence_id == 0,
            r.sequence_manager.last_received_sequence_id == 0,
            r.inbound@ == Seq::<Packet>::empty(),
            r.outbound@ == Seq::<Packet>::empty(),
            r.wf(),
    {
        Client {
            addr,
            target_addr,
            config,
            connection_state: ConnectionState::Disconnected,
            sequence_manager: SequenceManager::new(),
            inbound: Vec::new(),
            outbound: Vec::new(),
        }
    }

    /// Hand the client a screened inbound packet, in arrival order.
    pub fn receive_packet(&mut self, packet: Packet)
        requires
            old(self).wf(),
            packet@.wf(),
        ensures
            final(self).wf(),
            final(self).inbound@ == old(self).inbound@.push(packet),
            final(self).outbound@ == old(self).outbound@,
            final(self).connection_state == old(self).connection_state,
            final(self).sequence_manager == old(self).sequence_manager,
            final(self).same_endpoint(old(self)),
    {
        self.inbound.push(packet);
    }

    /// Take the oldest packet awaiting the writer, if any.
    pub fn take_outgoing(&mut self) -> (r: Option<Packet>)
        requires
            old(self).wf(),
        ensures
            final(self).wf(),
            old(self).outbound@.len() == 0 ==> r is None && *final(self) == *old(self),
            old(self).outbound@.len() > 0 ==> r == Some(old(self).outbound@[0]) && final(self).outbound@ == old(self).outbound@.skip(1),
            final(self).inbound@ == old(self).inbound@,
            final(self).connection_state == old(self).connection_state,
            final(self).sequence_manager == old(self).sequence_manager,
            final(self).same_endpoint(old(self)),
    {
        if self.outbound.len() == 0 {
            None
        } else {
            let p = self.outbound.remove(0);
            proof {
                assert(final(self).outbound@ =~= old(self).outbound@.skip(1));
            }
            Some(p)
        }
    }

    /// Handshake steps 1 and 2: enter `Connecting` and queue one `Connect`
    /// request carrying our protocol id and a fresh sequence id.
    pub fn handshake_start_attempt(&mut self)
        requires
            old(self).wf(),
        ensures
            final(self).wf(),
            final(self).connection_state is Connecting,
            final(self).outbound@.len() == old(self).outbound@.len() + 1,
            final(self).outbound@ == old(self).outbound@.push(
                final(self).outbound@.last(),
            ),
            final(self).outbound@.last()@ == (AbstractPacket {
                protocol_id: old(self).config.protocol_id,
                sequence_id: next_sequence(old(self).sequence_manager.last_sent_sequence_id),
                packet_type: PacketType::Connect,
                packet_content: None,
            }),
            final(self).sequence_manager.last_sent_sequence_id == next_sequence(
                old(self).sequence_manager.last_sent_sequence_id,
            ),
            final(self).sequence_manager.last_received_sequence_id == old(self).sequence_manager.last_received_sequence_id,
            final(self).inbound@ == old(self).inbound@,
            final(self).same_endpoint(old(self)),
    {
        self.connection_state = ConnectionState::Connecting;
        let sequence_id = self.sequence_manager.next_sequence_id();
        let packet = Packet::connect(self.config.protocol_id, sequence_id);
        self.outbound.push(packet);
    }

    /// Handshake step 4: an inbound packet arrived while `Connecting`.
    /// `Accept` promotes us to `Connected`; `Reject` and `Disconnect` drop
    /// us to `Disconnected`; anything else is ignored and the attempt goes
    /// on waiting.
    pub fn handshake_on_packet(&mut self, packet: &Packet)
        requires
            old(self).wf(),
            old(self).connection_state is Connecting,
        ensures
            final(self).wf(),
            packet@.packet_type is Accept ==> final(self).connection_state is Connected,
            packet@.packet_type is Reject || packet@.packet_type is Disconnect ==> final(self).connection_state is Disconnected,
            !(packet@.packet_type is Accept || packet@.packet_type is Reject
                || packet@.packet_type is Disconnect) ==> final(self).connection_state is Connecting,
            final(self).inbound@ == old(self).inbound@,
            final(self).outbound@ == old(self).outbound@,
            final(self).sequence_manager == old(self).sequence_manager,
            final(self).same_endpoint(old(self)),
    {
        match packet.packet_type {
            PacketType::Accept => {
                self.connection_state = ConnectionState::Connected;
            },
            PacketType::Reject => {
                self.connection_state = ConnectionState::Disconnected;
            },
            PacketType::Disconnect => {
                self.connection_state = ConnectionState::Disconnected;
            },
            _ => {},
        }
    }

    /// Handshake step 5: the attempt timed out. With attempts left we stay
    /// `Connecting` and the caller starts the next attempt; otherwise we
    /// give up and drop to `Disconnected`.
    pub fn handshake_on_timeout(&mut self, attempts: u32, max_attempts: u32) -> (retry: bool)
        requires
            old(self).wf(),
            old(self).connection_state is Connecting,
            attempts < max_attempts,
        ensures
            final(self).wf(),
            retry == (attempts + 1 < max_attempts),
            retry ==> *final(self) == *old(self),
            !retry ==> final(self).connection_state is Disconnected,
            final(self).inbound@ == old(self).inbound@,
            final(self).outbound@ == old(self).outbound@,
            final(self).sequence_manager == old(self).sequence_manager,
            final(self).same_endpoint(old(self)),
    {
        if attempts + 1 < max_attempts {
            true
        } else {
            self.connection_state = ConnectionState::Disconnected;
            false
        }
    }

    /// Pop the last event off of our comms queue, if any.
    ///
    /// When not `Connected` this reports `Disconnected` and changes nothing.
    /// Otherwise it drains the inbound queue until a `Disconnect` drops the
    /// connection, a fresh `Message` deserializes into a value, or the queue
    /// runs out. Stale messages, rejected payloads and every other packet
    /// type are consumed silently; a fresh `Message` advances the tracker
    /// even when its payload is rejected.
    pub fn poll(&mut self) -> (r: Result<T, PollFailResult>)
        requires
            old(self).wf(),
            old(self).config.total(),
        ensures
            final(self).wf(),
            final(self).same_endpoint(old(self)),
            final(self).outbound@ == old(self).outbound@,
            final(self).sequence_manager.last_sent_sequence_id == old(self).sequence_manager.last_sent_sequence_id,
            !(old(self).connection_state is Connected) ==> r == Err::<T, PollFailResult>(
                PollFailResult::Disconnected,
            ) && *final(self) == *old(self),
            old(self).connection_state is Connected ==> {
                let q = old(self).inbound@;
                let last0 = old(self).sequence_manager.last_received_sequence_id;
                let d = old(self).config.packet_deserializer;
                match r {
                    Ok(v) => {
                        let k = q.len() - final(self).inbound@.len() - 1;
                        &&& 0 <= k < q.len()
                        &&& drained(d, last0, q, k)
                        &&& q[k]@.packet_type is Message
                        &&& is_newer(tracker_after(last0, q, k), q[k]@.sequence_id)
                        &&& (q[k].packet_content matches Some(c) && call_ensures(d, (&c,), Some(v)))
                        &&& final(self).inbound@ == q.skip(k + 1)
                        &&& final(self).sequence_manager.last_received_sequence_id == q[k]@.sequence_id
                        &&& final(self).connection_state is Connected
                    },
                    Err(PollFailResult::Disconnected) => {
                        let k = q.len() - final(self).inbound@.len() - 1;
                        &&& 0 <= k < q.len()
                        &&& drained(d, last0, q, k)
                        &&& q[k]@.packet_type is Disconnect
                        &&& final(self).inbound@ == q.skip(k + 1)
                        &&& final(self).sequence_manager.last_received_sequence_id
                            == tracker_after(last0, q, k)
                        &&& final(self).connection_state is Disconnected
                    },
                    Err(PollFailResult::Empty) => {
                        &&& drained(d, last0, q, q.len() as int)
                        &&& final(self).inbound@.len() == 0
                        &&& final(self).sequence_manager.last_received_sequence_id
                            == tracker_after(last0, q, q.len() as int)
                        &&& final(self).connection_state is Connected
                    },
                }
            },
    {
        match self.connection_state {
            ConnectionState::Connected => {},
            _ => {
                return Err(PollFailResult::Disconnected);
            },
        }
        let ghost q = self.inbound@;
        let ghost last0 = self.sequence_manager.last_received_sequence_id;
        let ghost d = self.config.packet_deserializer;
        while self.inbound.len() > 0
            invariant
                self.wf(),
                self.config.total(),
                old(self).connection_state is Connected,
                self.connection_state is Connected,
                self.config == old(self).config,
                self.addr == old(self).addr,
                self.target_addr == old(self).target_addr,
                self.outbound@ == old(self).outbound@,
                self.sequence_manager.last_sent_sequence_id == old(self).sequence_manager.last_sent_sequence_id,
                q == old(self).inbound@,
                last0 == old(self).sequence_manager.last_received_sequence_id,
                d == old(self).config.packet_deserializer,
                self.inbound@ == q.skip(q.len() - self.inbound@.len()),
                self.inbound@.len() <= q.len(),
                drained(d, last0, q, q.len() - self.inbound@.len()),
                self.sequence_manager.last_received_sequence_id == tracker_after(
                    last0,
                    q,
                    q.len() - self.inbound@.len(),
                ),
            decreases self.inbound@.len(),
        {
            let ghost k = q.len() - self.inbound@.len();
            let p = self.inbound.remove(0);
            let ghost pkt = p;
            proof {
                assert(q.skip(k)[0] == q[k]);
                assert(self.inbound@ =~= q.skip(k + 1));
            }
            match p.packet_type {
                PacketType::Disconnect => {
                    self.connection_state = ConnectionState::Disconnected;
                    return Err(PollFailResult::Disconnected);
                },
                PacketType::Message => {
                    if self.sequence_manager.packet_is_newer(p.sequence_id) {
                        self.sequence_manager.set_newest_packet(p.sequence_id);
                        let content = p.packet_content.unwrap();
                        match (self.config.packet_deserializer)(&content) {
                            Some(deserialized) => {
                                return Ok(deserialized);
                            },
                            None => {},
                        }
                        proof {
                            assert(pkt.packet_content matches Some(c) && call_ensures(
                                d,
                                (&c,),
                                None::<T>,
                            ));
                        }
                    }
                },
                _ => {},
            }
            proof {
                assert(passed_over(d, tracker_after(last0, q, k), q[k]));
                assert(tracker_after(last0, q, k + 1) == tracker_step(
                    tracker_after(last0, q, k),
                    q[k]@,
                ));
            }
        }
        Err(PollFailResult::Empty)
    }

    /// Send a message to the server: serialize it, frame it as a `Message`
    /// with a fresh sequence id, and queue it for the writer.
    pub fn send(&mut self, packet: &T)
        requires
            old(self).wf(),
            old(self).config.total(),
        ensures
            final(self).wf(),
            final(self).same_endpoint(old(self)),
            final(self).inbound@ == old(self).inbound@,
            final(self).connection_state == old(self).connection_state,
            final(self).sequence_manager.last_received_sequence_id == old(self).sequence_manager.last_received_sequence_id,
            final(self).sequence_manager.last_sent_sequence_id == next_sequence(
                old(self).sequence_manager.last_sent_sequence_id,
            ),
            final(self).outbound@ == old(self).outbound@.push(final(self).outbound@.last()),
            ({
                let m = final(self).outbound@.last();
                &&& m@.packet_type is Message
                &&& m@.protocol_id == old(self).config.protocol_id
                &&& m@.sequence_id == next_sequence(old(self).sequence_manager.last_sent_sequence_id)
                &&& (m.packet_content matches Some(c) && call_ensures(
                    old(self).config.packet_serializer,
                    (packet,),
                    c,
                ))
            }),
    {
        let bytes = (self.config.packet_serializer)(packet);
        let sequence_id = self.sequence_manager.next_sequence_id();
        let message = Packet::message(self.config.protocol_id, sequence_id, bytes);
        self.outbound.push(message);
    }

    /// Tear the connection down: queue exactly one `Disconnect` for the
    /// remote, with a fresh sequence id. The process around the client calls
    /// this once, when the client is dropped.
    pub fn close(&mut self)
        requires
            old(self).wf(),
        ensures
            final(self).wf(),
            final(self).same_endpoint(old(self)),
            final(self).inbound@ == old(self).inbound@,
            final(self).connection_state == old(self).connection_state,
            final(self).sequence_manager.last_received_sequence_id == old(self).sequence_manager.last_received_sequence_id,
            final(self).sequence_manager.last_sent_sequence_id == next_sequence(
                old(self).sequence_manager.last_sent_sequence_id,
            ),
            final(self).outbound@ == old(self).outbound@.push(final(self).outbound@.last()),
            final(self).outbound@.last()@ == (AbstractPacket {
                protocol_id: old(self).config.protocol_id,
                sequence_id: next_sequence(old(self).sequence_manager.last_sent_sequence_id),
                packet_type: PacketType::Disconnect,
                packet_content: None,
            }),
    {
        let sequence_id = self.sequence_manager.next_sequence_id();
        let packet = Packet::disconnect(self.config.protocol_id, sequence_id);
        self.outbound.push(packet);
    }
}

/// The client reader's screen for one raw datagram: decode it, and keep it
/// only when it came from the connection's target and carries our protocol
/// id. Everything else is treated as though it had not been received.
pub fn screen_client_datagram(
    raw: &[u8],
    src: &SocketAddress,
    target_addr: &SocketAddress,
    protocol_id: u32,
) -> (r: Option<Packet>)
    ensures
        match r {
            Some(p) => {
                &&& src == target_addr
                &&& spec_deserialize(raw@) == Some(p@)
                &&& p@.protocol_id == protocol_id
                &&& p@.wf()
            },
            None => {
                ||| src != target_addr
                ||| spec_deserialize(raw@) is None
                ||| (spec_deserialize(raw@) matches Some(a) && a.protocol_id != protocol_id)
            },
        },
{
    if !(src == target_addr) {
        return None;
    }
    match Packet::deserialize(raw) {
        Ok(packet) => {
            if packet.protocol_id == protocol_id {
                Some(packet)
            } else {
                None
            }
        },
        Err(_) => None,
    }
}

/// The reader's idle check: past the deadline it fabricates a synthetic
/// `Disconnect` so that the next `poll` observes the dead peer; otherwise
/// nothing happens.
pub fn check_idle(now: i64, expires: i64, protocol_id: u32) -> (r: Option<Packet>)
    ensures
        match r {
            Some(p) => now > expires && p@ == (AbstractPacket {
                protocol_id,
                sequence_id: 0u16,
                packet_type: PacketType::Disconnect,
                packet_content: None,
            }),
            None => now <= expires,
        },
{
    if now > expires {
        Some(Packet::disconnect(protocol_id, 0))
    } else {
        None
    }
}

} // verus!
