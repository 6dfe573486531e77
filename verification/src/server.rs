//! Serverside implementation of the connection protocol.
//!
//! The server is a state machine over a peer table and two packet queues.
//! The process around it feeds decoded datagrams (screened with
//! [`screen_server_datagram`]) together with their source address into the
//! inbound queue, drains the outbound queue onto the socket, and calls
//! `cull` with the current clock; `poll` and the `send_to` family never
//! touch a socket themselves.

use vstd::prelude::*;

use crate::packet::AbstractPacket;
use crate::packet::Packet;
use crate::packet::PacketType;
use crate::packet::spec_deserialize;
use crate::shared::ConnectionConfig;
use crate::shared::SequenceManager;
use crate::shared::SocketAddress;
use crate::shared::idle_expiry;
use crate::shared::is_newer;
use crate::shared::next_sequence;
use crate::shared::spec_expiry;

verus! {

/// One connected peer: its address, its liveness deadline, and the sequence
/// tracker for traffic exchanged with it.
#[derive(PartialEq, Eq, Structural, Clone, Copy, Debug)]
pub struct ClientInstance {
    pub addr: SocketAddress,
    /// The absolute time (seconds) at which this peer expires
    pub timeout: i64,
    pub sequence_manager: SequenceManager,
}

impl ClientInstance {
    pub fn new(addr: SocketAddress, timeout: i64) -> (r: ClientInstance)
        ensures
            r.addr == addr,
            r.timeout == timeout,
            r.sequence_manager.last_sent_sequence_id == 0,
            r.sequence_manager.last_received_sequence_id == 0,
    {
        ClientInstance { addr, timeout, sequence_manager: SequenceManager::new() }
    }

    pub fn next_sequence_id(&mut self) -> (r: u16)
        ensures
            r == next_sequence(old(self).sequence_manager.last_sent_sequence_id),
            final(self).sequence_manager.last_sent_sequence_id == r,
            final(self).sequence_manager.last_received_sequence_id == old(self).sequence_manager.last_received_sequence_id,
            final(self).addr == old(self).addr,
            final(self).timeout == old(self).timeout,
    {
        self.sequence_manager.next_sequence_id()
    }
}

/// Types of event we can surface as a server.
pub enum PacketOrCommand<T> {
    /// A message packet, containing whichever type we're set up to handle
    UserPacket(T),
    /// An internal control packet
    Command(PacketType),
}

/// Some peer in the table has this address.
pub open spec fn known(conns: Seq<ClientInstance>, addr: SocketAddress) -> bool {
    exists|i: int| 0 <= i < conns.len() && (#[trigger] conns[i]).addr == addr
}

/// The index of the peer with this address (meaningful when `known`).
pub open spec fn instance_index(conns: Seq<ClientInstance>, addr: SocketAddress) -> int {
    choose|i: int| 0 <= i < conns.len() && (#[trigger] conns[i]).addr == addr
}

/// No two peers in the table share an address.
pub open spec fn unique_addresses(conns: Seq<ClientInstance>) -> bool {
    forall|i: int, j: int|
        0 <= i < j < conns.len() ==> (#[trigger] conns[i]).addr != (#[trigger] conns[j]).addr
}

/// With unique addresses, `instance_index` agrees with any index whose peer
/// has the address.
pub proof fn lemma_instance_index_agrees(conns: Seq<ClientInstance>, addr: SocketAddress, i: int)
    requires
        unique_addresses(conns),
        0 <= i < conns.len(),
        conns[i].addr == addr,
    ensures
        instance_index(conns, addr) == i,
{
    assert(known(conns, addr));
    let j = instance_index(conns, addr);
    assert(0 <= j < conns.len() && conns[j].addr == addr);
}

/// How one peer record evolves past one inbound packet that surfaced no
/// event: a fresh `Message` from that peer advances its tracker (even when
/// the payload is then rejected), everything else leaves it alone.
pub open spec fn instance_step(c: ClientInstance, p: AbstractPacket, src: SocketAddress)
    -> ClientInstance {
    if c.addr == src && p.packet_type is Message && is_newer(
        c.sequence_manager.last_received_sequence_id,
        p.sequence_id,
    ) {
        ClientInstance {
            addr: c.addr,
            timeout: c.timeout,
            sequence_manager: SequenceManager {
                last_sent_sequence_id: c.sequence_manager.last_sent_sequence_id,
                last_received_sequence_id: p.sequence_id,
            },
        }
    } else {
        c
    }
}

/// How the whole peer table evolves past one inbound packet that surfaced no
/// event.
pub open spec fn connections_step(
    conns: Seq<ClientInstance>,
    p: AbstractPacket,
    src: SocketAddress,
) -> Seq<ClientInstance> {
    conns.map_values(|c: ClientInstance| instance_step(c, p, src))
}

/// The peer table after the first `j` inbound entries of `q`, all of which
/// surfaced no event.
pub open spec fn connections_after(
    conns: Seq<ClientInstance>,
    q: Seq<(Packet, SocketAddress)>,
    j: int,
) -> Seq<ClientInstance>
    decreases j,
{
    if j <= 0 {
        conns
    } else {
        connections_step(connections_after(conns, q, j - 1), q[j - 1].0@, q[j - 1].1)
    }
}

/// An inbound entry the server consumed without surfacing an event: a
/// `Connect` from a peer already known, a `Disconnect` from an unknown peer,
/// a `Message` whose payload the deserializer rejected (its freshness still
/// advanced the tracker), a stale or unknown-peer `Message`, or an `Accept`
/// or `Reject`, which a server never acts on.
pub open spec fn server_passed_over<T, D: Fn(&Vec<u8>) -> Option<T>>(
    deserializer: D,
    conns: Seq<ClientInstance>,
    p: Packet,
    src: SocketAddress,
) -> bool {
    &&& p@.packet_type is Connect ==> known(conns, src)
    &&& p@.packet_type is Disconnect ==> !known(conns, src)
    &&& (p@.packet_type is Message && known(conns, src) && is_newer(
        conns[instance_index(conns, src)].sequence_manager.last_received_sequence_id,
        p@.sequence_id,
    )) ==> (p.packet_content matches Some(c) && call_ensures(deserializer, (&c,), None::<T>))
}

/// The first `k` inbound entries of `q` were all consumed without surfacing
/// an event, each against the peer table current when it was reached.
pub open spec fn server_drained<T, D: Fn(&Vec<u8>) -> Option<T>>(
    deserializer: D,
    conns: Seq<ClientInstance>,
    q: Seq<(Packet, SocketAddress)>,
    k: int,
) -> bool {
    forall|j: int|
        0 <= j < k ==> server_passed_over(
            deserializer,
            connections_after(conns, q, j),
            (#[trigger] q[j]).0,
            q[j].1,
        )
}

/// A UDP server, which manages multiple clients.
#[verifier::reject_recursive_types(T)]
pub struct Server<T, D, S> where D: Fn(&Vec<u8>) -> Option<T>, S: Fn(&T) -> Vec<u8> {
    /// Which address we listen on
    pub addr: SocketAddress,
    /// Basic configuration for the server
    pub config: ConnectionConfig<T, D, S>,
    /// The connected peers, in order of arrival; addresses never repeat
    pub connections: Vec<ClientInstance>,
    /// Screened datagrams delivered by the reader, oldest first
    pub inbound: Vec<(Packet, SocketAddress)>,
    /// Packets awaiting the writer, each with its destination, oldest first
    pub outbound: Vec<(Packet, SocketAddress)>,
}

/// Find the position of the peer with this address, if it is known.
fn find_connection(conns: &Vec<ClientInstance>, addr: &SocketAddress) -> (r: Option<usize>)
    ensures
        match r {
            Some(i) => i < conns@.len() && conns@[i as int].addr == *addr,
            None => !known(conns@, *addr),
        },
{
    let mut i: usize = 0;
    while i < conns.len()
        invariant
            0 <= i <= conns@.len(),
            forall|j: int| 0 <= j < i ==> (#[trigger] conns@[j]).addr != *addr,
        decreases conns@.len() - i,
    {
        if conns[i].addr == *addr {
            return Some(i);
        }
        i = i + 1;
    }
    None
}

impl<T, D, S> Server<T, D, S> where D: Fn(&Vec<u8>) -> Option<T>, S: Fn(&T) -> Vec<u8> {
    /// The peer table never holds two records for one address, and every
    /// queued inbound packet carries a payload exactly if it is a `Message`.
    pub open spec fn wf(&self) -> bool {
        &&& unique_addresses(self.connections@)
        &&& forall|i: int| 0 <= i < self.inbound@.len() ==> (#[trigger] self.inbound@[i]).0@.wf()
    }

    /// The identity and configuration of the endpoint: everything a call may
    /// never change.
    pub open spec fn same_endpoint(&self, other: &Server<T, D, S>) -> bool {
        &&& self.addr == other.addr
        &&& self.config == other.config
    }

    /// Create a server with no peers and empty queues. The process around it
    /// binds the socket and pumps the queues.
    pub fn new(addr: SocketAddress, config: ConnectionConfig<T, D, S>) -> (r: Server<T, D, S>)
        ensures
            r.addr == addr,
            r.config == config,
            r.connections@ == Seq::<ClientInstance>::empty(),
            r.inbound@ == Seq::<(Packet, SocketAddress)>::empty(),
            r.outbound@ == Seq::<(Packet, SocketAddress)>::empty(),
            r.wf(),
    {
        Server { addr, config, connections: Vec::new(), inbound: Vec::new(), outbound: Vec::new() }
    }

    /// Hand the server a screened inbound packet and its source address, in
    /// arrival order.
    pub fn receive_packet(&mut self, packet: Packet, src: SocketAddress)
        requires
            old(self).wf(),
            packet@.wf(),
        ensures
            final(self).wf(),
            final(self).inbound@ == old(self).inbound@.push((packet, src)),
            final(self).outbound@ == old(self).outbound@,
            final(self).connections@ == old(self).connections@,
            final(self).same_endpoint(old(self)),
    {
        self.inbound.push((packet, src));
    }

    /// Take the oldest packet awaiting the writer, with its destination.
    pub fn take_outgoing(&mut self) -> (r: Option<(Packet, SocketAddress)>)
        requires
            old(self).wf(),
        ensures
            final(self).wf(),
            old(self).outbound@.len() == 0 ==> r is None && *final(self) == *old(self),
            old(self).outbound@.len() > 0 ==> r == Some(old(self).outbound@[0]) && final(self).outbound@ == old(self).outbound@.skip(1),
            final(self).inbound@ == old(self).inbound@,
            final(self).connections@ == old(self).connections@,
            final(self).same_endpoint(old(self)),
    {
        if self.outbound.len() == 0 {
            None
        } else {
            let p = self.outbound.remove(0);
            proof {
                assert(final(self).outbound@ =~= old(self).outbound@.skip(1));
            }
            Some(p)
        }
    }

    /// List all of our current connections.
    pub fn all_connections(&self) -> (r: Vec<SocketAddress>)
        ensures
            r@ == self.connections@.map_values(|c: ClientInstance| c.addr),
    {
        let mut out: Vec<SocketAddress> = Vec::new();
        let mut i: usize = 0;
        while i < self.connections.len()
            invariant
                0 <= i <= self.connections@.len(),
                out@.len() == i,
                forall|j: int| 0 <= j < i ==> out@[j] == (#[trigger] self.connections@[j]).addr,
            decreases self.connections@.len() - i,
        {
            out.push(self.connections[i].addr);
            i = i + 1;
        }
        proof {
            assert(out@ =~= self.connections@.map_values(|c: ClientInstance| c.addr));
        }
        out
    }
}

impl<T, D, S> Server<T, D, S> where D: Fn(&Vec<u8>) -> Option<T>, S: Fn(&T) -> Vec<u8> {
    /// Pump any messages that have been sent to us.
    ///
    /// Drains the inbound queue until it can surface exactly one meaningful
    /// event, or the queue runs out:
    /// - a `Connect` from an unknown peer inserts a peer record expiring
    ///   `timeout_period` seconds past `now`, queues an `Accept` back to the
    ///   peer, and surfaces `Command(Connect)`; from a known peer it is
    ///   dropped silently;
    /// - a `Disconnect` from a known peer removes its record and surfaces
    ///   `Command(Disconnect)`; from an unknown peer it is dropped;
    /// - a fresh `Message` from a known peer advances that peer's tracker
    ///   and, when the deserializer accepts the payload, refreshes the
    ///   peer's expiry and surfaces `UserPacket`; stale messages, rejected
    ///   payloads, unknown peers, and every other packet type are consumed
    ///   silently.
    pub fn poll(&mut self, now: i64) -> (r: Option<(PacketOrCommand<T>, SocketAddress)>)
        requires
            old(self).wf(),
            old(self).config.total(),
        ensures
            final(self).wf(),
            final(self).same_endpoint(old(self)),
            ({
                let q = old(self).inbound@;
                let conns0 = old(self).connections@;
                let d = old(self).config.packet_deserializer;
                let pid = old(self).config.protocol_id;
                match r {
                    None => {
                        &&& final(self).inbound@.len() == 0
                        &&& server_drained(d, conns0, q, q.len() as int)
                        &&& final(self).connections@ == connections_after(
                            conns0,
                            q,
                            q.len() as int,
                        )
                        &&& final(self).outbound@ == old(self).outbound@
                    },
                    Some((ev, src)) => {
                        let k = q.len() - final(self).inbound@.len() - 1;
                        let mid = connections_after(conns0, q, k);
                        &&& 0 <= k < q.len()
                        &&& server_drained(d, conns0, q, k)
                        &&& final(self).inbound@ == q.skip(k + 1)
                        &&& src == q[k].1
                        &&& (q[k].0@.packet_type is Connect || q[k].0@.packet_type is Disconnect
                            || q[k].0@.packet_type is Message)
                        &&& (q[k].0@.packet_type is Connect ==> {
                            &&& ev == PacketOrCommand::<T>::Command(PacketType::Connect)
                            &&& !known(mid, src)
                            &&& final(self).connections@ == mid.push(
                                ClientInstance {
                                    addr: src,
                                    timeout: spec_expiry(now, old(self).config.timeout_period),
                                    sequence_manager: SequenceManager {
                                        last_sent_sequence_id: 0u16,
                                        last_received_sequence_id: 0u16,
                                    },
                                },
                            )
                            &&& final(self).outbound@ == old(self).outbound@.push(
                                final(self).outbound@.last(),
                            )
                            &&& final(self).outbound@.last().1 == src
                            &&& final(self).outbound@.last().0@ == (AbstractPacket {
                                protocol_id: pid,
                                sequence_id: 0u16,
                                packet_type: PacketType::Accept,
                                packet_content: None,
                            })
                        })
                        &&& (q[k].0@.packet_type is Disconnect ==> {
                            &&& ev == PacketOrCommand::<T>::Command(PacketType::Disconnect)
                            &&& known(mid, src)
                            &&& final(self).connections@ == mid.remove(instance_index(mid, src))
                            &&& final(self).outbound@ == old(self).outbound@
                        })
                        &&& (q[k].0@.packet_type is Message ==> {
                            let i = instance_index(mid, src);
                            &&& known(mid, src)
                            &&& is_newer(
                                mid[i].sequence_manager.last_received_sequence_id,
                                q[k].0@.sequence_id,
                            )
                            &&& (ev matches PacketOrCommand::UserPacket(v) && (
                            q[k].0.packet_content matches Some(c) && call_ensures(
                                d,
                                (&c,),
                                Some(v),
                            )))
                            &&& final(self).connections@ == mid.update(
                                i,
                                ClientInstance {
                                    addr: src,
                                    timeout: spec_expiry(now, old(self).config.timeout_period),
                                    sequence_manager: SequenceManager {
                                        last_sent_sequence_id:
                                            mid[i].sequence_manager.last_sent_sequence_id,
                                        last_received_sequence_id: q[k].0@.sequence_id,
                                    },
                                },
                            )
                            &&& final(self).outbound@ == old(self).outbound@
                        })
                    },
                }
            }),
    {
        let ghost q = self.inbound@;
        let ghost conns0 = self.connections@;
        let ghost d = self.config.packet_deserializer;
        while self.inbound.len() > 0
            invariant
                self.wf(),
                self.config.total(),
                self.config == old(self).config,
                self.addr == old(self).addr,
                self.outbound@ == old(self).outbound@,
                q == old(self).inbound@,
                conns0 == old(self).connections@,
                d == old(self).config.packet_deserializer,
                self.inbound@ == q.skip(q.len() - self.inbound@.len()),
                self.inbound@.len() <= q.len(),
                server_drained(d, conns0, q, q.len() - self.inbound@.len()),
                self.connections@ == connections_after(conns0, q, q.len() - self.inbound@.len()),
            decreases self.inbound@.len(),
        {
            let ghost k = q.len() - self.inbound@.len();
            let ghost mid = self.connections@;
            let (p, src) = self.inbound.remove(0);
            let ghost pkt = p;
            proof {
                assert(q.skip(k)[0] == q[k]);
                assert(self.inbound@ =~= q.skip(k + 1));
            }
            match p.packet_type {
                PacketType::Connect => {
                    match find_connection(&self.connections, &src) {
                        None => {
                            let expiry = idle_expiry(now, self.config.timeout_period);
                            self.connections.push(ClientInstance::new(src, expiry));
                            self.outbound.push(
                                (Packet::accept(self.config.protocol_id, 0), src),
                            );
                            proof {
                                assert forall|a: int, b: int|
                                    0 <= a < b < self.connections@.len() implies (
                                #[trigger] self.connections@[a]).addr != (
                                #[trigger] self.connections@[b]).addr by {
                                    if b == self.connections@.len() - 1 {
                                        assert(self.connections@[a] == mid[a]);
                                    }
                                }
                            }
                            return Some((PacketOrCommand::Command(PacketType::Connect), src));
                        },
                        Some(_) => {},
                    }
                },
                PacketType::Disconnect => {
                    match find_connection(&self.connections, &src) {
                        Some(i) => {
                            self.connections.remove(i);
                            proof {
                                lemma_instance_index_agrees(mid, src, i as int);
                                assert forall|a: int, b: int|
                                    0 <= a < b < self.connections@.len() implies (
                                #[trigger] self.connections@[a]).addr != (
                                #[trigger] self.connections@[b]).addr by {
                                    assert(self.connections@[a] == if a < i as int {
                                        mid[a]
                                    } else {
                                        mid[a + 1]
                                    });
                                    assert(self.connections@[b] == if b < i as int {
                                        mid[b]
                                    } else {
                                        mid[b + 1]
                                    });
                                }
                            }
                            return Some((PacketOrCommand::Command(PacketType::Disconnect), src));
                        },
                        None => {},
                    }
                },
                PacketType::Message => {
                    match find_connection(&self.connections, &src) {
                        Some(i) => {
                            let mut inst = self.connections[i];
                            if inst.sequence_manager.packet_is_newer(p.sequence_id) {
                                proof {
                                    lemma_instance_index_agrees(mid, src, i as int);
                                }
                                inst.sequence_manager.set_newest_packet(p.sequence_id);
                                self.connections.set(i, inst);
                                let content = p.packet_content.unwrap();
                                match (self.config.packet_deserializer)(&content) {
                                    Some(deserialized) => {
                                        let expiry = idle_expiry(
                                            now,
                                            self.config.timeout_period,
                                        );
                                        let mut refreshed = self.connections[i];
                                        refreshed.timeout = expiry;
                                        self.connections.set(i, refreshed);
                                        proof {
                                            assert(self.connections@ =~= mid.update(
                                                i as int,
                                                self.connections@[i as int],
                                            ));
                                        }
                                        return Some(
                                            (PacketOrCommand::UserPacket(deserialized), src),
                                        );
                                    },
                                    None => {
                                        proof {
                                            assert(pkt.packet_content matches Some(c)
                                                && call_ensures(d, (&c,), None::<T>));
                                        }
                                    },
                                }
                            }
                        },
                        None => {},
                    }
                },
                _ => {},
            }
            proof {
                if known(mid, src) {
                    let i = instance_index(mid, src);
                    assert(0 <= i < mid.len() && mid[i].addr == src);
                }
                assert(server_passed_over(d, mid, q[k].0, q[k].1));
                assert(self.connections@ =~= connections_step(mid, pkt@, src));
                assert(connections_after(conns0, q, k + 1) == connections_step(
                    connections_after(conns0, q, k),
                    q[k].0@,
                    q[k].1,
                ));
            }
        }
        None
    }
}

/// The peers that survive a cull at time `now`: those whose deadline has not
/// passed, in their original order.
pub open spec fn kept_connections(conns: Seq<ClientInstance>, now: i64) -> Seq<ClientInstance>
    decreases conns.len(),
{
    if conns.len() == 0 {
        Seq::empty()
    } else {
        let rest = kept_connections(conns.drop_last(), now);
        if conns.last().timeout >= now {
            rest.push(conns.last())
        } else {
            rest
        }
    }
}

/// The addresses evicted by a cull at time `now`: those whose deadline has
/// passed, in their original order.
pub open spec fn culled_addresses(conns: Seq<ClientInstance>, now: i64) -> Seq<SocketAddress>
    decreases conns.len(),
{
    if conns.len() == 0 {
        Seq::empty()
    } else {
        let rest = culled_addresses(conns.drop_last(), now);
        if conns.last().timeout >= now {
            rest
        } else {
            rest.push(conns.last().addr)
        }
    }
}

/// Law: a cull partitions the peer table, so the number of connections
/// shrinks by exactly the number of evicted addresses it returns.
pub proof fn lemma_cull_partitions_connections(conns: Seq<ClientInstance>, now: i64)
    ensures
        kept_connections(conns, now).len() + culled_addresses(conns, now).len() == conns.len(),
    decreases conns.len(),
{
    if conns.len() > 0 {
        lemma_cull_partitions_connections(conns.drop_last(), now);
    }
}

/// Every kept peer is one of the original peers, and keeping a subset of
/// peers with unique addresses leaves the addresses unique.
proof fn lemma_kept_connections_facts(conns: Seq<ClientInstance>, now: i64)
    ensures
        forall|i: int|
            0 <= i < kept_connections(conns, now).len() ==> exists|j: int|
                0 <= j < conns.len() && conns[j] == #[trigger] kept_connections(conns, now)[i],
        unique_addresses(conns) ==> unique_addresses(kept_connections(conns, now)),
    decreases conns.len(),
{
    if conns.len() > 0 {
        let prefix = conns.drop_last();
        lemma_kept_connections_facts(prefix, now);
        let kept = kept_connections(conns, now);
        let kept_prefix = kept_connections(prefix, now);
        assert forall|i: int| 0 <= i < kept.len() implies exists|j: int|
            0 <= j < conns.len() && conns[j] == #[trigger] kept[i] by {
            if i < kept_prefix.len() {
                let j = choose|j: int| 0 <= j < prefix.len() && prefix[j] == kept_prefix[i];
                assert(conns[j] == kept[i]);
            } else {
                assert(conns[conns.len() - 1] == kept[i]);
            }
        }
        if unique_addresses(conns) {
            assert(unique_addresses(prefix));
            assert forall|a: int, b: int| 0 <= a < b < kept.len() implies (
            #[trigger] kept[a]).addr != (#[trigger] kept[b]).addr by {
                if b < kept_prefix.len() {
                    assert(kept_prefix[a].addr != kept_prefix[b].addr);
                } else {
                    let j = choose|j: int| 0 <= j < prefix.len() && prefix[j] == kept_prefix[a];
                    assert(conns[j].addr != conns.last().addr);
                }
            }
        }
    }
}

/// One peer record after handing out one more outbound sequence id.
pub open spec fn bump_sent(c: ClientInstance) -> ClientInstance {
    ClientInstance {
        addr: c.addr,
        timeout: c.timeout,
        sequence_manager: SequenceManager {
            last_sent_sequence_id: next_sequence(c.sequence_manager.last_sent_sequence_id),
            last_received_sequence_id: c.sequence_manager.last_received_sequence_id,
        },
    }
}

/// Two peer tables that differ at most in outbound sequence ids: same peers,
/// same deadlines, same inbound freshness, in the same order.
pub open spec fn same_peers(a: Seq<ClientInstance>, b: Seq<ClientInstance>) -> bool {
    &&& a.len() == b.len()
    &&& forall|i: int|
        0 <= i < a.len() ==> ((#[trigger] b[i]).addr == a[i].addr && b[i].timeout == a[i].timeout
            && b[i].sequence_manager.last_received_sequence_id
            == a[i].sequence_manager.last_received_sequence_id)
}

/// Tables with the same peers know the same addresses.
proof fn lemma_same_peers_known(a: Seq<ClientInstance>, b: Seq<ClientInstance>, x: SocketAddress)
    requires
        same_peers(a, b),
    ensures
        known(a, x) == known(b, x),
{
    if known(a, x) {
        let i = choose|i: int| 0 <= i < a.len() && (#[trigger] a[i]).addr == x;
        assert(b[i].addr == x);
    }
    if known(b, x) {
        let i = choose|i: int| 0 <= i < b.len() && (#[trigger] b[i]).addr == x;
        assert(a[i].addr == x);
    }
}

/// The addresses out of `addrs` that the table knows, in order, duplicates
/// kept: the recipients a `send_to_many` call actually reaches.
pub open spec fn known_recipients(conns: Seq<ClientInstance>, addrs: Seq<SocketAddress>) -> Seq<
    SocketAddress,
>
    decreases addrs.len(),
{
    if addrs.len() == 0 {
        Seq::empty()
    } else {
        let rest = known_recipients(conns, addrs.drop_last());
        if known(conns, addrs.last()) {
            rest.push(addrs.last())
        } else {
            rest
        }
    }
}

/// When every address in the list is known, the recipients are exactly the
/// list.
proof fn lemma_known_recipients_all(conns: Seq<ClientInstance>, addrs: Seq<SocketAddress>)
    requires
        forall|i: int| 0 <= i < addrs.len() ==> known(conns, #[trigger] addrs[i]),
    ensures
        known_recipients(conns, addrs) == addrs,
    decreases addrs.len(),
{
    if addrs.len() > 0 {
        let prefix = addrs.drop_last();
        assert(forall|i: int| 0 <= i < prefix.len() ==> known(conns, #[trigger] prefix[i]));
        lemma_known_recipients_all(conns, prefix);
        assert(known_recipients(conns, addrs) =~= addrs);
    }
}

impl<T, D, S> Server<T, D, S> where D: Fn(&Vec<u8>) -> Option<T>, S: Fn(&T) -> Vec<u8> {
    /// Disconnect, and return, any peers whose deadline has passed. The
    /// surviving peers keep their records unchanged; `all_connections`
    /// shrinks by exactly the returned addresses.
    pub fn cull(&mut self, now: i64) -> (r: Vec<SocketAddress>)
        requires
            old(self).wf(),
        ensures
            final(self).wf(),
            final(self).same_endpoint(old(self)),
            final(self).inbound@ == old(self).inbound@,
            final(self).outbound@ == old(self).outbound@,
            final(self).connections@ == kept_connections(old(self).connections@, now),
            r@ == culled_addresses(old(self).connections@, now),
    {
        let mut keep_alive: Vec<ClientInstance> = Vec::new();
        let mut culled: Vec<SocketAddress> = Vec::new();
        let mut i: usize = 0;
        while i < self.connections.len()
            invariant
                0 <= i <= self.connections@.len(),
                *self == *old(self),
                keep_alive@ == kept_connections(self.connections@.take(i as int), now),
                culled@ == culled_addresses(self.connections@.take(i as int), now),
            decreases self.connections@.len() - i,
        {
            let connection = self.connections[i];
            proof {
                assert(self.connections@.take(i + 1).drop_last() =~= self.connections@.take(
                    i as int,
                ));
                assert(self.connections@.take(i + 1).last() == self.connections@[i as int]);
            }
            if connection.timeout >= now {
                keep_alive.push(connection);
            } else {
                culled.push(connection.addr);
            }
            i = i + 1;
        }
        proof {
            assert(self.connections@.take(self.connections@.len() as int) =~= self.connections@);
            lemma_kept_connections_facts(self.connections@, now);
        }
        self.connections = keep_alive;
        culled
    }

    /// Send a message to a specific peer, with a sequence id fresh for that
    /// peer. Returns false, and sends nothing, when the address is not
    /// connected to us.
    pub fn send_to(&mut self, packet: &T, addr: &SocketAddress) -> (r: bool)
        requires
            old(self).wf(),
            old(self).config.total(),
        ensures
            final(self).wf(),
            final(self).same_endpoint(old(self)),
            final(self).inbound@ == old(self).inbound@,
            r == known(old(self).connections@, *addr),
            !r ==> *final(self) == *old(self),
            r ==> ({
                let i = instance_index(old(self).connections@, *addr);
                &&& final(self).connections@ == old(self).connections@.update(
                    i,
                    bump_sent(old(self).connections@[i]),
                )
                &&& final(self).outbound@ == old(self).outbound@.push(final(self).outbound@.last())
                &&& final(self).outbound@.last().1 == *addr
                &&& ({
                    let m = final(self).outbound@.last().0;
                    &&& m@.packet_type is Message
                    &&& m@.protocol_id == old(self).config.protocol_id
                    &&& m@.sequence_id == next_sequence(
                        old(self).connections@[i].sequence_manager.last_sent_sequence_id,
                    )
                    &&& (m.packet_content matches Some(c) && call_ensures(
                        old(self).config.packet_serializer,
                        (packet,),
                        c,
                    ))
                })
            }),
    {
        match find_connection(&self.connections, addr) {
            Some(i) => {
                proof {
                    lemma_instance_index_agrees(self.connections@, *addr, i as int);
                }
                let mut inst = self.connections[i];
                let sequence_id = inst.next_sequence_id();
                self.connections.set(i, inst);
                let bytes = (self.config.packet_serializer)(packet);
                let message = Packet::message(self.config.protocol_id, sequence_id, bytes);
                self.outbound.push((message, *addr));
                proof {
                    assert forall|a: int, b: int|
                        0 <= a < b < self.connections@.len() implies (
                    #[trigger] self.connections@[a]).addr != (
                    #[trigger] self.connections@[b]).addr by {
                        assert(self.connections@[a].addr == old(self).connections@[a].addr);
                        assert(self.connections@[b].addr == old(self).connections@[b].addr);
                    }
                }
                true
            },
            None => false,
        }
    }

    /// Send a message to each of several addresses, one `send_to` each:
    /// unknown addresses are skipped, the rest receive in the order given.
    pub fn send_to_many(&mut self, packet: &T, addrs: &Vec<SocketAddress>)
        requires
            old(self).wf(),
            old(self).config.total(),
        ensures
            final(self).wf(),
            final(self).same_endpoint(old(self)),
            final(self).inbound@ == old(self).inbound@,
            same_peers(old(self).connections@, final(self).connections@),
            final(self).outbound@.len() == old(self).outbound@.len() + known_recipients(
                old(self).connections@,
                addrs@,
            ).len(),
            final(self).outbound@.take(old(self).outbound@.len() as int) == old(self).outbound@,
            forall|k: int|
                old(self).outbound@.len() <= k < final(self).outbound@.len() ==> ({
                    let entry = #[trigger] final(self).outbound@[k];
                    &&& entry.1 == known_recipients(old(self).connections@, addrs@)[k - old(
                        self,
                    ).outbound@.len()]
                    &&& entry.0@.packet_type is Message
                    &&& entry.0@.protocol_id == old(self).config.protocol_id
                    &&& (entry.0.packet_content matches Some(c) && call_ensures(
                        old(self).config.packet_serializer,
                        (packet,),
                        c,
                    ))
                }),
    {
        let ghost conns0 = self.connections@;
        let ghost out0 = self.outbound@;
        let mut i: usize = 0;
        while i < addrs.len()
            invariant
                0 <= i <= addrs@.len(),
                self.wf(),
                self.config.total(),
                self.config == old(self).config,
                self.addr == old(self).addr,
                self.inbound@ == old(self).inbound@,
                conns0 == old(self).connections@,
                out0 == old(self).outbound@,
                same_peers(conns0, self.connections@),
                self.outbound@.len() == out0.len() + known_recipients(
                    conns0,
                    addrs@.take(i as int),
                ).len(),
                self.outbound@.take(out0.len() as int) == out0,
                forall|k: int|
                    out0.len() <= k < self.outbound@.len() ==> ({
                        let entry = #[trigger] self.outbound@[k];
                        &&& entry.1 == known_recipients(conns0, addrs@.take(i as int))[k
                            - out0.len()]
                        &&& entry.0@.packet_type is Message
                        &&& entry.0@.protocol_id == old(self).config.protocol_id
                        &&& (entry.0.packet_content matches Some(c) && call_ensures(
                            old(self).config.packet_serializer,
                            (packet,),
                            c,
                        ))
                    }),
            decreases addrs@.len() - i,
        {
            let ghost pre = self.connections@;
            let ghost out_pre = self.outbound@;
            let sent = self.send_to(packet, &addrs[i]);
            proof {
                assert(addrs@.take(i + 1).drop_last() =~= addrs@.take(i as int));
                assert(addrs@.take(i + 1).last() == addrs@[i as int]);
                lemma_same_peers_known(conns0, pre, addrs@[i as int]);
                assert(self.outbound@.take(out0.len() as int) =~= out0);
            }
            i = i + 1;
        }
        proof {
            assert(addrs@.take(addrs@.len() as int) =~= addrs@);
        }
    }

    /// Send a message to every connected peer, in table order.
    pub fn send_to_all(&mut self, packet: &T)
        requires
            old(self).wf(),
            old(self).config.total(),
        ensures
            final(self).wf(),
            final(self).same_endpoint(old(self)),
            final(self).inbound@ == old(self).inbound@,
            same_peers(old(self).connections@, final(self).connections@),
            final(self).outbound@.len() == old(self).outbound@.len() + old(
                self,
            ).connections@.len(),
            final(self).outbound@.take(old(self).outbound@.len() as int) == old(self).outbound@,
            forall|k: int|
                old(self).outbound@.len() <= k < final(self).outbound@.len() ==> ({
                    let entry = #[trigger] final(self).outbound@[k];
                    &&& entry.1 == old(self).connections@[k - old(self).outbound@.len()].addr
                    &&& entry.0@.packet_type is Message
                    &&& entry.0@.protocol_id == old(self).config.protocol_id
                    &&& (entry.0.packet_content matches Some(c) && call_ensures(
                        old(self).config.packet_serializer,
                        (packet,),
                        c,
                    ))
                }),
    {
        let addrs = self.all_connections();
        proof {
            assert forall|i: int| 0 <= i < addrs@.len() implies known(
                self.connections@,
                #[trigger] addrs@[i],
            ) by {
                assert(self.connections@[i].addr == addrs@[i]);
            }
            lemma_known_recipients_all(self.connections@, addrs@);
        }
        self.send_to_many(packet, &addrs);
    }
}

/// The server reader's screen for one raw datagram: decode it, and keep it
/// only when it carries our protocol id. Any source address may deliver.
pub fn screen_server_datagram(raw: &[u8], protocol_id: u32) -> (r: Option<Packet>)
    ensures
        match r {
            Some(p) => {
                &&& spec_deserialize(raw@) == Some(p@)
                &&& p@.protocol_id == protocol_id
                &&& p@.wf()
            },
            None => {
                ||| spec_deserialize(raw@) is None
                ||| (spec_deserialize(raw@) matches Some(a) && a.protocol_id != protocol_id)
            },
        },
{
    match Packet::deserialize(raw) {
        Ok(packet) => {
            if packet.protocol_id == protocol_id {
                Some(packet)
            } else {
                None
            }
        },
        Err(_) => None,
    }
}

} // verus!
