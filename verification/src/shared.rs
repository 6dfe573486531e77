//! Configuration shared by both endpoints, the socket-address model, and the
//! 16-bit wrap-around sequence tracker.

use vstd::prelude::*;

verus! {

/// An IP address, held as plain numeric segments so that peer identity is a
/// pure value the protocol logic can compare and store.
#[derive(PartialEq, Eq, Structural, Clone, Copy, Debug, Hash)]
pub enum IpAddress {
    V4(u8, u8, u8, u8),
    V6(u16, u16, u16, u16, u16, u16, u16, u16),
}

/// A peer's datagram address: IP segments plus port. Two peers are the same
/// peer exactly when their addresses are equal.
#[derive(PartialEq, Eq, Structural, Clone, Copy, Debug, Hash)]
pub struct SocketAddress {
    pub ip: IpAddress,
    pub port: u16,
}

/// General configuration for a connection.
///
/// `D` turns raw payload bytes into the application's message type and may
/// reject them; `S` turns a message into payload bytes.
#[verifier::reject_recursive_types(T)]
pub struct ConnectionConfig<T, D, S> where D: Fn(&Vec<u8>) -> Option<T>, S: Fn(&T) -> Vec<u8> {
    /// A shared id to identify whether a connection should be accepted
    pub protocol_id: u32,
    /// How long (in seconds) we should wait before hanging up
    pub timeout_period: i64,
    /// A function to turn raw data into our packet format
    pub packet_deserializer: D,
    /// A function to turn a packet into raw data
    pub packet_serializer: S,
    /// Ties the message type `T` to the config; carries no data.
    pub marker: core::marker::PhantomData<T>,
}

impl<T, D, S> ConnectionConfig<T, D, S> where D: Fn(&Vec<u8>) -> Option<T>, S: Fn(&T) -> Vec<u8> {
    /// The serializer and deserializer accept every argument, so the
    /// endpoints may hand them any payload or message.
    pub open spec fn total(&self) -> bool {
        &&& forall|v: &Vec<u8>| call_requires(self.packet_deserializer, (v,))
        &&& forall|t: &T| call_requires(self.packet_serializer, (t,))
    }

    /// Create a new ConnectionConfig object.
    pub fn new(
        protocol_id: u32,
        timeout_period: i64,
        packet_deserializer: D,
        packet_serializer: S,
    ) -> (r: ConnectionConfig<T, D, S>)
        ensures
            r.protocol_id == protocol_id,
            r.timeout_period == timeout_period,
            r.packet_deserializer == packet_deserializer,
            r.packet_serializer == packet_serializer,
    {
        ConnectionConfig {
            protocol_id,
            timeout_period,
            packet_deserializer,
            packet_serializer,
            marker: core::marker::PhantomData,
        }
    }
}

/// Half of the 16-bit sequence space: the freshness window.
pub const SEQUENCE_HALF_WINDOW: u16 = 0x8000;

/// The forward (clockwise) distance from `last` to `s` on the 16-bit circle,
/// always in `[0, 0x10000)`.
pub open spec fn forward_distance(last: u16, s: u16) -> int {
    if s >= last {
        s - last
    } else {
        s - last + 0x10000
    }
}

/// The half-window freshness rule: `s` is strictly newer than `last` exactly
/// when the forward distance from `last` to `s` lies in the open interval
/// `(0, 0x8000)`.
pub open spec fn is_newer(last: u16, s: u16) -> bool {
    0 < forward_distance(last, s) < SEQUENCE_HALF_WINDOW
}

/// The successor of `s` on the 16-bit circle.
pub open spec fn next_sequence(s: u16) -> u16 {
    ((s + 1) % 0x10000) as u16
}

/// A helper struct to maintain packet ordering: it hands out outbound
/// sequence ids and decides whether an inbound id is fresh.
#[derive(PartialEq, Eq, Structural, Clone, Copy, Debug)]
pub struct SequenceManager {
    pub last_sent_sequence_id: u16,
    pub last_received_sequence_id: u16,
}

impl SequenceManager {
    /// Create a new SequenceManager. Both directions start at zero, so the
    /// first id handed out is 1.
    pub fn new() -> (r: SequenceManager)
        ensures
            r.last_sent_sequence_id == 0,
            r.last_received_sequence_id == 0,
    {
        SequenceManager { last_sent_sequence_id: 0, last_received_sequence_id: 0 }
    }

    /// Generate a new sequence id for us: the successor of the last one,
    /// wrapping around at the end of the 16-bit space.
    pub fn next_sequence_id(&mut self) -> (r: u16)
        ensures
            r == next_sequence(old(self).last_sent_sequence_id),
            final(self).last_sent_sequence_id == r,
            final(self).last_received_sequence_id == old(self).last_received_sequence_id,
    {
        if self.last_sent_sequence_id == 0xffff {
            self.last_sent_sequence_id = 0;
        } else {
            self.last_sent_sequence_id = self.last_sent_sequence_id + 1;
        }
        self.last_sent_sequence_id
    }

    /// Is a packet classed as newer than the last we received, under the
    /// half-window rule?
    pub fn packet_is_newer(&self, sequence_id: u16) -> (r: bool)
        ensures
            r == is_newer(self.last_received_sequence_id, sequence_id),
    {
        let last = self.last_received_sequence_id;
        let distance: u32 = if sequence_id >= last {
            (sequence_id - last) as u32
        } else {
            0x10000 - (last - sequence_id) as u32
        };
        0 < distance && distance < SEQUENCE_HALF_WINDOW as u32
    }

    /// Record `sequence_id` as the newest packet received. Unconditional:
    /// callers gate this by `packet_is_newer`.
    pub fn set_newest_packet(&mut self, sequence_id: u16)
        ensures
            final(self).last_received_sequence_id == sequence_id,
            final(self).last_sent_sequence_id == old(self).last_sent_sequence_id,
    {
        self.last_received_sequence_id = sequence_id;
    }
}

/// The liveness deadline `timeout_period` seconds past `now`, clamped at the
/// ends of the clock's range.
pub open spec fn spec_expiry(now: i64, timeout_period: i64) -> i64 {
    if now + timeout_period > i64::MAX {
        i64::MAX
    } else if now + timeout_period < i64::MIN {
        i64::MIN
    } else {
        (now + timeout_period) as i64
    }
}

/// Compute the liveness deadline `timeout_period` seconds past `now`,
/// saturating instead of overflowing.
pub fn idle_expiry(now: i64, timeout_period: i64) -> (r: i64)
    ensures
        r == spec_expiry(now, timeout_period),
{
    match now.checked_add(timeout_period) {
        Some(v) => v,
        None => {
            if timeout_period > 0 {
                i64::MAX
            } else {
                i64::MIN
            }
        },
    }
}

/// Law: once `s` has been recorded as the newest received id, `s` itself is
/// no longer fresh, while its successor on the 16-bit circle is fresh.
pub proof fn lemma_set_newest_freshness(s: u16)
    ensures
        !is_newer(s, s),
        is_newer(s, next_sequence(s)),
{
}

} // verus!
