//! Data plane: sealed records inside typed datagrams.

use crate::envelope::Envelope;
use crate::udp::keys::{self, derive_record_keys, RecordKey};
use crate::udp::wire_dgram::{self, decode_inner, encode_inner, DgramType};
use vstd::prelude::*;
use vstd::slice::slice_to_vec;

verus! {

/// Both directions of a datagram channel: the key that outgoing records are
/// sealed with and the key that incoming records are opened with.
#[derive(Debug, Clone, Copy)]
pub struct DataChannel {
    seal_key: RecordKey,
    open_key: RecordKey,
}

/// The sealed record inside the inner datagram `inner`, if it carries one.
pub open spec fn data_record(inner: Seq<u8>) -> Option<Seq<u8>> {
    match wire_dgram::inner_parts(inner) {
        Some((DgramType::Data, record)) => Some(record),
        _ => None,
    }
}

/// The two keys of one end of a channel.
pub struct ChannelKeys {
    /// Seals what this end sends.
    pub seal: Seq<u8>,
    /// Opens what this end receives.
    pub open: Seq<u8>,
}

impl View for DataChannel {
    type V = ChannelKeys;

    closed spec fn view(&self) -> ChannelKeys {
        ChannelKeys { seal: self.seal_key@, open: self.open_key@ }
    }
}

/// The keys of the client's end of the channel that `seed` sets up.
pub open spec fn client_keys(seed: Seq<u8>) -> ChannelKeys {
    ChannelKeys { seal: keys::c2s_key(seed), open: keys::s2c_key(seed) }
}

/// The keys of the server's end of the channel that `seed` sets up.
pub open spec fn server_keys(seed: Seq<u8>) -> ChannelKeys {
    ChannelKeys { seal: keys::s2c_key(seed), open: keys::c2s_key(seed) }
}

/// What came of opening a sealed record.
pub enum Opened<B> {
    /// The record is forged or replayed.
    Rejected,
    /// The record is authentic and fresh; its plaintext was parsed, or could
    /// not be.
    Authentic(Result<Envelope<B>, String>),
}

/// The envelope that an opened record holds. What is authentic but malformed is
/// as good as nothing.
pub open spec fn opened_envelope<B>(opened: Opened<B>) -> Option<Envelope<B>> {
    match opened {
        Opened::Authentic(Ok(env)) => Some(env),
        _ => None,
    }
}

/// The envelope that a received datagram holds: there is one only if the
/// datagram carries a record, the record is authentic and fresh, and its
/// plaintext is an envelope.
pub open spec fn datagram_envelope<B>(inner: Option<Seq<u8>>, opened: Opened<B>) -> Option<Envelope<B>> {
    match inner {
        Some(i) => match data_record(i) {
            Some(_) => opened_envelope(opened),
            None => None,
        },
        None => None,
    }
}

impl DataChannel {
    /// A channel that seals with `seal_key` and opens with `open_key`.
    pub fn new(seal_key: RecordKey, open_key: RecordKey) -> (channel: Self)
        ensures
            channel@ == (ChannelKeys { seal: seal_key@, open: open_key@ }),
    {
        DataChannel { seal_key, open_key }
    }

    /// The client's end of the channel that `seed` sets up.
    pub fn for_client(seed: &[u8; 32]) -> (channel: Self)
        ensures
            channel@ == client_keys(seed@),
    {
        let (c2s, s2c) = derive_record_keys(seed);
        DataChannel::new(c2s, s2c)
    }

    /// The server's end of the channel that `seed` sets up.
    pub fn for_server(seed: &[u8; 32]) -> (channel: Self)
        ensures
            channel@ == server_keys(seed@),
    {
        let (c2s, s2c) = derive_record_keys(seed);
        DataChannel::new(s2c, c2s)
    }

    /// The key that outgoing records are sealed with.
    pub fn seal_key(&self) -> (key: RecordKey)
        ensures
            key@ == self@.seal,
    {
        self.seal_key
    }

    /// The key that incoming records are opened with.
    pub fn open_key(&self) -> (key: RecordKey)
        ensures
            key@ == self@.open,
    {
        self.open_key
    }

    /// The inner datagram that carries the sealed record `record`.
    pub fn seal_envelope(&self, record: &[u8]) -> (inner: Vec<u8>)
        ensures
            inner@ == wire_dgram::inner_bytes(DgramType::Data, record@),
    {
        encode_inner(DgramType::Data, record)
    }

    /// The sealed record inside a received datagram, to be opened with
    /// [`open_key`](DataChannel::open_key). `inner` is what shaping left of the
    /// datagram; `None` is a datagram that could not be unshaped. Anything but
    /// a well-formed data datagram is dropped.
    pub fn open_datagram(&self, inner: Option<&[u8]>) -> (record: Option<Vec<u8>>)
        ensures
            match (record, inner) {
                (Some(r), Some(i)) => data_record(i@) == Some(r@),
                (None, Some(i)) => data_record(i@) is None,
                (r, None) => r is None,
            },
    {
        match inner {
            Some(data) => match decode_inner(data) {
                Some((DgramType::Data, record)) => Some(slice_to_vec(record)),
                _ => None,
            },
            None => None,
        }
    }

    /// The envelope that a record holds, given what came of opening it. A record
    /// that is forged, replayed or malformed is dropped like a datagram that
    /// carries none.
    pub fn accept_record<B>(&self, opened: Opened<B>) -> (env: Option<Envelope<B>>)
        ensures
            env == opened_envelope(opened),
    {
        match opened {
            Opened::Authentic(Ok(env)) => Some(env),
            _ => None,
        }
    }
}

/// Datagrams that are no data, and records that are forged, replayed or
/// malformed, hold no envelope.
pub proof fn law_only_good_records_count<B>(inner: Option<Seq<u8>>, opened: Opened<B>)
    ensures
        datagram_envelope(inner, opened) matches Some(env) ==> opened == Opened::Authentic(
            Ok::<_, String>(env),
        ) && inner is Some && data_record(inner->0) is Some,
        opened is Rejected ==> datagram_envelope(inner, opened) is None,
        opened matches Opened::Authentic(Err(_)) ==> datagram_envelope(inner, opened) is None,
{
}

/// What one end seals, the other end opens: the two ends that one seed sets
/// up hold the same two keys in opposite roles.
pub proof fn law_ends_interoperate(seed: Seq<u8>)
    ensures
        client_keys(seed).seal == server_keys(seed).open,
        server_keys(seed).seal == client_keys(seed).open,
{
}

/// A record that one end frames reaches the other end unchanged.
pub proof fn law_record_roundtrip(record: Seq<u8>)
    ensures
        data_record(wire_dgram::inner_bytes(DgramType::Data, record)) == Some(record),
{
    wire_dgram::law_inner_roundtrip(DgramType::Data, record);
}

/// Of the two ends that one seed sets up, the client seals with the
/// client-to-server key and opens with the other, and the server does the
/// reverse.
pub proof fn law_ends_have_opposite_keys(
    seed: &[u8; 32],
    client: DataChannel,
    server: DataChannel,
    both: (RecordKey, RecordKey),
)
    requires
        call_ensures(DataChannel::for_client, (seed,), client),
        call_ensures(DataChannel::for_server, (seed,), server),
        call_ensures(derive_record_keys, (seed,), both),
    ensures
        client@.seal == both.0@ && client@.open == both.1@,
        server@.seal == both.1@ && server@.open == both.0@,
{
}

/// A channel seals and opens with the keys that it was given.
pub proof fn law_channel_keeps_its_keys(
    seal: RecordKey,
    open: RecordKey,
    channel: DataChannel,
    sealing: RecordKey,
    opening: RecordKey,
)
    requires
        call_ensures(DataChannel::new, (seal, open), channel),
        call_ensures(DataChannel::seal_key, (&channel,), sealing),
        call_ensures(DataChannel::open_key, (&channel,), opening),
    ensures
        sealing@ == seal@,
        opening@ == open@,
        channel@.seal == seal@,
        channel@.open == open@,
{
}

/// Any end finds in a datagram the sealed record that any other end put into it.
/// What is not tagged as data holds no record.
pub proof fn law_record_reaches_the_other_end(
    from: &DataChannel,
    to: &DataChannel,
    record: &[u8],
    inner: Vec<u8>,
    received: Option<&[u8]>,
    found: Option<Vec<u8>>,
)
    requires
        call_ensures(DataChannel::seal_envelope, (from, record), inner),
        call_ensures(DataChannel::open_datagram, (to, received), found),
    ensures
        inner@ == seq![0x05u8] + record@,
        received matches Some(data) && data@ == inner@ ==> (found matches Some(r) && r@ == record@),
        received matches Some(data) && (data@.len() == 0 || data@[0] != 0x05) ==> found is None,
        received is None ==> found is None,
{
    law_record_roundtrip(record@);
}

/// A record holds the envelope that it was opened to; one that is rejected or
/// does not parse holds none.
pub proof fn law_record_holds_what_it_opens_to<B>(
    channel: &DataChannel,
    opened: Opened<B>,
    env: Option<Envelope<B>>,
)
    requires
        call_ensures(DataChannel::accept_record::<B>, (channel, opened), env),
    ensures
        opened matches Opened::Authentic(Ok(e)) ==> env == Some(e),
        env is Some ==> opened == Opened::Authentic(Ok::<_, String>(env->0)),
{
}

} // verus!
