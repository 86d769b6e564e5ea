//! Directional record keys, derived from the seed that the handshake carries.

use blake2::digest::Mac;
use blake2::Blake2sMac256;
use vstd::prelude::*;
use vstd::string::*;
use vstd::utf8::encode_utf8;

verus! {

/// The key of one direction of the record layer.
#[derive(Debug, Clone, Copy, PartialEq, Eq)]
pub struct RecordKey {
    bytes: [u8; 32],
}

impl View for RecordKey {
    type V = Seq<u8>;

    closed spec fn view(&self) -> Seq<u8> {
        self.bytes@
    }
}

impl RecordKey {
    /// The key made of `bytes`.
    pub fn from_bytes(bytes: [u8; 32]) -> (key: RecordKey)
        ensures
            key@ == bytes@,
    {
        RecordKey { bytes }
    }

    /// The bytes of the key.
    pub fn as_bytes(&self) -> (bytes: [u8; 32])
        ensures
            bytes@ == self@,
    {
        self.bytes
    }
}

/// The 32-byte keyed BLAKE2s code of `data` under `key`.
pub uninterp spec fn blake2s_mac256(key: Seq<u8>, data: Seq<u8>) -> Seq<u8>;

/// The label of the client-to-server direction.
pub open spec fn c2s_label() -> Seq<u8> {
    encode_utf8("vaiexia-udp-c2s"@)
}

/// The label of the server-to-client direction.
pub open spec fn s2c_label() -> Seq<u8> {
    encode_utf8("vaiexia-udp-s2c"@)
}

/// The record key of the client-to-server direction.
pub open spec fn c2s_key(seed: Seq<u8>) -> Seq<u8> {
    blake2s_mac256(seed, c2s_label())
}

/// The record key of the server-to-client direction.
pub open spec fn s2c_key(seed: Seq<u8>) -> Seq<u8> {
    blake2s_mac256(seed, s2c_label())
}

/// Runs `Blake2sMac256` of the `blake2` crate: a MAC keyed with `key`, fed
/// with `data`, finalised to its 32 bytes. A key of 32 bytes is always
/// accepted. The contract says that the result is a function of key and data
/// alone; which function it is, it does not say.
#[verifier::external_body]
fn mac256(key: &[u8; 32], data: &[u8]) -> (out: [u8; 32])
    ensures
        out@ == blake2s_mac256(key@, data@),
{
    let mut mac = <Blake2sMac256 as Mac>::new_from_slice(key).expect("32 bytes are a valid key");
    Mac::update(&mut mac, data);
    Mac::finalize(mac).into_bytes().into()
}

/// Derives the two record keys, client-to-server first, from `seed`.
pub fn derive_record_keys(seed: &[u8; 32]) -> (keys: (RecordKey, RecordKey))
    ensures
        keys.0@ == c2s_key(seed@),
        keys.1@ == s2c_key(seed@),
{
    let c2s: [u8; 32] = mac256(seed, "vaiexia-udp-c2s".as_bytes());
    let s2c: [u8; 32] = mac256(seed, "vaiexia-udp-s2c".as_bytes());
    (RecordKey::from_bytes(c2s), RecordKey::from_bytes(s2c))
}

/// The two directions authenticate different labels, so no key of one
/// direction is computed as the key of the other.
pub proof fn law_directions_separated()
    ensures
        c2s_label() != s2c_label(),
{
    reveal_strlit("vaiexia-udp-c2s");
    reveal_strlit("vaiexia-udp-s2c");
    is_ascii_spec_bytes("vaiexia-udp-c2s");
    is_ascii_spec_bytes("vaiexia-udp-s2c");
    assert(c2s_label()[12] == 'c' as u8);
    assert(s2c_label()[12] == 's' as u8);
}

/// The two keys of every seed are the codes of the two labels under that seed,
/// client-to-server first.
pub proof fn law_keys_are_codes_of_the_labels(seed: &[u8; 32], r: (RecordKey, RecordKey))
    requires
        call_ensures(derive_record_keys, (seed,), r),
    ensures
        r.0@ == blake2s_mac256(seed@, encode_utf8("vaiexia-udp-c2s"@)),
        r.1@ == blake2s_mac256(seed@, encode_utf8("vaiexia-udp-s2c"@)),
{
}

/// A key gives back the bytes that it was made of.
pub proof fn law_key_bytes_roundtrip(bytes: [u8; 32], key: RecordKey, back: [u8; 32])
    requires
        call_ensures(RecordKey::from_bytes, (bytes,), key),
        call_ensures(RecordKey::as_bytes, (&key,), back),
    ensures
        back@ == bytes@,
{
}

} // verus!
