//! Inner datagram framing: one type byte followed by the body.

use vstd::prelude::*;
use vstd::slice::slice_subrange;

verus! {

/// What a datagram carries.
#[derive(Debug, Clone, Copy, PartialEq, Eq, Structural)]
pub enum DgramType {
    /// First handshake message, client to server.
    Hs1,
    /// Second handshake message, server to client.
    Hs2,
    /// Third handshake message, client to server.
    Hs3,
    /// Cookie challenge, server to client.
    Cookie,
    /// Sealed record, either direction.
    Data,
}

/// The byte that tags a datagram of type `ty` on the wire.
pub open spec fn type_byte(ty: DgramType) -> u8 {
    match ty {
        DgramType::Hs1 => 0x01,
        DgramType::Hs2 => 0x02,
        DgramType::Hs3 => 0x03,
        DgramType::Cookie => 0x04,
        DgramType::Data => 0x05,
    }
}

/// The type that the byte `b` tags, if it tags one.
pub open spec fn byte_type(b: u8) -> Option<DgramType> {
    if b == 0x01 {
        Some(DgramType::Hs1)
    } else if b == 0x02 {
        Some(DgramType::Hs2)
    } else if b == 0x03 {
        Some(DgramType::Hs3)
    } else if b == 0x04 {
        Some(DgramType::Cookie)
    } else if b == 0x05 {
        Some(DgramType::Data)
    } else {
        None
    }
}

/// The inner datagram of type `ty` around `body`.
pub open spec fn inner_bytes(ty: DgramType, body: Seq<u8>) -> Seq<u8> {
    seq![type_byte(ty)] + body
}

/// Type and body of the inner datagram `data`, if it is one.
pub open spec fn inner_parts(data: Seq<u8>) -> Option<(DgramType, Seq<u8>)> {
    if data.len() == 0 {
        None
    } else {
        match byte_type(data[0]) {
            Some(ty) => Some((ty, data.subrange(1, data.len() as int))),
            None => None,
        }
    }
}

impl DgramType {
    /// The datagram type tagged by `b`, or `None` for an unknown tag.
    pub fn from_byte(b: u8) -> (r: Option<Self>)
        ensures
            r == byte_type(b),
    {
        match b {
            0x01 => Some(DgramType::Hs1),
            0x02 => Some(DgramType::Hs2),
            0x03 => Some(DgramType::Hs3),
            0x04 => Some(DgramType::Cookie),
            0x05 => Some(DgramType::Data),
            _ => None,
        }
    }

    /// The byte that tags this type.
    pub fn as_byte(self) -> (b: u8)
        ensures
            b == type_byte(self),
    {
        match self {
            DgramType::Hs1 => 0x01,
            DgramType::Hs2 => 0x02,
            DgramType::Hs3 => 0x03,
            DgramType::Cookie => 0x04,
            DgramType::Data => 0x05,
        }
    }
}

/// Encodes a type-tagged inner datagram.
pub fn encode_inner(ty: DgramType, body: &[u8]) -> (out: Vec<u8>)
    ensures
        out@ == inner_bytes(ty, body@),
{
    let mut out: Vec<u8> = Vec::new();
    out.push(ty.as_byte());
    out.extend_from_slice(body);
    assert(out@ =~= inner_bytes(ty, body@));
    out
}

/// Decodes a type-tagged inner datagram; `None` on an empty input or an
/// unknown type.
pub fn decode_inner(data: &[u8]) -> (r: Option<(DgramType, &[u8])>)
    ensures
        match (r, inner_parts(data@)) {
            (Some((ty, body)), Some((want_ty, want_body))) => ty == want_ty && body@ == want_body,
            (None, None) => true,
            _ => false,
        },
{
    if data.len() == 0 {
        return None;
    }
    match DgramType::from_byte(data[0]) {
        Some(ty) => Some((ty, slice_subrange(data, 1, data.len()))),
        None => None,
    }
}

/// Decoding gives back what was encoded, for every type and body.
pub proof fn law_inner_roundtrip(ty: DgramType, body: Seq<u8>)
    ensures
        inner_parts(inner_bytes(ty, body)) == Some((ty, body)),
{
    let data = inner_bytes(ty, body);
    assert(data.subrange(1, data.len() as int) =~= body);
}

/// Every datagram that decodes is the encoding of its parts: no two
/// different byte strings stand for the same typed body.
pub proof fn law_inner_canonical(data: Seq<u8>)
    ensures
        inner_parts(data) matches Some((ty, body)) ==> inner_bytes(ty, body) == data,
{
    if let Some((ty, body)) = inner_parts(data) {
        assert(inner_bytes(ty, body) =~= data);
    }
}

/// The types have the tags one to five, in this order.
pub proof fn law_tags_are_fixed(ty: DgramType, b: u8)
    requires
        call_ensures(DgramType::as_byte, (ty,), b),
    ensures
        b == 1 <==> ty == DgramType::Hs1,
        b == 2 <==> ty == DgramType::Hs2,
        b == 3 <==> ty == DgramType::Hs3,
        b == 4 <==> ty == DgramType::Cookie,
        b == 5 <==> ty == DgramType::Data,
{
}

/// A byte tags the type whose tag it is; every other byte tags none.
pub proof fn law_only_tags_are_types(b: u8, r: Option<DgramType>)
    requires
        call_ensures(DgramType::from_byte, (b,), r),
    ensures
        b == 1 <==> r == Some(DgramType::Hs1),
        b == 2 <==> r == Some(DgramType::Hs2),
        b == 3 <==> r == Some(DgramType::Hs3),
        b == 4 <==> r == Some(DgramType::Cookie),
        b == 5 <==> r == Some(DgramType::Data),
        b == 0 || b > 5 <==> r is None,
{
}

/// A datagram is the tag of its type with the body behind it, and read back as
/// that type and body; without a known tag it is no datagram.
pub proof fn law_datagram_read_as_written(
    ty: DgramType,
    body: &[u8],
    tag: u8,
    out: Vec<u8>,
    data: &[u8],
    r: Option<(DgramType, &[u8])>,
)
    requires
        call_ensures(encode_inner, (ty, body), out),
        call_ensures(DgramType::as_byte, (ty,), tag),
        call_ensures(decode_inner, (data,), r),
    ensures
        out@ == seq![tag] + body@,
        data@ == seq![tag] + body@ ==> (r matches Some((t, b)) && t == ty && b@ == body@),
        data@.len() == 0 ==> r is None,
        data@.len() > 0 && (data@[0] == 0 || data@[0] > 5) ==> r is None,
{
    if data@ == seq![tag] + body@ {
        law_inner_roundtrip(ty, body@);
    }
}

} // verus!
