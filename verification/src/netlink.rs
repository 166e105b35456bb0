//! What this library takes from `netlink_packet_core`: its integer parsers
//! and emitters, the emission of a run of attributes and the splitting of
//! a byte run into attributes. These contracts are believed, not proved.
//!
//! Netlink lays out attribute headers and unsuffixed integers in the host's
//! byte order, which the contracts below name [`host_order`].
use vstd::prelude::*;

use netlink_packet_core::{DecodeError, DefaultNla, Emitable, Nla, NlasIterator, Parseable};

use crate::bytes::{host_order, u32_bytes, u32_value, ByteOrder};
use crate::nla::{nla_emittable, nla_frames, nlas_bytes, nlas_size, nlas_view, RawNla};

verus! {

/// The error type of `netlink_packet_core`'s parsers, carried as it is.
#[verifier::external_type_specification]
#[verifier::external_body]
pub struct ExDecodeError(DecodeError);

/// `netlink_packet_core::parse_u32` reads a four-byte payload in host byte
/// order: it fails exactly when the payload is not four bytes long, and
/// otherwise gives the value that the bytes encode in host byte order.
pub assume_specification[netlink_packet_core::parse_u32](payload: &[u8]) -> (r: Result<
    u32,
    DecodeError,
>)
    ensures
        r is Ok <==> payload@.len() == 4,
        r matches Ok(v) ==> v == u32_value(host_order(), payload@),
;

/// `netlink_packet_core::parse_u32_be` reads a four-byte big-endian payload:
/// it fails exactly when the payload is not four bytes long.
pub assume_specification[netlink_packet_core::parse_u32_be](payload: &[u8]) -> (r: Result<
    u32,
    DecodeError,
>)
    ensures
        r is Ok <==> payload@.len() == 4,
        r matches Ok(v) ==> v == u32_value(ByteOrder::Big, payload@),
;

/// `netlink_packet_core::emit_u32` writes `value` in host byte order over the
/// first four bytes of `buf`; it fails, writing nothing, when `buf` is
/// shorter than that.
pub assume_specification[netlink_packet_core::emit_u32](buf: &mut [u8], value: u32) -> (r: Result<
    (),
    DecodeError,
>)
    ensures
        r is Ok <==> old(buf)@.len() >= 4,
        final(buf)@.len() == old(buf)@.len(),
        r is Err ==> final(buf)@ == old(buf)@,
        r is Ok ==> final(buf)@ == u32_bytes(host_order(), value) + old(buf)@.skip(4),
;

/// `netlink_packet_core::emit_u32_be` writes `value` big-endian over the
/// first four bytes of `buf`; it fails, writing nothing, when `buf` is
/// shorter than that.
pub assume_specification[netlink_packet_core::emit_u32_be](buf: &mut [u8], value: u32) -> (r: Result<
    (),
    DecodeError,
>)
    ensures
        r is Ok <==> old(buf)@.len() >= 4,
        final(buf)@.len() == old(buf)@.len(),
        r is Err ==> final(buf)@ == old(buf)@,
        r is Ok ==> final(buf)@ == u32_bytes(ByteOrder::Big, value) + old(buf)@.skip(4),
;

/// Emits `nlas` one after the other at the start of `buffer`, through
/// `Emitable::emit` on a slice of `DefaultNla`: each attribute as a host
/// order header (length, then type field), its value and zero padding to a
/// multiple of four. The bytes after the run are left as they were.
#[verifier::external_body]
pub fn emit_nlas(nlas: &[RawNla], buffer: &mut [u8])
    requires
        forall|i: int| 0 <= i < nlas@.len() ==> nla_emittable(#[trigger] nlas@[i]@),
        nlas_size(nlas_view(nlas@)) <= old(buffer)@.len(),
    ensures
        final(buffer)@ == nlas_bytes(host_order(), nlas_view(nlas@)) + old(buffer)@.skip(
            nlas_size(nlas_view(nlas@)) as int,
        ),
{
    let owned: Vec<DefaultNla> = nlas.iter().map(|a| DefaultNla::new(a.kind, a.value.clone())).collect();
    owned.as_slice().emit(buffer)
}

/// The text that the framing error of splitting `payload` into attributes
/// in byte order `order` displays: which check failed, with the lengths it
/// compared.
pub uninterp spec fn nla_split_message(order: ByteOrder, payload: Seq<u8>) -> Seq<char>;

/// Splits `payload` into attributes through `NlasIterator` and
/// `DefaultNla::parse`, keeping each attribute's whole type field and value;
/// the first framing error ends the split and is returned as the text that
/// `DecodeError` displays. The outcome is that of [`nla_frames`] in host
/// byte order, and the error text a function of the byte order and the
/// payload alone.
#[verifier::external_body]
pub fn parse_nlas(payload: &[u8]) -> (r: Result<Vec<RawNla>, String>)
    ensures
        match r {
            Ok(v) => nla_frames(host_order(), payload@) == Some(nlas_view(v@)),
            Err(m) => nla_frames(host_order(), payload@) is None && m@ == nla_split_message(
                host_order(),
                payload@,
            ),
        },
{
    NlasIterator::new(payload).map(|nla| {
        let nla = nla?;
        let parsed = DefaultNla::parse(&nla)?;
        Ok(RawNla { kind: parsed.kind(), value: nla.value().to_vec() })
    }).collect::<Result<Vec<RawNla>, DecodeError>>().map_err(|e| format!("{}", e))
}

} // verus!
