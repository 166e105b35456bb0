//! Attributes of the `payload` expression, which loads or writes packet
//! payload data.
use vstd::prelude::*;

use netlink_packet_core::{emit_u32, emit_u32_be, parse_u32, parse_u32_be};

use crate::bytes::{host_order, lemma_u32_bytes_of_value, lemma_u32_roundtrip, u32_bytes, u32_value, ByteOrder};
use crate::error::{outcome_is, ExprError, ExprErrorView};
use crate::nla::{bytes_to_vec, write_bytes, RawNla, RawNlaView, NLA_TYPE_MASK};
use crate::register::{lemma_register_number_roundtrip, lemma_register_roundtrip, Register};

verus! {

/// Attribute type that carries nothing.
pub const NFTA_PAYLOAD_UNSPEC: u16 = 0;

/// Attribute type of the register that receives the payload.
pub const NFTA_PAYLOAD_DREG: u16 = 1;

/// Attribute type of the payload base.
pub const NFTA_PAYLOAD_BASE: u16 = 2;

/// Attribute type of the payload offset.
pub const NFTA_PAYLOAD_OFFSET: u16 = 3;

/// Attribute type of the payload length.
pub const NFTA_PAYLOAD_LEN: u16 = 4;

/// Attribute type of the register that is written to the payload.
pub const NFTA_PAYLOAD_SREG: u16 = 5;

/// Attribute type of the checksum type.
pub const NFTA_PAYLOAD_CSUM_TYPE: u16 = 6;

/// Attribute type of the checksum offset.
pub const NFTA_PAYLOAD_CSUM_OFFSET: u16 = 7;

/// Attribute type of the checksum flags.
pub const NFTA_PAYLOAD_CSUM_FLAGS: u16 = 8;

/// An attribute of the `payload` expression.
#[derive(Debug, Clone, PartialEq, Eq)]
#[non_exhaustive]
pub enum Payload {
    Unspecified,
    DestinationRegister(Register),
    /// Payload base.
    Base(u32),
    /// Payload offset relative to base.
    Offset(u32),
    /// Payload length.
    Len(u32),
    SourceRegister(Register),
    CsumType(u32),
    /// Checksum offset relative to base.
    CsumOffset(u32),
    CsumFlags(u32),
    Other(RawNla),
}

/// The mathematical value of a [`Payload`].
pub enum PayloadView {
    Unspecified,
    DestinationRegister(Register),
    Base(u32),
    Offset(u32),
    Len(u32),
    SourceRegister(Register),
    CsumType(u32),
    CsumOffset(u32),
    CsumFlags(u32),
    Other(RawNlaView),
}

impl View for Payload {
    type V = PayloadView;

    open spec fn view(&self) -> PayloadView {
        match self {
            Payload::Unspecified => PayloadView::Unspecified,
            Payload::DestinationRegister(v) => PayloadView::DestinationRegister(*v),
            Payload::Base(v) => PayloadView::Base(*v),
            Payload::Offset(v) => PayloadView::Offset(*v),
            Payload::Len(v) => PayloadView::Len(*v),
            Payload::SourceRegister(v) => PayloadView::SourceRegister(*v),
            Payload::CsumType(v) => PayloadView::CsumType(*v),
            Payload::CsumOffset(v) => PayloadView::CsumOffset(*v),
            Payload::CsumFlags(v) => PayloadView::CsumFlags(*v),
            Payload::Other(a) => PayloadView::Other(a@),
        }
    }
}

impl PayloadView {
    /// The attribute's type field.
    pub open spec fn kind(self) -> u16 {
        match self {
            PayloadView::Unspecified => NFTA_PAYLOAD_UNSPEC,
            PayloadView::DestinationRegister(_) => NFTA_PAYLOAD_DREG,
            PayloadView::Base(_) => NFTA_PAYLOAD_BASE,
            PayloadView::Offset(_) => NFTA_PAYLOAD_OFFSET,
            PayloadView::Len(_) => NFTA_PAYLOAD_LEN,
            PayloadView::SourceRegister(_) => NFTA_PAYLOAD_SREG,
            PayloadView::CsumType(_) => NFTA_PAYLOAD_CSUM_TYPE,
            PayloadView::CsumOffset(_) => NFTA_PAYLOAD_CSUM_OFFSET,
            PayloadView::CsumFlags(_) => NFTA_PAYLOAD_CSUM_FLAGS,
            PayloadView::Other(a) => a.kind,
        }
    }

    /// The length of the attribute's value.
    pub open spec fn value_len(self) -> nat {
        match self {
            PayloadView::Unspecified => 0,
            PayloadView::Other(a) => a.value.len(),
            _ => 4,
        }
    }

    /// The bytes of the attribute's value on a host of byte order `order`:
    /// register numbers big-endian, the other numbers in host order, or the
    /// raw value.
    pub open spec fn value_bytes(self, order: ByteOrder) -> Seq<u8> {
        match self {
            PayloadView::Unspecified => Seq::empty(),
            PayloadView::DestinationRegister(r) => u32_bytes(ByteOrder::Big, r.spec_to_u32()),
            PayloadView::Base(v) => u32_bytes(order, v),
            PayloadView::Offset(v) => u32_bytes(order, v),
            PayloadView::Len(v) => u32_bytes(order, v),
            PayloadView::SourceRegister(r) => u32_bytes(ByteOrder::Big, r.spec_to_u32()),
            PayloadView::CsumType(v) => u32_bytes(order, v),
            PayloadView::CsumOffset(v) => u32_bytes(order, v),
            PayloadView::CsumFlags(v) => u32_bytes(order, v),
            PayloadView::Other(a) => a.value,
        }
    }

    /// The number that a host-order variant carries.
    pub open spec fn value_number(self) -> u32 {
        match self {
            PayloadView::Base(v) | PayloadView::Offset(v) | PayloadView::Len(v)
            | PayloadView::CsumType(v) | PayloadView::CsumOffset(v) | PayloadView::CsumFlags(v) => v,
            _ => 0,
        }
    }

    /// A buffer of `len` bytes can take the value: a raw value needs a
    /// buffer of exactly its length, the others at least their length.
    pub open spec fn fits_buffer(self, len: nat) -> bool {
        match self {
            PayloadView::Other(a) => len == a.value.len(),
            _ => self.value_len() <= len,
        }
    }

    /// The attribute is one that decoding can give: registers in canonical
    /// form, and a raw attribute only for a type without a variant.
    pub open spec fn wf(self) -> bool {
        match self {
            PayloadView::DestinationRegister(r) => r.wf(),
            PayloadView::SourceRegister(r) => r.wf(),
            PayloadView::Other(a) => (a.kind & NLA_TYPE_MASK) > NFTA_PAYLOAD_CSUM_FLAGS,
            _ => true,
        }
    }

    /// Decoding of an attribute with type field `nla_type` and value
    /// `payload` on a host of byte order `order`.
    pub open spec fn parse(order: ByteOrder, nla_type: u16, payload: Seq<u8>) -> Result<
        PayloadView,
        ExprErrorView,
    > {
        let t = nla_type & NLA_TYPE_MASK;
        if t == NFTA_PAYLOAD_UNSPEC {
            Ok(PayloadView::Unspecified)
        } else if t > NFTA_PAYLOAD_CSUM_FLAGS {
            Ok(PayloadView::Other(RawNlaView { kind: nla_type, value: payload }))
        } else if payload.len() != 4 {
            Err(ExprErrorView::InvalidNumber { kind: t, received: payload.len() })
        } else if t == NFTA_PAYLOAD_DREG {
            Ok(PayloadView::DestinationRegister(Register::spec_from_u32(u32_value(ByteOrder::Big, payload))))
        } else if t == NFTA_PAYLOAD_BASE {
            Ok(PayloadView::Base(u32_value(order, payload)))
        } else if t == NFTA_PAYLOAD_OFFSET {
            Ok(PayloadView::Offset(u32_value(order, payload)))
        } else if t == NFTA_PAYLOAD_LEN {
            Ok(PayloadView::Len(u32_value(order, payload)))
        } else if t == NFTA_PAYLOAD_SREG {
            Ok(PayloadView::SourceRegister(Register::spec_from_u32(u32_value(ByteOrder::Big, payload))))
        } else if t == NFTA_PAYLOAD_CSUM_TYPE {
            Ok(PayloadView::CsumType(u32_value(order, payload)))
        } else if t == NFTA_PAYLOAD_CSUM_OFFSET {
            Ok(PayloadView::CsumOffset(u32_value(order, payload)))
        } else {
            Ok(PayloadView::CsumFlags(u32_value(order, payload)))
        }
    }
}

impl Payload {
    /// The length of the attribute's value.
    pub fn value_len(&self) -> (n: usize)
        ensures
            n == self@.value_len(),
            self@ is Unspecified ==> n == 0,
            !(self@ is Unspecified) && !(self@ is Other) ==> n == 4,
            self@ matches PayloadView::Other(a) ==> n == a.value.len(),
    {
        match self {
            Payload::Unspecified => 0,
            Payload::DestinationRegister(_)
            | Payload::Base(_)
            | Payload::Offset(_)
            | Payload::Len(_)
            | Payload::SourceRegister(_)
            | Payload::CsumType(_)
            | Payload::CsumOffset(_)
            | Payload::CsumFlags(_) => 4,
            Payload::Other(attr) => attr.value.len(),
        }
    }

    /// The attribute's type field.
    pub fn kind(&self) -> (k: u16)
        ensures
            k == self@.kind(),
            self@ is Unspecified ==> k == NFTA_PAYLOAD_UNSPEC,
            self@ is DestinationRegister ==> k == NFTA_PAYLOAD_DREG,
            self@ is SourceRegister ==> k == NFTA_PAYLOAD_SREG,
            self@ is Base ==> k == NFTA_PAYLOAD_BASE,
            self@ is Offset ==> k == NFTA_PAYLOAD_OFFSET,
            self@ is Len ==> k == NFTA_PAYLOAD_LEN,
            self@ is CsumType ==> k == NFTA_PAYLOAD_CSUM_TYPE,
            self@ is CsumOffset ==> k == NFTA_PAYLOAD_CSUM_OFFSET,
            self@ is CsumFlags ==> k == NFTA_PAYLOAD_CSUM_FLAGS,
            self@ matches PayloadView::Other(a) ==> k == a.kind,
    {
        match self {
            Payload::Unspecified => NFTA_PAYLOAD_UNSPEC,
            Payload::DestinationRegister(_) => NFTA_PAYLOAD_DREG,
            Payload::Base(_) => NFTA_PAYLOAD_BASE,
            Payload::Offset(_) => NFTA_PAYLOAD_OFFSET,
            Payload::Len(_) => NFTA_PAYLOAD_LEN,
            Payload::SourceRegister(_) => NFTA_PAYLOAD_SREG,
            Payload::CsumType(_) => NFTA_PAYLOAD_CSUM_TYPE,
            Payload::CsumOffset(_) => NFTA_PAYLOAD_CSUM_OFFSET,
            Payload::CsumFlags(_) => NFTA_PAYLOAD_CSUM_FLAGS,
            Payload::Other(attr) => attr.kind,
        }
    }

    /// Writes the attribute's value at the start of `buffer`, in the host's
    /// byte order; the rest of `buffer` is left as it was.
    pub fn emit_value(&self, buffer: &mut [u8])
        requires
            self@.fits_buffer(old(buffer)@.len()),
        ensures
            final(buffer)@ == self@.value_bytes(host_order()) + old(buffer)@.skip(
                self@.value_len() as int,
            ),
            self@ is Unspecified ==> final(buffer)@ == old(buffer)@,
            self@ matches PayloadView::DestinationRegister(r) ==> final(buffer)@ == u32_bytes(
                ByteOrder::Big,
                r.spec_to_u32(),
            ) + old(buffer)@.skip(4),
            self@ matches PayloadView::SourceRegister(r) ==> final(buffer)@ == u32_bytes(
                ByteOrder::Big,
                r.spec_to_u32(),
            ) + old(buffer)@.skip(4),
            self@ matches PayloadView::Base(v) ==> final(buffer)@ == u32_bytes(host_order(), v)
                + old(buffer)@.skip(4),
            self@ matches PayloadView::Offset(v) ==> final(buffer)@ == u32_bytes(host_order(), v)
                + old(buffer)@.skip(4),
            self@ matches PayloadView::Len(v) ==> final(buffer)@ == u32_bytes(host_order(), v)
                + old(buffer)@.skip(4),
            self@ matches PayloadView::CsumType(v) ==> final(buffer)@ == u32_bytes(host_order(), v)
                + old(buffer)@.skip(4),
            self@ matches PayloadView::CsumOffset(v) ==> final(buffer)@ == u32_bytes(host_order(), v)
                + old(buffer)@.skip(4),
            self@ matches PayloadView::CsumFlags(v) ==> final(buffer)@ == u32_bytes(host_order(), v)
                + old(buffer)@.skip(4),
            self@ matches PayloadView::Other(a) ==> final(buffer)@ == a.value,
    {
        match self {
            Payload::Unspecified => {
                assert(buffer@ =~= Seq::<u8>::empty() + buffer@.skip(0));
            },
            Payload::DestinationRegister(reg) | Payload::SourceRegister(reg) => emit_u32_be(
                buffer,
                reg.to_u32(),
            ).unwrap(),
            Payload::Base(value)
            | Payload::Offset(value)
            | Payload::Len(value)
            | Payload::CsumType(value)
            | Payload::CsumOffset(value)
            | Payload::CsumFlags(value) => emit_u32(buffer, *value).unwrap(),
            Payload::Other(attr) => write_bytes(buffer, attr.value.as_slice()),
        }
    }

    /// Decodes the attribute whose type field is `nla_type` and whose value
    /// is `payload`.
    pub fn parse(nla_type: u16, payload: &[u8]) -> (r: Result<Payload, ExprError>)
        ensures
            outcome_is(r, PayloadView::parse(host_order(), nla_type, payload@)),
            nla_type & NLA_TYPE_MASK == NFTA_PAYLOAD_UNSPEC ==> r matches Ok(Payload::Unspecified),
            nla_type & NLA_TYPE_MASK == NFTA_PAYLOAD_DREG && payload@.len() == 4 ==> (r matches Ok(
                Payload::DestinationRegister(reg),
            ) && reg == Register::spec_from_u32(u32_value(ByteOrder::Big, payload@))),
            nla_type & NLA_TYPE_MASK == NFTA_PAYLOAD_SREG && payload@.len() == 4 ==> (r matches Ok(
                Payload::SourceRegister(reg),
            ) && reg == Register::spec_from_u32(u32_value(ByteOrder::Big, payload@))),
            nla_type & NLA_TYPE_MASK == NFTA_PAYLOAD_BASE && payload@.len() == 4 ==> (r matches Ok(
                Payload::Base(n),
            ) && n == u32_value(host_order(), payload@)),
            nla_type & NLA_TYPE_MASK == NFTA_PAYLOAD_OFFSET && payload@.len() == 4 ==> (r matches Ok(
                Payload::Offset(n),
            ) && n == u32_value(host_order(), payload@)),
            nla_type & NLA_TYPE_MASK == NFTA_PAYLOAD_LEN && payload@.len() == 4 ==> (r matches Ok(
                Payload::Len(n),
            ) && n == u32_value(host_order(), payload@)),
            nla_type & NLA_TYPE_MASK == NFTA_PAYLOAD_CSUM_TYPE && payload@.len() == 4 ==> (r matches Ok(
                Payload::CsumType(n),
            ) && n == u32_value(host_order(), payload@)),
            nla_type & NLA_TYPE_MASK == NFTA_PAYLOAD_CSUM_OFFSET && payload@.len() == 4 ==> (r matches Ok(
                Payload::CsumOffset(n),
            ) && n == u32_value(host_order(), payload@)),
            nla_type & NLA_TYPE_MASK == NFTA_PAYLOAD_CSUM_FLAGS && payload@.len() == 4 ==> (r matches Ok(
                Payload::CsumFlags(n),
            ) && n == u32_value(host_order(), payload@)),
            NFTA_PAYLOAD_DREG <= nla_type & NLA_TYPE_MASK <= NFTA_PAYLOAD_CSUM_FLAGS && payload@.len()
                != 4 ==> (r matches Err(ExprError::InvalidNumber { kind, received }) && kind
                == nla_type & NLA_TYPE_MASK && received == payload@.len()),
            nla_type & NLA_TYPE_MASK > NFTA_PAYLOAD_CSUM_FLAGS ==> (r matches Ok(Payload::Other(a))
                && a.kind == nla_type && a.value@ == payload@),
    {
        let t = nla_type & NLA_TYPE_MASK;
        if t == NFTA_PAYLOAD_UNSPEC {
            Ok(Payload::Unspecified)
        } else if t == NFTA_PAYLOAD_DREG {
            match parse_u32_be(payload) {
                Ok(n) => Ok(Payload::DestinationRegister(Register::from_u32(n))),
                Err(_) => Err(ExprError::InvalidNumber { kind: t, received: payload.len() }),
            }
        } else if t == NFTA_PAYLOAD_BASE {
            match parse_u32(payload) {
                Ok(n) => Ok(Payload::Base(n)),
                Err(_) => Err(ExprError::InvalidNumber { kind: t, received: payload.len() }),
            }
        } else if t == NFTA_PAYLOAD_OFFSET {
            match parse_u32(payload) {
                Ok(n) => Ok(Payload::Offset(n)),
                Err(_) => Err(ExprError::InvalidNumber { kind: t, received: payload.len() }),
            }
        } else if t == NFTA_PAYLOAD_LEN {
            match parse_u32(payload) {
                Ok(n) => Ok(Payload::Len(n)),
                Err(_) => Err(ExprError::InvalidNumber { kind: t, received: payload.len() }),
            }
        } else if t == NFTA_PAYLOAD_SREG {
            match parse_u32_be(payload) {
                Ok(n) => Ok(Payload::SourceRegister(Register::from_u32(n))),
                Err(_) => Err(ExprError::InvalidNumber { kind: t, received: payload.len() }),
            }
        } else if t == NFTA_PAYLOAD_CSUM_TYPE {
            match parse_u32(payload) {
                Ok(n) => Ok(Payload::CsumType(n)),
                Err(_) => Err(ExprError::InvalidNumber { kind: t, received: payload.len() }),
            }
        } else if t == NFTA_PAYLOAD_CSUM_OFFSET {
            match parse_u32(payload) {
                Ok(n) => Ok(Payload::CsumOffset(n)),
                Err(_) => Err(ExprError::InvalidNumber { kind: t, received: payload.len() }),
            }
        } else if t == NFTA_PAYLOAD_CSUM_FLAGS {
            match parse_u32(payload) {
                Ok(n) => Ok(Payload::CsumFlags(n)),
                Err(_) => Err(ExprError::InvalidNumber { kind: t, received: payload.len() }),
            }
        } else {
            Ok(Payload::Other(RawNla { kind: nla_type, value: bytes_to_vec(payload) }))
        }
    }
}

/// Decoding the value that an attribute emits, under its own type field,
/// gives the attribute back, for a host of either byte order and so in
/// particular for [`host_order`], the order in which `emit_value` writes and
/// `parse` reads.
pub proof fn lemma_payload_roundtrip(order: ByteOrder, x: PayloadView)
    requires
        x.wf(),
    ensures
        PayloadView::parse(order, x.kind(), x.value_bytes(order)) == Ok::<PayloadView, ExprErrorView>(x),
{
    assert((0u16 & 0x3fff) == 0 && (1u16 & 0x3fff) == 1 && (2u16 & 0x3fff) == 2 && (3u16 & 0x3fff)
        == 3 && (4u16 & 0x3fff) == 4 && (5u16 & 0x3fff) == 5 && (6u16 & 0x3fff) == 6 && (7u16
        & 0x3fff) == 7 && (8u16 & 0x3fff) == 8) by (bit_vector);
    match x {
        PayloadView::DestinationRegister(r) => {
            lemma_u32_roundtrip(ByteOrder::Big, r.spec_to_u32());
            lemma_register_roundtrip(r);
        },
        PayloadView::SourceRegister(r) => {
            lemma_u32_roundtrip(ByteOrder::Big, r.spec_to_u32());
            lemma_register_roundtrip(r);
        },
        PayloadView::Other(a) => {
            let k = a.kind;
            assert((k & 0x3fff) & 0x3fff == k & 0x3fff) by (bit_vector);
        },
        PayloadView::Unspecified => {},
        _ => {
            lemma_u32_roundtrip(order, x.value_number());
        },
    }
}

/// Emitting a decoded attribute (both in the same byte order, such as
/// [`host_order`]) reproduces its type bits and, unless the
/// payload was ignored (unspecified), the very payload it was decoded from.
pub proof fn lemma_payload_reemit(order: ByteOrder, nla_type: u16, payload: Seq<u8>)
    requires
        PayloadView::parse(order, nla_type, payload) is Ok,
    ensures
        ({
            let x = PayloadView::parse(order, nla_type, payload)->Ok_0;
            &&& x.kind() & NLA_TYPE_MASK == nla_type & NLA_TYPE_MASK
            &&& x is Unspecified || x.value_bytes(order) == payload
        }),
{
    let t = nla_type & NLA_TYPE_MASK;
    assert(t & 0x3fff == t) by (bit_vector)
        requires
            t == nla_type & 0x3fff,
    ;
    if payload.len() == 4 {
        lemma_u32_bytes_of_value(order, payload);
        lemma_u32_bytes_of_value(ByteOrder::Big, payload);
        lemma_register_number_roundtrip(u32_value(ByteOrder::Big, payload));
    }
}

/// The emitted value is as long as `value_len` says.
pub proof fn lemma_payload_value_len(order: ByteOrder, x: PayloadView)
    ensures
        x.value_bytes(order).len() == x.value_len(),
{
    match x {
        PayloadView::DestinationRegister(r) => lemma_u32_roundtrip(ByteOrder::Big, r.spec_to_u32()),
        PayloadView::SourceRegister(r) => lemma_u32_roundtrip(ByteOrder::Big, r.spec_to_u32()),
        PayloadView::Unspecified | PayloadView::Other(_) => {},
        _ => lemma_u32_roundtrip(order, x.value_number()),
    }
}

/// The flag bits of the type field do not change how an attribute of a
/// known type is decoded, nor whether decoding fails.
pub proof fn lemma_payload_flags_ignored(order: ByteOrder, t1: u16, t2: u16, payload: Seq<u8>)
    requires
        t1 & NLA_TYPE_MASK == t2 & NLA_TYPE_MASK,
        t1 & NLA_TYPE_MASK <= NFTA_PAYLOAD_CSUM_FLAGS,
    ensures
        PayloadView::parse(order, t1, payload) == PayloadView::parse(order, t2, payload),
{
}

/// How a payload attribute is encoded, in any byte order `order`: types 0
/// to 8 carry no flag bits; the unspecified attribute has an empty value;
/// the registers are written big-endian; the other numbers are written and
/// read in byte order `order`.
pub proof fn lemma_payload_encoding(order: ByteOrder, r: Register, v: u32, payload: Seq<u8>)
    ensures
        PayloadView::Unspecified.kind() == 0,
        PayloadView::Unspecified.value_len() == 0,
        PayloadView::Unspecified.value_bytes(order) == Seq::<u8>::empty(),
        PayloadView::DestinationRegister(r).kind() == 1,
        PayloadView::Base(v).kind() == 2,
        PayloadView::Offset(v).kind() == 3,
        PayloadView::Len(v).kind() == 4,
        PayloadView::SourceRegister(r).kind() == 5,
        PayloadView::CsumType(v).kind() == 6,
        PayloadView::CsumOffset(v).kind() == 7,
        PayloadView::CsumFlags(v).kind() == 8,
        PayloadView::DestinationRegister(r).value_bytes(order) == u32_bytes(ByteOrder::Big, r.spec_to_u32()),
        PayloadView::SourceRegister(r).value_bytes(order) == u32_bytes(ByteOrder::Big, r.spec_to_u32()),
        PayloadView::Base(v).value_bytes(order) == u32_bytes(order, v),
        PayloadView::Offset(v).value_bytes(order) == u32_bytes(order, v),
        PayloadView::Len(v).value_bytes(order) == u32_bytes(order, v),
        PayloadView::CsumType(v).value_bytes(order) == u32_bytes(order, v),
        PayloadView::CsumOffset(v).value_bytes(order) == u32_bytes(order, v),
        PayloadView::CsumFlags(v).value_bytes(order) == u32_bytes(order, v),
        payload.len() == 4 ==> {
            &&& PayloadView::parse(order, 2, payload) == Ok::<PayloadView, ExprErrorView>(PayloadView::Base(u32_value(order, payload)))
            &&& PayloadView::parse(order, 3, payload) == Ok::<PayloadView, ExprErrorView>(PayloadView::Offset(u32_value(order, payload)))
            &&& PayloadView::parse(order, 4, payload) == Ok::<PayloadView, ExprErrorView>(PayloadView::Len(u32_value(order, payload)))
            &&& PayloadView::parse(order, 6, payload) == Ok::<PayloadView, ExprErrorView>(PayloadView::CsumType(u32_value(order, payload)))
            &&& PayloadView::parse(order, 7, payload) == Ok::<PayloadView, ExprErrorView>(PayloadView::CsumOffset(u32_value(order, payload)))
            &&& PayloadView::parse(order, 8, payload) == Ok::<PayloadView, ExprErrorView>(PayloadView::CsumFlags(u32_value(order, payload)))
        },
{
    assert((2u16 & 0x3fff) == 2 && (3u16 & 0x3fff) == 3 && (4u16 & 0x3fff) == 4 && (6u16 & 0x3fff)
        == 6 && (7u16 & 0x3fff) == 7 && (8u16 & 0x3fff) == 8) by (bit_vector);
}

/// Only a raw attribute can carry flag bits in its type field.
pub proof fn lemma_payload_kind_flags(x: PayloadView)
    requires
        !(x is Other),
    ensures
        x.kind() & !NLA_TYPE_MASK == 0,
{
    assert(forall|k: u16| k <= 8 ==> #[trigger] (k & !0x3fffu16) == 0) by (bit_vector);
}

} // verus!
