//! Attributes of the `meta` expression, which loads or sets packet meta data.
use vstd::prelude::*;

use netlink_packet_core::{emit_u32, emit_u32_be, parse_u32, parse_u32_be};

use crate::bytes::{host_order, lemma_u32_bytes_of_value, lemma_u32_roundtrip, u32_bytes, u32_value, ByteOrder};
use crate::error::{outcome_is, ExprError, ExprErrorView};
use crate::nla::{bytes_to_vec, write_bytes, RawNla, RawNlaView, NLA_TYPE_MASK};
use crate::register::{lemma_register_number_roundtrip, lemma_register_roundtrip, Register};

verus! {

/// Attribute type that carries nothing.
pub const NFTA_META_UNSPEC: u16 = 0;

/// Attribute type of the register that receives the meta data.
pub const NFTA_META_DREG: u16 = 1;

/// Attribute type of the meta data item.
pub const NFTA_META_KEY: u16 = 2;

/// Attribute type of the register that sets the meta data.
pub const NFTA_META_SREG: u16 = 3;

/// An attribute of the `meta` expression.
#[derive(Debug, Clone, PartialEq, Eq)]
#[non_exhaustive]
pub enum Meta {
    Unspecified,
    DestinationRegister(Register),
    /// Meta data item to load.
    Key(u32),
    SourceRegister(Register),
    Other(RawNla),
}

/// The mathematical value of a [`Meta`].
pub enum MetaView {
    Unspecified,
    DestinationRegister(Register),
    Key(u32),
    SourceRegister(Register),
    Other(RawNlaView),
}

impl View for Meta {
    type V = MetaView;

    open spec fn view(&self) -> MetaView {
        match self {
            Meta::Unspecified => MetaView::Unspecified,
            Meta::DestinationRegister(r) => MetaView::DestinationRegister(*r),
            Meta::Key(v) => MetaView::Key(*v),
            Meta::SourceRegister(r) => MetaView::SourceRegister(*r),
            Meta::Other(a) => MetaView::Other(a@),
        }
    }
}

impl MetaView {
    /// The attribute's type field.
    pub open spec fn kind(self) -> u16 {
        match self {
            MetaView::Unspecified => NFTA_META_UNSPEC,
            MetaView::DestinationRegister(_) => NFTA_META_DREG,
            MetaView::Key(_) => NFTA_META_KEY,
            MetaView::SourceRegister(_) => NFTA_META_SREG,
            MetaView::Other(a) => a.kind,
        }
    }

    /// The length of the attribute's value.
    pub open spec fn value_len(self) -> nat {
        match self {
            MetaView::Unspecified => 0,
            MetaView::Other(a) => a.value.len(),
            _ => 4,
        }
    }

    /// The bytes of the attribute's value on a host of byte order `order`:
    /// register numbers big-endian, the key in host order, or the raw value.
    pub open spec fn value_bytes(self, order: ByteOrder) -> Seq<u8> {
        match self {
            MetaView::Unspecified => Seq::empty(),
            MetaView::DestinationRegister(r) => u32_bytes(ByteOrder::Big, r.spec_to_u32()),
            MetaView::Key(v) => u32_bytes(order, v),
            MetaView::SourceRegister(r) => u32_bytes(ByteOrder::Big, r.spec_to_u32()),
            MetaView::Other(a) => a.value,
        }
    }

    /// A buffer of `len` bytes can take the value: a raw value needs a
    /// buffer of exactly its length, the others at least their length.
    pub open spec fn fits_buffer(self, len: nat) -> bool {
        match self {
            MetaView::Other(a) => len == a.value.len(),
            _ => self.value_len() <= len,
        }
    }

    /// The attribute is one that decoding can give: registers in canonical
    /// form, and a raw attribute only for a type without a variant.
    pub open spec fn wf(self) -> bool {
        match self {
            MetaView::DestinationRegister(r) => r.wf(),
            MetaView::SourceRegister(r) => r.wf(),
            MetaView::Other(a) => (a.kind & NLA_TYPE_MASK) > NFTA_META_SREG,
            _ => true,
        }
    }

    /// Decoding of an attribute with type field `nla_type` and value
    /// `payload` on a host of byte order `order`.
    pub open spec fn parse(order: ByteOrder, nla_type: u16, payload: Seq<u8>) -> Result<
        MetaView,
        ExprErrorView,
    > {
        let t = nla_type & NLA_TYPE_MASK;
        if t == NFTA_META_UNSPEC {
            Ok(MetaView::Unspecified)
        } else if t == NFTA_META_DREG || t == NFTA_META_KEY || t == NFTA_META_SREG {
            if payload.len() != 4 {
                Err(ExprErrorView::InvalidNumber { kind: t, received: payload.len() })
            } else if t == NFTA_META_DREG {
                Ok(MetaView::DestinationRegister(Register::spec_from_u32(u32_value(ByteOrder::Big, payload))))
            } else if t == NFTA_META_KEY {
                Ok(MetaView::Key(u32_value(order, payload)))
            } else {
                Ok(MetaView::SourceRegister(Register::spec_from_u32(u32_value(ByteOrder::Big, payload))))
            }
        } else {
            Ok(MetaView::Other(RawNlaView { kind: nla_type, value: payload }))
        }
    }
}

impl Meta {
    /// The length of the attribute's value.
    pub fn value_len(&self) -> (n: usize)
        ensures
            n == self@.value_len(),
            self@ is Unspecified ==> n == 0,
            self@ is DestinationRegister || self@ is Key || self@ is SourceRegister ==> n == 4,
            self@ matches MetaView::Other(a) ==> n == a.value.len(),
    {
        match self {
            Meta::Unspecified => 0,
            Meta::DestinationRegister(_) | Meta::Key(_) | Meta::SourceRegister(_) => 4,
            Meta::Other(attr) => attr.value.len(),
        }
    }

    /// The attribute's type field.
    pub fn kind(&self) -> (k: u16)
        ensures
            k == self@.kind(),
            self@ is Unspecified ==> k == NFTA_META_UNSPEC,
            self@ is DestinationRegister ==> k == NFTA_META_DREG,
            self@ is Key ==> k == NFTA_META_KEY,
            self@ is SourceRegister ==> k == NFTA_META_SREG,
            self@ matches MetaView::Other(a) ==> k == a.kind,
    {
        match self {
            Meta::Unspecified => NFTA_META_UNSPEC,
            Meta::DestinationRegister(_) => NFTA_META_DREG,
            Meta::Key(_) => NFTA_META_KEY,
            Meta::SourceRegister(_) => NFTA_META_SREG,
            Meta::Other(attr) => attr.kind,
        }
    }

    /// Writes the attribute's value at the start of `buffer`, in the host's
    /// byte order; the rest of `buffer` is left as it was.
    pub fn emit_value(&self, buffer: &mut [u8])
        requires
            self@.fits_buffer(old(buffer)@.len()),
        ensures
            final(buffer)@ == self@.value_bytes(host_order()) + old(buffer)@.skip(
                self@.value_len() as int,
            ),
            self@ is Unspecified ==> final(buffer)@ == old(buffer)@,
            self@ matches MetaView::DestinationRegister(r) ==> final(buffer)@ == u32_bytes(
                ByteOrder::Big,
                r.spec_to_u32(),
            ) + old(buffer)@.skip(4),
            self@ matches MetaView::SourceRegister(r) ==> final(buffer)@ == u32_bytes(
                ByteOrder::Big,
                r.spec_to_u32(),
            ) + old(buffer)@.skip(4),
            self@ matches MetaView::Key(v) ==> final(buffer)@ == u32_bytes(host_order(), v) + old(
                buffer,
            )@.skip(4),
            self@ matches MetaView::Other(a) ==> final(buffer)@ == a.value,
    {
        match self {
            Meta::Unspecified => {
                assert(buffer@ =~= Seq::<u8>::empty() + buffer@.skip(0));
            },
            Meta::DestinationRegister(reg) | Meta::SourceRegister(reg) => emit_u32_be(
                buffer,
                reg.to_u32(),
            ).unwrap(),
            Meta::Key(value) => emit_u32(buffer, *value).unwrap(),
            Meta::Other(attr) => write_bytes(buffer, attr.value.as_slice()),
        }
    }

    /// Decodes the attribute whose type field is `nla_type` and whose value
    /// is `payload`.
    pub fn parse(nla_type: u16, payload: &[u8]) -> (r: Result<Meta, ExprError>)
        ensures
            outcome_is(r, MetaView::parse(host_order(), nla_type, payload@)),
            nla_type & NLA_TYPE_MASK == NFTA_META_UNSPEC ==> r matches Ok(Meta::Unspecified),
            nla_type & NLA_TYPE_MASK == NFTA_META_DREG && payload@.len() == 4 ==> (r matches Ok(
                Meta::DestinationRegister(reg),
            ) && reg == Register::spec_from_u32(u32_value(ByteOrder::Big, payload@))),
            nla_type & NLA_TYPE_MASK == NFTA_META_KEY && payload@.len() == 4 ==> (r matches Ok(
                Meta::Key(v),
            ) && v == u32_value(host_order(), payload@)),
            nla_type & NLA_TYPE_MASK == NFTA_META_SREG && payload@.len() == 4 ==> (r matches Ok(
                Meta::SourceRegister(reg),
            ) && reg == Register::spec_from_u32(u32_value(ByteOrder::Big, payload@))),
            NFTA_META_DREG <= nla_type & NLA_TYPE_MASK <= NFTA_META_SREG && payload@.len() != 4
                ==> (r matches Err(ExprError::InvalidNumber { kind, received }) && kind == nla_type
                & NLA_TYPE_MASK && received == payload@.len()),
            nla_type & NLA_TYPE_MASK > NFTA_META_SREG ==> (r matches Ok(Meta::Other(a)) && a.kind
                == nla_type && a.value@ == payload@),
    {
        let t = nla_type & NLA_TYPE_MASK;
        if t == NFTA_META_UNSPEC {
            Ok(Meta::Unspecified)
        } else if t == NFTA_META_DREG {
            match parse_u32_be(payload) {
                Ok(n) => Ok(Meta::DestinationRegister(Register::from_u32(n))),
                Err(_) => Err(ExprError::InvalidNumber { kind: t, received: payload.len() }),
            }
        } else if t == NFTA_META_KEY {
            match parse_u32(payload) {
                Ok(n) => Ok(Meta::Key(n)),
                Err(_) => Err(ExprError::InvalidNumber { kind: t, received: payload.len() }),
            }
        } else if t == NFTA_META_SREG {
            match parse_u32_be(payload) {
                Ok(n) => Ok(Meta::SourceRegister(Register::from_u32(n))),
                Err(_) => Err(ExprError::InvalidNumber { kind: t, received: payload.len() }),
            }
        } else {
            Ok(Meta::Other(RawNla { kind: nla_type, value: bytes_to_vec(payload) }))
        }
    }
}

/// Decoding the value that an attribute emits, under its own type field,
/// gives the attribute back, for a host of either byte order and so in
/// particular for [`host_order`], the order in which `emit_value` writes and
/// `parse` reads.
pub proof fn lemma_meta_roundtrip(order: ByteOrder, x: MetaView)
    requires
        x.wf(),
    ensures
        MetaView::parse(order, x.kind(), x.value_bytes(order)) == Ok::<MetaView, ExprErrorView>(x),
{
    assert((0u16 & 0x3fff) == 0 && (1u16 & 0x3fff) == 1 && (2u16 & 0x3fff) == 2 && (3u16 & 0x3fff)
        == 3) by (bit_vector);
    match x {
        MetaView::DestinationRegister(r) => {
            lemma_u32_roundtrip(ByteOrder::Big, r.spec_to_u32());
            lemma_register_roundtrip(r);
        },
        MetaView::SourceRegister(r) => {
            lemma_u32_roundtrip(ByteOrder::Big, r.spec_to_u32());
            lemma_register_roundtrip(r);
        },
        MetaView::Key(v) => {
            lemma_u32_roundtrip(order, v);
        },
        MetaView::Other(a) => {
            let k = a.kind;
            assert((k & 0x3fff) & 0x3fff == k & 0x3fff) by (bit_vector);
        },
        MetaView::Unspecified => {},
    }
}

/// Emitting a decoded attribute (both in the same byte order, such as
/// [`host_order`]) reproduces its type bits and, unless the
/// payload was ignored (unspecified), the very payload it was decoded from.
pub proof fn lemma_meta_reemit(order: ByteOrder, nla_type: u16, payload: Seq<u8>)
    requires
        MetaView::parse(order, nla_type, payload) is Ok,
    ensures
        ({
            let x = MetaView::parse(order, nla_type, payload)->Ok_0;
            &&& x.kind() & NLA_TYPE_MASK == nla_type & NLA_TYPE_MASK
            &&& x is Unspecified || x.value_bytes(order) == payload
        }),
{
    let t = nla_type & NLA_TYPE_MASK;
    assert(t & 0x3fff == t) by (bit_vector)
        requires
            t == nla_type & 0x3fff,
    ;
    if payload.len() == 4 {
        lemma_u32_bytes_of_value(order, payload);
        lemma_u32_bytes_of_value(ByteOrder::Big, payload);
        lemma_register_number_roundtrip(u32_value(ByteOrder::Big, payload));
    }
}

/// The emitted value is as long as `value_len` says.
pub proof fn lemma_meta_value_len(order: ByteOrder, x: MetaView)
    ensures
        x.value_bytes(order).len() == x.value_len(),
{
    match x {
        MetaView::DestinationRegister(r) => lemma_u32_roundtrip(ByteOrder::Big, r.spec_to_u32()),
        MetaView::SourceRegister(r) => lemma_u32_roundtrip(ByteOrder::Big, r.spec_to_u32()),
        MetaView::Key(v) => lemma_u32_roundtrip(order, v),
        _ => {},
    }
}

/// The flag bits of the type field do not change how an attribute of a
/// known type is decoded, nor whether decoding fails.
pub proof fn lemma_meta_flags_ignored(order: ByteOrder, t1: u16, t2: u16, payload: Seq<u8>)
    requires
        t1 & NLA_TYPE_MASK == t2 & NLA_TYPE_MASK,
        t1 & NLA_TYPE_MASK <= NFTA_META_SREG,
    ensures
        MetaView::parse(order, t1, payload) == MetaView::parse(order, t2, payload),
{
}

/// How a meta attribute is encoded, in any byte order `order`: types 0 to 3
/// carry no flag bits; the unspecified attribute has an empty value; the
/// registers are written big-endian; the key is written and read in byte
/// order `order`.
pub proof fn lemma_meta_encoding(order: ByteOrder, r: Register, v: u32, payload: Seq<u8>)
    ensures
        MetaView::Unspecified.kind() == 0,
        MetaView::Unspecified.value_len() == 0,
        MetaView::Unspecified.value_bytes(order) == Seq::<u8>::empty(),
        MetaView::DestinationRegister(r).kind() == 1,
        MetaView::Key(v).kind() == 2,
        MetaView::SourceRegister(r).kind() == 3,
        MetaView::DestinationRegister(r).value_bytes(order) == u32_bytes(ByteOrder::Big, r.spec_to_u32()),
        MetaView::SourceRegister(r).value_bytes(order) == u32_bytes(ByteOrder::Big, r.spec_to_u32()),
        MetaView::Key(v).value_bytes(order) == u32_bytes(order, v),
        payload.len() == 4 ==> MetaView::parse(order, 2, payload) == Ok::<MetaView, ExprErrorView>(
            MetaView::Key(u32_value(order, payload)),
        ),
{
    assert((2u16 & 0x3fff) == 2) by (bit_vector);
}

/// Only a raw attribute can carry flag bits in its type field.
pub proof fn lemma_meta_kind_flags(x: MetaView)
    requires
        !(x is Other),
    ensures
        x.kind() & !NLA_TYPE_MASK == 0,
{
    assert((0u16 & !0x3fffu16) == 0 && (1u16 & !0x3fffu16) == 0 && (2u16 & !0x3fffu16) == 0 && (3u16
        & !0x3fffu16) == 0) by (bit_vector);
}

} // verus!
