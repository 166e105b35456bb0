//! Attributes of the `immediate` expression, which loads data into a register.
use vstd::prelude::*;

use netlink_packet_core::{emit_u32_be, parse_u32_be};

use crate::bytes::{host_order, lemma_u32_bytes_of_value, lemma_u32_roundtrip, u32_bytes, u32_value, ByteOrder};
use crate::error::{outcome_is, ExprError, ExprErrorView};
use crate::netlink::{emit_nlas, nla_split_message, parse_nlas};
use crate::nla::{
    bytes_to_vec, kind_keeps_flags, lemma_nlas_bytes_len, lemma_nlas_frames_roundtrip,
    nla_emittable, nla_frames, nlas_buffer_len, nlas_bytes, nlas_size, nlas_view, write_bytes,
    RawNla, RawNlaView, NLA_F_NESTED, NLA_TYPE_MASK,
};
use crate::register::{lemma_register_number_roundtrip, lemma_register_roundtrip, Register};

verus! {

/// Attribute type that carries nothing.
pub const NFTA_IMMEDIATE_UNSPEC: u16 = 0;

/// Attribute type of the register that is loaded.
pub const NFTA_IMMEDIATE_DREG: u16 = 1;

/// Attribute type of the data that is loaded.
pub const NFTA_IMMEDIATE_DATA: u16 = 2;

/// An attribute of the `immediate` expression.
#[derive(Debug, Clone, PartialEq, Eq)]
#[non_exhaustive]
pub enum Immediate {
    Unspecified,
    DestinationRegister(Register),
    /// Data to load.
    Data(Vec<RawNla>),
    Other(RawNla),
}

/// The mathematical value of a [`Immediate`].
pub enum ImmediateView {
    Unspecified,
    DestinationRegister(Register),
    Data(Seq<RawNlaView>),
    Other(RawNlaView),
}

impl View for Immediate {
    type V = ImmediateView;

    open spec fn view(&self) -> ImmediateView {
        match self {
            Immediate::Unspecified => ImmediateView::Unspecified,
            Immediate::DestinationRegister(r) => ImmediateView::DestinationRegister(*r),
            Immediate::Data(attrs) => ImmediateView::Data(nlas_view(attrs@)),
            Immediate::Other(a) => ImmediateView::Other(a@),
        }
    }
}

impl ImmediateView {
    /// The attribute's type field.
    pub open spec fn kind(self) -> u16 {
        match self {
            ImmediateView::Unspecified => NFTA_IMMEDIATE_UNSPEC,
            ImmediateView::DestinationRegister(_) => NFTA_IMMEDIATE_DREG,
            ImmediateView::Data(_) => NFTA_IMMEDIATE_DATA | NLA_F_NESTED,
            ImmediateView::Other(a) => a.kind,
        }
    }

    /// The length of the attribute's value.
    pub open spec fn value_len(self) -> nat {
        match self {
            ImmediateView::Unspecified => 0,
            ImmediateView::DestinationRegister(_) => 4,
            ImmediateView::Data(attrs) => nlas_size(attrs),
            ImmediateView::Other(a) => a.value.len(),
        }
    }

    /// The bytes of the attribute's value on a host of byte order `order`:
    /// the register number big-endian, the nested attributes one after the
    /// other, or the raw value.
    pub open spec fn value_bytes(self, order: ByteOrder) -> Seq<u8> {
        match self {
            ImmediateView::Unspecified => Seq::empty(),
            ImmediateView::DestinationRegister(r) => u32_bytes(ByteOrder::Big, r.spec_to_u32()),
            ImmediateView::Data(attrs) => nlas_bytes(order, attrs),
            ImmediateView::Other(a) => a.value,
        }
    }

    /// Whether the attribute holds nested attributes.
    pub open spec fn is_nested(self) -> bool {
        self is Data || self.kind() & NLA_F_NESTED != 0
    }

    /// The value's length fits a `usize`.
    pub open spec fn len_fits(self) -> bool {
        self.value_len() <= usize::MAX
    }

    /// The value can be emitted: its length fits a `usize` and every
    /// nested attribute's value fits an attribute header.
    pub open spec fn emittable(self) -> bool {
        &&& self.len_fits()
        &&& self matches ImmediateView::Data(attrs) ==> forall|i: int|
            0 <= i < attrs.len() ==> nla_emittable(#[trigger] attrs[i])
    }

    /// A buffer of `len` bytes can take the value: a raw value needs a
    /// buffer of exactly its length, the others at least their length.
    pub open spec fn fits_buffer(self, len: nat) -> bool {
        match self {
            ImmediateView::Other(a) => len == a.value.len(),
            _ => self.value_len() <= len,
        }
    }

    /// The attribute is one that decoding can give: a register in
    /// canonical form, nested attributes that survive emission unchanged,
    /// and a raw attribute only for a type that has no variant of its own.
    pub open spec fn wf(self) -> bool {
        &&& self.emittable()
        &&& match self {
            ImmediateView::DestinationRegister(r) => r.wf(),
            ImmediateView::Data(attrs) => forall|i: int|
                0 <= i < attrs.len() ==> kind_keeps_flags(#[trigger] attrs[i].kind),
            ImmediateView::Other(a) => (a.kind & NLA_TYPE_MASK) > NFTA_IMMEDIATE_DATA,
            _ => true,
        }
    }

    /// Decoding of an attribute with type field `nla_type` and value
    /// `payload` on a host of byte order `order`: the type bits select the
    /// variant, and a type without a variant is kept as a raw attribute
    /// with its whole type field.
    pub open spec fn parse(order: ByteOrder, nla_type: u16, payload: Seq<u8>) -> Result<
        ImmediateView,
        ExprErrorView,
    > {
        let t = nla_type & NLA_TYPE_MASK;
        if t == NFTA_IMMEDIATE_UNSPEC {
            Ok(ImmediateView::Unspecified)
        } else if t == NFTA_IMMEDIATE_DREG {
            if payload.len() == 4 {
                Ok(ImmediateView::DestinationRegister(Register::spec_from_u32(u32_value(ByteOrder::Big, payload))))
            } else {
                Err(ExprErrorView::InvalidNumber { kind: t, received: payload.len() })
            }
        } else if t == NFTA_IMMEDIATE_DATA {
            match nla_frames(order, payload) {
                Some(attrs) => Ok(ImmediateView::Data(attrs)),
                None => Err(ExprErrorView::InvalidNestedData {
                    kind: t,
                    cause: nla_split_message(order, payload),
                }),
            }
        } else {
            Ok(ImmediateView::Other(RawNlaView { kind: nla_type, value: payload }))
        }
    }
}

impl Immediate {
    /// The length of the attribute's value.
    pub fn value_len(&self) -> (n: usize)
        requires
            self@.len_fits(),
        ensures
            n == self@.value_len(),
            self@ is Unspecified ==> n == 0,
            self@ is DestinationRegister ==> n == 4,
            self@ matches ImmediateView::Data(attrs) ==> n == nlas_size(attrs),
            self@ matches ImmediateView::Other(a) ==> n == a.value.len(),
    {
        match self {
            Immediate::Unspecified => 0,
            Immediate::DestinationRegister(_) => 4,
            Immediate::Data(attrs) => nlas_buffer_len(attrs.as_slice()),
            Immediate::Other(attr) => attr.value.len(),
        }
    }

    /// The attribute's type field.
    pub fn kind(&self) -> (k: u16)
        ensures
            k == self@.kind(),
            self@ is Unspecified ==> k == NFTA_IMMEDIATE_UNSPEC,
            self@ is DestinationRegister ==> k == NFTA_IMMEDIATE_DREG,
            self@ is Data ==> k == NFTA_IMMEDIATE_DATA | NLA_F_NESTED,
            self@ matches ImmediateView::Other(a) ==> k == a.kind,
    {
        match self {
            Immediate::Unspecified => NFTA_IMMEDIATE_UNSPEC,
            Immediate::DestinationRegister(_) => NFTA_IMMEDIATE_DREG,
            Immediate::Data(_) => NFTA_IMMEDIATE_DATA | NLA_F_NESTED,
            Immediate::Other(attr) => attr.kind,
        }
    }

    /// Writes the attribute's value at the start of `buffer`, in the host's
    /// byte order; the rest of `buffer` is left as it was.
    pub fn emit_value(&self, buffer: &mut [u8])
        requires
            self@.emittable(),
            self@.fits_buffer(old(buffer)@.len()),
        ensures
            final(buffer)@ == self@.value_bytes(host_order()) + old(buffer)@.skip(
                self@.value_len() as int,
            ),
            self@ is Unspecified ==> final(buffer)@ == old(buffer)@,
            self@ matches ImmediateView::DestinationRegister(r) ==> final(buffer)@ == u32_bytes(
                ByteOrder::Big,
                r.spec_to_u32(),
            ) + old(buffer)@.skip(4),
            self@ matches ImmediateView::Data(attrs) ==> final(buffer)@ == nlas_bytes(host_order(), attrs)
                + old(buffer)@.skip(nlas_size(attrs) as int),
            self@ matches ImmediateView::Other(a) ==> final(buffer)@ == a.value,
    {
        match self {
            Immediate::Unspecified => {
                assert(buffer@ =~= Seq::<u8>::empty() + buffer@.skip(0));
            },
            Immediate::DestinationRegister(reg) => emit_u32_be(buffer, reg.to_u32()).unwrap(),
            Immediate::Data(attrs) => {
                proof {
                    assert forall|i: int| 0 <= i < attrs@.len() implies nla_emittable(
                        #[trigger] attrs@[i]@,
                    ) by {
                        assert(nlas_view(attrs@)[i] == attrs@[i]@);
                    }
                }
                emit_nlas(attrs.as_slice(), buffer)
            },
            Immediate::Other(attr) => write_bytes(buffer, attr.value.as_slice()),
        }
    }

    /// Whether the attribute holds nested attributes.
    pub fn is_nested(&self) -> (b: bool)
        ensures
            b == self@.is_nested(),
    {
        matches!(self, Immediate::Data(_)) || (self.kind() & NLA_F_NESTED) != 0
    }

    /// Decodes the attribute whose type field is `nla_type` and whose value
    /// is `payload`.
    pub fn parse(nla_type: u16, payload: &[u8]) -> (r: Result<Immediate, ExprError>)
        ensures
            outcome_is(r, ImmediateView::parse(host_order(), nla_type, payload@)),
            nla_type & NLA_TYPE_MASK == NFTA_IMMEDIATE_UNSPEC ==> r matches Ok(Immediate::Unspecified),
            nla_type & NLA_TYPE_MASK == NFTA_IMMEDIATE_DREG && payload@.len() == 4 ==> (r matches Ok(
                Immediate::DestinationRegister(reg),
            ) && reg == Register::spec_from_u32(u32_value(ByteOrder::Big, payload@))),
            nla_type & NLA_TYPE_MASK == NFTA_IMMEDIATE_DREG && payload@.len() != 4 ==> (r matches Err(
                ExprError::InvalidNumber { kind, received },
            ) && kind == NFTA_IMMEDIATE_DREG && received == payload@.len()),
            nla_type & NLA_TYPE_MASK == NFTA_IMMEDIATE_DATA ==> (match nla_frames(host_order(), payload@) {
                Some(attrs) => r matches Ok(Immediate::Data(v)) && nlas_view(v@) == attrs,
                None => r matches Err(ExprError::InvalidNestedData { kind, cause }) && kind
                    == NFTA_IMMEDIATE_DATA && cause@ == nla_split_message(host_order(), payload@),
            }),
            nla_type & NLA_TYPE_MASK > NFTA_IMMEDIATE_DATA ==> (r matches Ok(Immediate::Other(a)) && a.kind
                == nla_type && a.value@ == payload@),
    {
        let t = nla_type & NLA_TYPE_MASK;
        if t == NFTA_IMMEDIATE_UNSPEC {
            Ok(Immediate::Unspecified)
        } else if t == NFTA_IMMEDIATE_DREG {
            match parse_u32_be(payload) {
                Ok(n) => Ok(Immediate::DestinationRegister(Register::from_u32(n))),
                Err(_) => Err(ExprError::InvalidNumber { kind: t, received: payload.len() }),
            }
        } else if t == NFTA_IMMEDIATE_DATA {
            match parse_nlas(payload) {
                Ok(attrs) => Ok(Immediate::Data(attrs)),
                Err(message) => Err(ExprError::InvalidNestedData { kind: t, cause: message }),
            }
        } else {
            Ok(Immediate::Other(RawNla { kind: nla_type, value: bytes_to_vec(payload) }))
        }
    }
}

/// Decoding the value that an attribute emits, under its own type field,
/// gives the attribute back, for a host of either byte order and so in
/// particular for [`host_order`], the order in which `emit_value` writes and
/// `parse` reads.
pub proof fn lemma_immediate_roundtrip(order: ByteOrder, x: ImmediateView)
    requires
        x.wf(),
    ensures
        ImmediateView::parse(order, x.kind(), x.value_bytes(order)) == Ok::<ImmediateView, ExprErrorView>(x),
{
    assert((0x8002u16 & 0x3fff) == 2) by (bit_vector);
    assert((2u16 | 0x8000) == 0x8002) by (bit_vector);
    assert((1u16 & 0x3fff) == 1 && (2u16 & 0x3fff) == 2 && (0u16 & 0x3fff) == 0) by (bit_vector);
    match x {
        ImmediateView::DestinationRegister(r) => {
            lemma_u32_roundtrip(ByteOrder::Big, r.spec_to_u32());
            lemma_register_roundtrip(r);
        },
        ImmediateView::Data(attrs) => {
            lemma_nlas_frames_roundtrip(order, attrs);
        },
        ImmediateView::Other(a) => {
            let k = a.kind;
            assert((k & 0x3fff) & 0x3fff == k & 0x3fff) by (bit_vector);
        },
        ImmediateView::Unspecified => {},
    }
}

/// Emitting a decoded attribute (both in the same byte order, such as
/// [`host_order`]) reproduces its type bits and, unless the
/// payload was ignored (unspecified) or re-framed (nested data), the very
/// payload it was decoded from.
pub proof fn lemma_immediate_reemit(order: ByteOrder, nla_type: u16, payload: Seq<u8>)
    requires
        ImmediateView::parse(order, nla_type, payload) is Ok,
    ensures
        ({
            let x = ImmediateView::parse(order, nla_type, payload)->Ok_0;
            &&& x.kind() & NLA_TYPE_MASK == nla_type & NLA_TYPE_MASK
            &&& x is Unspecified || x is Data || x.value_bytes(order) == payload
        }),
{
    let t = nla_type & NLA_TYPE_MASK;
    assert((0x8002u16 & 0x3fff) == 2 && (2u16 | 0x8000) == 0x8002) by (bit_vector);
    assert(t & 0x3fff == t) by (bit_vector)
        requires
            t == nla_type & 0x3fff,
    ;
    if payload.len() == 4 {
        lemma_u32_bytes_of_value(ByteOrder::Big, payload);
        lemma_register_number_roundtrip(u32_value(ByteOrder::Big, payload));
    }
}

/// The nesting that `is_nested` reports is the nested flag of the type field.
pub proof fn lemma_immediate_nested_flag(x: ImmediateView)
    ensures
        x.is_nested() == (x.kind() & NLA_F_NESTED != 0),
{
    assert(((2u16 | 0x8000) & 0x8000) != 0) by (bit_vector);
}

/// The emitted value is as long as `value_len` says.
pub proof fn lemma_immediate_value_len(order: ByteOrder, x: ImmediateView)
    ensures
        x.value_bytes(order).len() == x.value_len(),
{
    match x {
        ImmediateView::DestinationRegister(r) => lemma_u32_roundtrip(ByteOrder::Big, r.spec_to_u32()),
        ImmediateView::Data(attrs) => lemma_nlas_bytes_len(order, attrs),
        _ => {},
    }
}

/// The flag bits of the type field do not change how an attribute of a
/// known type is decoded, nor whether decoding fails.
pub proof fn lemma_immediate_flags_ignored(order: ByteOrder, t1: u16, t2: u16, payload: Seq<u8>)
    requires
        t1 & NLA_TYPE_MASK == t2 & NLA_TYPE_MASK,
        t1 & NLA_TYPE_MASK <= NFTA_IMMEDIATE_DATA,
    ensures
        ImmediateView::parse(order, t1, payload) == ImmediateView::parse(order, t2, payload),
{
}

/// How an immediate attribute is encoded, in any byte order `order`: the
/// unspecified attribute has type 0 and an empty value; the destination
/// register has type 1 and its number big-endian; data has type 2 with the
/// nested flag and its attributes one after the other, in order; and
/// decoding type 2 gives the attributes in the order they are framed.
pub proof fn lemma_immediate_encoding(order: ByteOrder, r: Register, attrs: Seq<RawNlaView>, payload: Seq<u8>)
    ensures
        ImmediateView::Unspecified.kind() == 0,
        ImmediateView::Unspecified.value_len() == 0,
        ImmediateView::Unspecified.value_bytes(order) == Seq::<u8>::empty(),
        ImmediateView::DestinationRegister(r).kind() == 1,
        ImmediateView::DestinationRegister(r).value_len() == 4,
        ImmediateView::DestinationRegister(r).value_bytes(order) == u32_bytes(ByteOrder::Big, r.spec_to_u32()),
        ImmediateView::Data(attrs).kind() == 0x8002,
        ImmediateView::Data(attrs).value_bytes(order) == nlas_bytes(order, attrs),
        ImmediateView::Data(attrs).value_len() == nlas_size(attrs),
        ImmediateView::parse(order, 2, payload) == match nla_frames(order, payload) {
            Some(s) => Ok::<ImmediateView, ExprErrorView>(ImmediateView::Data(s)),
            None => Err(ExprErrorView::InvalidNestedData { kind: 2, cause: nla_split_message(order, payload) }),
        },
{
    assert((2u16 | 0x8000) == 0x8002 && (2u16 & 0x3fff) == 2) by (bit_vector);
}

} // verus!
