//! Attributes of the `cmp` expression, which compares a register with data.
use vstd::prelude::*;

use netlink_packet_core::{emit_u32, emit_u32_be, parse_u32, parse_u32_be};

use crate::bytes::{host_order, lemma_u32_bytes_of_value, lemma_u32_roundtrip, u32_bytes, u32_value, ByteOrder};
use crate::error::{outcome_is, ExprError, ExprErrorView};
use crate::netlink::{emit_nlas, nla_split_message, parse_nlas};
use crate::nla::{
    bytes_to_vec, kind_keeps_flags, lemma_nlas_bytes_len, lemma_nlas_frames_roundtrip,
    nla_emittable, nla_frames, nlas_buffer_len, nlas_bytes, nlas_size, nlas_view, write_bytes,
    RawNla, RawNlaView, NLA_F_NESTED, NLA_TYPE_MASK,
};
use crate::register::{lemma_register_number_roundtrip, lemma_register_roundtrip, Register};

verus! {

/// Attribute type that carries nothing.
pub const NFTA_CMP_UNSPEC: u16 = 0;

/// Attribute type of the register that is compared.
pub const NFTA_CMP_SREG: u16 = 1;

/// Attribute type of the comparison operation.
pub const NFTA_CMP_OP: u16 = 2;

/// Attribute type of the data that is compared against.
pub const NFTA_CMP_DATA: u16 = 3;

/// An attribute of the `cmp` expression.
#[derive(Debug, Clone, PartialEq, Eq)]
#[non_exhaustive]
pub enum Cmp {
    Unspecified,
    SourceRegister(Register),
    /// Comparison operation.
    Op(u32),
    /// Data to compare against.
    Data(Vec<RawNla>),
    Other(RawNla),
}

/// The mathematical value of a [`Cmp`].
pub enum CmpView {
    Unspecified,
    SourceRegister(Register),
    Op(u32),
    Data(Seq<RawNlaView>),
    Other(RawNlaView),
}

impl View for Cmp {
    type V = CmpView;

    open spec fn view(&self) -> CmpView {
        match self {
            Cmp::Unspecified => CmpView::Unspecified,
            Cmp::SourceRegister(r) => CmpView::SourceRegister(*r),
            Cmp::Op(v) => CmpView::Op(*v),
            Cmp::Data(attrs) => CmpView::Data(nlas_view(attrs@)),
            Cmp::Other(a) => CmpView::Other(a@),
        }
    }
}

impl CmpView {
    /// The attribute's type field.
    pub open spec fn kind(self) -> u16 {
        match self {
            CmpView::Unspecified => NFTA_CMP_UNSPEC,
            CmpView::SourceRegister(_) => NFTA_CMP_SREG,
            CmpView::Op(_) => NFTA_CMP_OP,
            CmpView::Data(_) => NFTA_CMP_DATA | NLA_F_NESTED,
            CmpView::Other(a) => a.kind,
        }
    }

    /// The length of the attribute's value.
    pub open spec fn value_len(self) -> nat {
        match self {
            CmpView::Unspecified => 0,
            CmpView::SourceRegister(_) | CmpView::Op(_) => 4,
            CmpView::Data(attrs) => nlas_size(attrs),
            CmpView::Other(a) => a.value.len(),
        }
    }

    /// The bytes of the attribute's value on a host of byte order `order`:
    /// the register number big-endian, the operation in host order, the
    /// nested attributes one after the other, or the raw value.
    pub open spec fn value_bytes(self, order: ByteOrder) -> Seq<u8> {
        match self {
            CmpView::Unspecified => Seq::empty(),
            CmpView::SourceRegister(r) => u32_bytes(ByteOrder::Big, r.spec_to_u32()),
            CmpView::Op(v) => u32_bytes(order, v),
            CmpView::Data(attrs) => nlas_bytes(order, attrs),
            CmpView::Other(a) => a.value,
        }
    }

    /// Whether the attribute holds nested attributes.
    pub open spec fn is_nested(self) -> bool {
        self is Data || self.kind() & NLA_F_NESTED != 0
    }

    /// The value's length fits a `usize`.
    pub open spec fn len_fits(self) -> bool {
        self.value_len() <= usize::MAX
    }

    /// The value can be emitted: its length fits a `usize` and every
    /// nested attribute's value fits an attribute header.
    pub open spec fn emittable(self) -> bool {
        &&& self.len_fits()
        &&& self matches CmpView::Data(attrs) ==> forall|i: int|
            0 <= i < attrs.len() ==> nla_emittable(#[trigger] attrs[i])
    }

    /// A buffer of `len` bytes can take the value: a raw value needs a
    /// buffer of exactly its length, the others at least their length.
    pub open spec fn fits_buffer(self, len: nat) -> bool {
        match self {
            CmpView::Other(a) => len == a.value.len(),
            _ => self.value_len() <= len,
        }
    }

    /// The attribute is one that decoding can give: a register in
    /// canonical form, nested attributes that survive emission unchanged,
    /// and a raw attribute only for a type that has no variant of its own.
    pub open spec fn wf(self) -> bool {
        &&& self.emittable()
        &&& match self {
            CmpView::SourceRegister(r) => r.wf(),
            CmpView::Data(attrs) => forall|i: int|
                0 <= i < attrs.len() ==> kind_keeps_flags(#[trigger] attrs[i].kind),
            CmpView::Other(a) => (a.kind & NLA_TYPE_MASK) > NFTA_CMP_DATA,
            _ => true,
        }
    }

    /// Decoding of an attribute with type field `nla_type` and value
    /// `payload` on a host of byte order `order`: the type bits select the
    /// variant, and a type without a variant is kept as a raw attribute
    /// with its whole type field.
    pub open spec fn parse(order: ByteOrder, nla_type: u16, payload: Seq<u8>) -> Result<
        CmpView,
        ExprErrorView,
    > {
        let t = nla_type & NLA_TYPE_MASK;
        if t == NFTA_CMP_UNSPEC {
            Ok(CmpView::Unspecified)
        } else if t == NFTA_CMP_SREG {
            if payload.len() == 4 {
                Ok(CmpView::SourceRegister(Register::spec_from_u32(u32_value(ByteOrder::Big, payload))))
            } else {
                Err(ExprErrorView::InvalidNumber { kind: t, received: payload.len() })
            }
        } else if t == NFTA_CMP_OP {
            if payload.len() == 4 {
                Ok(CmpView::Op(u32_value(order, payload)))
            } else {
                Err(ExprErrorView::InvalidNumber { kind: t, received: payload.len() })
            }
        } else if t == NFTA_CMP_DATA {
            match nla_frames(order, payload) {
                Some(attrs) => Ok(CmpView::Data(attrs)),
                None => Err(ExprErrorView::InvalidNestedData {
                    kind: t,
                    cause: nla_split_message(order, payload),
                }),
            }
        } else {
            Ok(CmpView::Other(RawNlaView { kind: nla_type, value: payload }))
        }
    }
}

impl Cmp {
    /// The length of the attribute's value.
    pub fn value_len(&self) -> (n: usize)
        requires
            self@.len_fits(),
        ensures
            n == self@.value_len(),
            self@ is Unspecified ==> n == 0,
            self@ is SourceRegister ==> n == 4,
            self@ is Op ==> n == 4,
            self@ matches CmpView::Data(attrs) ==> n == nlas_size(attrs),
            self@ matches CmpView::Other(a) ==> n == a.value.len(),
    {
        match self {
            Cmp::Unspecified => 0,
            Cmp::SourceRegister(_) | Cmp::Op(_) => 4,
            Cmp::Data(attrs) => nlas_buffer_len(attrs.as_slice()),
            Cmp::Other(attr) => attr.value.len(),
        }
    }

    /// The attribute's type field.
    pub fn kind(&self) -> (k: u16)
        ensures
            k == self@.kind(),
            self@ is Unspecified ==> k == NFTA_CMP_UNSPEC,
            self@ is SourceRegister ==> k == NFTA_CMP_SREG,
            self@ is Op ==> k == NFTA_CMP_OP,
            self@ is Data ==> k == NFTA_CMP_DATA | NLA_F_NESTED,
            self@ matches CmpView::Other(a) ==> k == a.kind,
    {
        match self {
            Cmp::Unspecified => NFTA_CMP_UNSPEC,
            Cmp::SourceRegister(_) => NFTA_CMP_SREG,
            Cmp::Op(_) => NFTA_CMP_OP,
            Cmp::Data(_) => NFTA_CMP_DATA | NLA_F_NESTED,
            Cmp::Other(attr) => attr.kind,
        }
    }

    /// Writes the attribute's value at the start of `buffer`, in the host's
    /// byte order; the rest of `buffer` is left as it was.
    pub fn emit_value(&self, buffer: &mut [u8])
        requires
            self@.emittable(),
            self@.fits_buffer(old(buffer)@.len()),
        ensures
            final(buffer)@ == self@.value_bytes(host_order()) + old(buffer)@.skip(
                self@.value_len() as int,
            ),
            self@ is Unspecified ==> final(buffer)@ == old(buffer)@,
            self@ matches CmpView::SourceRegister(r) ==> final(buffer)@ == u32_bytes(
                ByteOrder::Big,
                r.spec_to_u32(),
            ) + old(buffer)@.skip(4),
            self@ matches CmpView::Op(v) ==> final(buffer)@ == u32_bytes(host_order(), v) + old(
                buffer,
            )@.skip(4),
            self@ matches CmpView::Data(attrs) ==> final(buffer)@ == nlas_bytes(host_order(), attrs)
                + old(buffer)@.skip(nlas_size(attrs) as int),
            self@ matches CmpView::Other(a) ==> final(buffer)@ == a.value,
    {
        match self {
            Cmp::Unspecified => {
                assert(buffer@ =~= Seq::<u8>::empty() + buffer@.skip(0));
            },
            Cmp::SourceRegister(reg) => emit_u32_be(buffer, reg.to_u32()).unwrap(),
            Cmp::Op(value) => emit_u32(buffer, *value).unwrap(),
            Cmp::Data(attrs) => {
                proof {
                    assert forall|i: int| 0 <= i < attrs@.len() implies nla_emittable(
                        #[trigger] attrs@[i]@,
                    ) by {
                        assert(nlas_view(attrs@)[i] == attrs@[i]@);
                    }
                }
                emit_nlas(attrs.as_slice(), buffer)
            },
            Cmp::Other(attr) => write_bytes(buffer, attr.value.as_slice()),
        }
    }

    /// Whether the attribute holds nested attributes.
    pub fn is_nested(&self) -> (b: bool)
        ensures
            b == self@.is_nested(),
    {
        matches!(self, Cmp::Data(_)) || (self.kind() & NLA_F_NESTED) != 0
    }

    /// Decodes the attribute whose type field is `nla_type` and whose value
    /// is `payload`.
    pub fn parse(nla_type: u16, payload: &[u8]) -> (r: Result<Cmp, ExprError>)
        ensures
            outcome_is(r, CmpView::parse(host_order(), nla_type, payload@)),
            nla_type & NLA_TYPE_MASK == NFTA_CMP_UNSPEC ==> r matches Ok(Cmp::Unspecified),
            nla_type & NLA_TYPE_MASK == NFTA_CMP_SREG && payload@.len() == 4 ==> (r matches Ok(
                Cmp::SourceRegister(reg),
            ) && reg == Register::spec_from_u32(u32_value(ByteOrder::Big, payload@))),
            nla_type & NLA_TYPE_MASK == NFTA_CMP_OP && payload@.len() == 4 ==> (r matches Ok(
                Cmp::Op(n),
            ) && n == u32_value(host_order(), payload@)),
            nla_type & NLA_TYPE_MASK == NFTA_CMP_SREG && payload@.len() != 4 ==> (r matches Err(
                ExprError::InvalidNumber { kind, received },
            ) && kind == NFTA_CMP_SREG && received == payload@.len()),
            nla_type & NLA_TYPE_MASK == NFTA_CMP_OP && payload@.len() != 4 ==> (r matches Err(
                ExprError::InvalidNumber { kind, received },
            ) && kind == NFTA_CMP_OP && received == payload@.len()),
            nla_type & NLA_TYPE_MASK == NFTA_CMP_DATA ==> (match nla_frames(host_order(), payload@) {
                Some(attrs) => r matches Ok(Cmp::Data(v)) && nlas_view(v@) == attrs,
                None => r matches Err(ExprError::InvalidNestedData { kind, cause }) && kind
                    == NFTA_CMP_DATA && cause@ == nla_split_message(host_order(), payload@),
            }),
            nla_type & NLA_TYPE_MASK > NFTA_CMP_DATA ==> (r matches Ok(Cmp::Other(a)) && a.kind
                == nla_type && a.value@ == payload@),
    {
        let t = nla_type & NLA_TYPE_MASK;
        if t == NFTA_CMP_UNSPEC {
            Ok(Cmp::Unspecified)
        } else if t == NFTA_CMP_SREG {
            match parse_u32_be(payload) {
                Ok(n) => Ok(Cmp::SourceRegister(Register::from_u32(n))),
                Err(_) => Err(ExprError::InvalidNumber { kind: t, received: payload.len() }),
            }
        } else if t == NFTA_CMP_OP {
            match parse_u32(payload) {
                Ok(n) => Ok(Cmp::Op(n)),
                Err(_) => Err(ExprError::InvalidNumber { kind: t, received: payload.len() }),
            }
        } else if t == NFTA_CMP_DATA {
            match parse_nlas(payload) {
                Ok(attrs) => Ok(Cmp::Data(attrs)),
                Err(message) => Err(ExprError::InvalidNestedData { kind: t, cause: message }),
            }
        } else {
            Ok(Cmp::Other(RawNla { kind: nla_type, value: bytes_to_vec(payload) }))
        }
    }
}

/// Decoding the value that an attribute emits, under its own type field,
/// gives the attribute back, for a host of either byte order and so in
/// particular for [`host_order`], the order in which `emit_value` writes and
/// `parse` reads.
pub proof fn lemma_cmp_roundtrip(order: ByteOrder, x: CmpView)
    requires
        x.wf(),
    ensures
        CmpView::parse(order, x.kind(), x.value_bytes(order)) == Ok::<CmpView, ExprErrorView>(x),
{
    assert((0x8003u16 & 0x3fff) == 3) by (bit_vector);
    assert((3u16 | 0x8000) == 0x8003) by (bit_vector);
    assert((1u16 & 0x3fff) == 1 && (2u16 & 0x3fff) == 2 && (0u16 & 0x3fff) == 0) by (bit_vector);
    match x {
        CmpView::SourceRegister(r) => {
            lemma_u32_roundtrip(ByteOrder::Big, r.spec_to_u32());
            lemma_register_roundtrip(r);
        },
        CmpView::Op(v) => {
            lemma_u32_roundtrip(order, v);
        },
        CmpView::Data(attrs) => {
            lemma_nlas_frames_roundtrip(order, attrs);
        },
        CmpView::Other(a) => {
            let k = a.kind;
            assert((k & 0x3fff) & 0x3fff == k & 0x3fff) by (bit_vector);
        },
        CmpView::Unspecified => {},
    }
}

/// Emitting a decoded attribute (both in the same byte order, such as
/// [`host_order`]) reproduces its type bits and, unless the
/// payload was ignored (unspecified) or re-framed (nested data), the very
/// payload it was decoded from.
pub proof fn lemma_cmp_reemit(order: ByteOrder, nla_type: u16, payload: Seq<u8>)
    requires
        CmpView::parse(order, nla_type, payload) is Ok,
    ensures
        ({
            let x = CmpView::parse(order, nla_type, payload)->Ok_0;
            &&& x.kind() & NLA_TYPE_MASK == nla_type & NLA_TYPE_MASK
            &&& x is Unspecified || x is Data || x.value_bytes(order) == payload
        }),
{
    let t = nla_type & NLA_TYPE_MASK;
    assert((0x8003u16 & 0x3fff) == 3 && (3u16 | 0x8000) == 0x8003) by (bit_vector);
    assert(t & 0x3fff == t) by (bit_vector)
        requires
            t == nla_type & 0x3fff,
    ;
    if payload.len() == 4 {
        lemma_u32_bytes_of_value(order, payload);
        lemma_u32_bytes_of_value(ByteOrder::Big, payload);
        lemma_register_number_roundtrip(u32_value(ByteOrder::Big, payload));
    }
}

/// The nesting that `is_nested` reports is the nested flag of the type field.
pub proof fn lemma_cmp_nested_flag(x: CmpView)
    ensures
        x.is_nested() == (x.kind() & NLA_F_NESTED != 0),
{
    assert(((3u16 | 0x8000) & 0x8000) != 0) by (bit_vector);
}

/// The emitted value is as long as `value_len` says.
pub proof fn lemma_cmp_value_len(order: ByteOrder, x: CmpView)
    ensures
        x.value_bytes(order).len() == x.value_len(),
{
    match x {
        CmpView::SourceRegister(r) => lemma_u32_roundtrip(ByteOrder::Big, r.spec_to_u32()),
        CmpView::Op(v) => lemma_u32_roundtrip(order, v),
        CmpView::Data(attrs) => lemma_nlas_bytes_len(order, attrs),
        _ => {},
    }
}

/// The flag bits of the type field do not change how an attribute of a
/// known type is decoded, nor whether decoding fails.
pub proof fn lemma_cmp_flags_ignored(order: ByteOrder, t1: u16, t2: u16, payload: Seq<u8>)
    requires
        t1 & NLA_TYPE_MASK == t2 & NLA_TYPE_MASK,
        t1 & NLA_TYPE_MASK <= NFTA_CMP_DATA,
    ensures
        CmpView::parse(order, t1, payload) == CmpView::parse(order, t2, payload),
{
}

/// How a cmp attribute is encoded, in any byte order `order`: the
/// unspecified attribute has type 0 and an empty value; the source register
/// has type 1 and its number big-endian; the operation has type 2 and is
/// written and read in byte order `order`; data has type 3 with the nested
/// flag and its attributes one after the other, in order, and decoding
/// type 3 gives the attributes in the order they are framed.
pub proof fn lemma_cmp_encoding(order: ByteOrder, r: Register, v: u32, attrs: Seq<RawNlaView>, payload: Seq<u8>)
    ensures
        CmpView::Unspecified.kind() == 0,
        CmpView::Unspecified.value_len() == 0,
        CmpView::Unspecified.value_bytes(order) == Seq::<u8>::empty(),
        CmpView::SourceRegister(r).kind() == 1,
        CmpView::SourceRegister(r).value_bytes(order) == u32_bytes(ByteOrder::Big, r.spec_to_u32()),
        CmpView::Op(v).kind() == 2,
        CmpView::Op(v).value_bytes(order) == u32_bytes(order, v),
        payload.len() == 4 ==> CmpView::parse(order, 2, payload) == Ok::<CmpView, ExprErrorView>(
            CmpView::Op(u32_value(order, payload)),
        ),
        CmpView::Data(attrs).kind() == 0x8003,
        CmpView::Data(attrs).value_bytes(order) == nlas_bytes(order, attrs),
        CmpView::Data(attrs).value_len() == nlas_size(attrs),
        CmpView::parse(order, 3, payload) == match nla_frames(order, payload) {
            Some(s) => Ok::<CmpView, ExprErrorView>(CmpView::Data(s)),
            None => Err(ExprErrorView::InvalidNestedData { kind: 3, cause: nla_split_message(order, payload) }),
        },
{
    assert((3u16 | 0x8000) == 0x8003 && (3u16 & 0x3fff) == 3 && (2u16 & 0x3fff) == 2) by (bit_vector);
}

} // verus!
