//! Netlink attributes (NLAs) kept as a type field and raw value bytes, and
//! the wire layout of a run of such attributes.
use vstd::prelude::*;

use crate::bytes::{align4, lemma_align4, lemma_u16_roundtrip, u16_bytes, u16_value, zeros, ByteOrder};

verus! {

/// Flag bit of an attribute type field: the value holds nested attributes.
pub const NLA_F_NESTED: u16 = 0x8000;

/// Flag bit of an attribute type field: the value is in network byte order.
pub const NLA_F_NET_BYTEORDER: u16 = 0x4000;

/// The bits of an attribute type field that carry the type itself.
pub const NLA_TYPE_MASK: u16 = 0x3fff;

/// Size of an attribute header: a 16-bit length and a 16-bit type field.
pub const NLA_HEADER_SIZE: usize = 4;

/// Largest value that an attribute header's 16-bit length field can frame.
pub const NLA_MAX_VALUE_LEN: usize = 65531;

/// An attribute that is kept as it came: its whole type field, flags
/// included, and the bytes of its value.
#[derive(Debug, Clone, PartialEq, Eq)]
pub struct RawNla {
    pub kind: u16,
    pub value: Vec<u8>,
}

/// The mathematical value of a [`RawNla`].
pub struct RawNlaView {
    pub kind: u16,
    pub value: Seq<u8>,
}

impl View for RawNla {
    type V = RawNlaView;

    open spec fn view(&self) -> RawNlaView {
        RawNlaView { kind: self.kind, value: self.value@ }
    }
}

/// The views of a run of attributes.
pub open spec fn nlas_view(nlas: Seq<RawNla>) -> Seq<RawNlaView> {
    nlas.map_values(|a: RawNla| a@)
}

/// The type field that the header of an emitted attribute of kind `kind`
/// carries: the type bits, and the nested flag if it is set, otherwise the
/// byte-order flag if that one is set.
pub open spec fn emitted_type(kind: u16) -> u16 {
    if kind & NLA_F_NESTED != 0 {
        (kind & NLA_TYPE_MASK) | NLA_F_NESTED
    } else if kind & NLA_F_NET_BYTEORDER != 0 {
        (kind & NLA_TYPE_MASK) | NLA_F_NET_BYTEORDER
    } else {
        kind & NLA_TYPE_MASK
    }
}

/// An attribute whose kind does not carry both flag bits at once, so that
/// its header reproduces the kind exactly.
pub open spec fn kind_keeps_flags(kind: u16) -> bool {
    !(kind & NLA_F_NESTED != 0 && kind & NLA_F_NET_BYTEORDER != 0)
}

/// An attribute whose value fits the 16-bit length field of a header.
pub open spec fn nla_emittable(a: RawNlaView) -> bool {
    a.value.len() <= NLA_MAX_VALUE_LEN
}

/// The number of bytes that an emitted attribute occupies, padding included.
pub open spec fn nla_size(a: RawNlaView) -> nat {
    align4(a.value.len()) + NLA_HEADER_SIZE as nat
}

/// The number of bytes that a run of emitted attributes occupies.
pub open spec fn nlas_size(s: Seq<RawNlaView>) -> nat
    decreases s.len(),
{
    if s.len() == 0 {
        0
    } else {
        nla_size(s[0]) + nlas_size(s.drop_first())
    }
}

/// The bytes of an emitted attribute in host byte order `order`: length,
/// type field, value and zero padding up to a multiple of four.
pub open spec fn nla_bytes(order: ByteOrder, a: RawNlaView) -> Seq<u8> {
    u16_bytes(order, (a.value.len() + NLA_HEADER_SIZE) as u16) + u16_bytes(
        order,
        emitted_type(a.kind),
    ) + a.value + zeros((align4(a.value.len()) - a.value.len()) as nat)
}

/// The bytes of a run of emitted attributes, one after the other.
pub open spec fn nlas_bytes(order: ByteOrder, s: Seq<RawNlaView>) -> Seq<u8>
    decreases s.len(),
{
    if s.len() == 0 {
        Seq::empty()
    } else {
        nla_bytes(order, s[0]) + nlas_bytes(order, s.drop_first())
    }
}

/// The attributes that a run of bytes splits into, in host byte order
/// `order`, or `None` where a header is cut short or frames a length that
/// is below the header size or beyond the bytes that are left. Each
/// attribute starts where the previous one's length, rounded up to a
/// multiple of four, ends; splitting stops once that reaches the end.
pub open spec fn nla_frames(order: ByteOrder, b: Seq<u8>) -> Option<Seq<RawNlaView>>
    decreases b.len(),
{
    if b.len() == 0 {
        Some(Seq::empty())
    } else if b.len() < NLA_HEADER_SIZE {
        None
    } else {
        let length = u16_value(order, b.subrange(0, 2)) as nat;
        if b.len() < length || length < NLA_HEADER_SIZE {
            None
        } else {
            let a = RawNlaView {
                kind: u16_value(order, b.subrange(2, 4)),
                value: b.subrange(NLA_HEADER_SIZE as int, length as int),
            };
            let advance = align4(length);
            if advance >= b.len() {
                Some(seq![a])
            } else {
                match nla_frames(order, b.skip(advance as int)) {
                    Some(rest) => Some(seq![a] + rest),
                    None => None,
                }
            }
        }
    }
}

/// The header of an emitted attribute gives its kind back unless both
/// flag bits were set.
pub proof fn lemma_emitted_type(kind: u16)
    requires
        kind_keeps_flags(kind),
    ensures
        emitted_type(kind) == kind,
{
    assert(!((kind & 0x8000) != 0 && (kind & 0x4000) != 0) ==> (if kind & 0x8000 != 0 {
        (kind & 0x3fff) | 0x8000
    } else if kind & 0x4000 != 0 {
        (kind & 0x3fff) | 0x4000
    } else {
        kind & 0x3fff
    }) == kind) by (bit_vector);
}

/// The emitted bytes of a run of attributes are as long as its size says.
pub proof fn lemma_nlas_bytes_len(order: ByteOrder, s: Seq<RawNlaView>)
    ensures
        nlas_bytes(order, s).len() == nlas_size(s),
    decreases s.len(),
{
    if s.len() > 0 {
        let a = s[0];
        lemma_u16_roundtrip(order, (a.value.len() + NLA_HEADER_SIZE) as u16);
        lemma_u16_roundtrip(order, emitted_type(a.kind));
        lemma_align4(a.value.len());
        lemma_nlas_bytes_len(order, s.drop_first());
    }
}

/// Appending an attribute to a run adds its size to the run's size.
pub proof fn lemma_nlas_size_push(s: Seq<RawNlaView>, a: RawNlaView)
    ensures
        nlas_size(s.push(a)) == nlas_size(s) + nla_size(a),
    decreases s.len(),
{
    assert(s.push(a).len() > 0);
    if s.len() > 0 {
        assert(s.push(a)[0] == s[0]);
        assert(s.push(a).drop_first() =~= s.drop_first().push(a));
        lemma_nlas_size_push(s.drop_first(), a);
        assert(nlas_size(s.push(a)) == nla_size(s[0]) + nlas_size(s.drop_first().push(a)));
        assert(nlas_size(s) == nla_size(s[0]) + nlas_size(s.drop_first()));
    } else {
        assert(s.push(a)[0] == a);
        assert(s.push(a).drop_first() =~= Seq::<RawNlaView>::empty());
        assert(nlas_size(Seq::<RawNlaView>::empty()) == 0);
        assert(nlas_size(s.push(a)) == nla_size(a) + nlas_size(s.push(a).drop_first()));
    }
}

/// A prefix of a run is no larger than the run.
pub proof fn lemma_nlas_size_prefix(s: Seq<RawNlaView>, i: int)
    requires
        0 <= i <= s.len(),
    ensures
        nlas_size(s.take(i)) <= nlas_size(s),
    decreases s.len() - i,
{
    if i < s.len() {
        assert(s.take(i + 1) =~= s.take(i).push(s[i]));
        lemma_nlas_size_push(s.take(i), s[i]);
        lemma_nlas_size_prefix(s, i + 1);
    } else {
        assert(s.take(i) =~= s);
    }
}

/// The header of an emitted attribute frames exactly that attribute and
/// the emitted bytes of whatever follows it start where its padding ends.
proof fn lemma_nla_frame_head(order: ByteOrder, a: RawNlaView, tail: Seq<u8>)
    requires
        nla_emittable(a),
        kind_keeps_flags(a.kind),
    ensures
        ({
            let b = nla_bytes(order, a) + tail;
            let length = (a.value.len() + NLA_HEADER_SIZE) as nat;
            &&& b.len() == nla_size(a) + tail.len()
            &&& u16_value(order, b.subrange(0, 2)) as nat == length
            &&& u16_value(order, b.subrange(2, 4)) == a.kind
            &&& b.subrange(NLA_HEADER_SIZE as int, length as int) == a.value
            &&& align4(length) == nla_size(a)
            &&& b.skip(nla_size(a) as int) == tail
        }),
{
    let len_field = (a.value.len() + NLA_HEADER_SIZE) as u16;
    let head = nla_bytes(order, a);
    let b = head + tail;
    lemma_u16_roundtrip(order, len_field);
    lemma_u16_roundtrip(order, emitted_type(a.kind));
    lemma_emitted_type(a.kind);
    lemma_align4(a.value.len());
    let pad = (align4(a.value.len()) - a.value.len()) as nat;
    assert(head.len() == 4 + a.value.len() + pad);
    assert(b.subrange(0, 2) =~= u16_bytes(order, len_field));
    assert(b.subrange(2, 4) =~= u16_bytes(order, emitted_type(a.kind)));
    assert(b.subrange(4, a.value.len() + 4 as int) =~= a.value);
    assert(b.skip(head.len() as int) =~= tail);
}

/// Splitting the emitted bytes of a run of attributes gives the run back,
/// in either byte order, when every value fits a header and no kind
/// carries both flag bits.
pub proof fn lemma_nlas_frames_roundtrip(order: ByteOrder, s: Seq<RawNlaView>)
    requires
        forall|i: int| 0 <= i < s.len() ==> nla_emittable(#[trigger] s[i]),
        forall|i: int| 0 <= i < s.len() ==> kind_keeps_flags(#[trigger] s[i].kind),
    ensures
        nla_frames(order, nlas_bytes(order, s)) == Some(s),
    decreases s.len(),
{
    if s.len() == 0 {
        assert(nlas_bytes(order, s) =~= Seq::<u8>::empty());
    } else {
        let a = s[0];
        let rest = s.drop_first();
        assert(nla_emittable(s[0]) && kind_keeps_flags(s[0].kind));
        let tail = nlas_bytes(order, rest);
        let b = nlas_bytes(order, s);
        assert(b == nla_bytes(order, a) + tail);
        lemma_nla_frame_head(order, a, tail);
        lemma_nlas_bytes_len(order, rest);
        let framed = RawNlaView { kind: a.kind, value: a.value };
        if rest.len() == 0 {
            assert(s =~= seq![framed]);
        } else {
            assert(nla_size(rest[0]) > 0);
            assert forall|i: int| 0 <= i < rest.len() implies nla_emittable(#[trigger] rest[i])
                && kind_keeps_flags(rest[i].kind) by {
                assert(rest[i] == s[i + 1]);
            }
            lemma_nlas_frames_roundtrip(order, rest);
            assert(s =~= seq![framed] + rest);
        }
    }
}

/// The number of bytes that emitting `nlas` one after the other takes.
pub fn nlas_buffer_len(nlas: &[RawNla]) -> (n: usize)
    requires
        nlas_size(nlas_view(nlas@)) <= usize::MAX,
    ensures
        n == nlas_size(nlas_view(nlas@)),
{
    let ghost all = nlas_view(nlas@);
    let mut total: usize = 0;
    let mut i: usize = 0;
    while i < nlas.len()
        invariant
            all == nlas_view(nlas@),
            nlas_size(all) <= usize::MAX,
            0 <= i <= nlas@.len(),
            total == nlas_size(all.take(i as int)),
        decreases nlas@.len() - i,
    {
        let len = nlas[i].value.len();
        proof {
            assert(all[i as int] == nlas@[i as int]@);
            assert(all.take(i + 1) =~= all.take(i as int).push(all[i as int]));
            lemma_nlas_size_push(all.take(i as int), all[i as int]);
            lemma_nlas_size_prefix(all, i + 1);
        }
        let padded = if len % 4 == 0 {
            len
        } else {
            len + (4 - len % 4)
        };
        total = total + padded + NLA_HEADER_SIZE;
        i = i + 1;
    }
    proof {
        assert(all.take(i as int) =~= all);
    }
    total
}

/// A copy of `bytes` in a vector of its own.
pub fn bytes_to_vec(bytes: &[u8]) -> (v: Vec<u8>)
    ensures
        v@ == bytes@,
{
    let mut v: Vec<u8> = Vec::new();
    let mut i: usize = 0;
    while i < bytes.len()
        invariant
            0 <= i <= bytes@.len(),
            v@ == bytes@.take(i as int),
        decreases bytes@.len() - i,
    {
        v.push(bytes[i]);
        i = i + 1;
        proof {
            assert(v@ =~= bytes@.take(i as int));
        }
    }
    proof {
        assert(bytes@.take(i as int) =~= bytes@);
    }
    v
}

/// Copies `value` into the start of `buffer`, leaving the rest as it was.
pub fn write_bytes(buffer: &mut [u8], value: &[u8])
    requires
        value@.len() <= old(buffer)@.len(),
    ensures
        final(buffer)@ == value@ + old(buffer)@.skip(value@.len() as int),
{
    let ghost start = buffer@;
    let mut i: usize = 0;
    while i < value.len()
        invariant
            0 <= i <= value@.len(),
            value@.len() <= start.len(),
            buffer@.len() == start.len(),
            buffer@ == value@.take(i as int) + start.skip(i as int),
        decreases value@.len() - i,
    {
        buffer[i] = value[i];
        i = i + 1;
        proof {
            assert(buffer@ =~= value@.take(i as int) + start.skip(i as int));
        }
    }
    proof {
        assert(value@.take(i as int) =~= value@);
    }
}

} // verus!
