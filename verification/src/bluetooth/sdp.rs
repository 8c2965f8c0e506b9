//! SDP (Service Discovery Protocol): data elements, service records, PDUs,
//! and the service registry that answers searches.
use vstd::prelude::*;
use super::{BluetoothError, Uuid, be32, on_base_uuid};
use vstd::slice::slice_to_vec;
use crate::wire::{be16, be64, copy_range, extend_bytes, from_be64, from_le16, from_le32, le32, make_u16, make_u32, make_u64_be, push_u16_be, push_u32_be, push_u64_be};

pub mod attr;

verus! {

/// SDP MTU
pub const SDP_MTU: u16 = 672;

/// Maximum attribute byte count
pub const SDP_MAX_ATTR_BYTE_COUNT: u16 = 512;

/// SDP PDU types
#[derive(Clone, Copy, Debug, PartialEq, Eq, Structural)]
pub enum SdpPduId {
    /// Error response
    ErrorResponse,
    /// Service search request
    ServiceSearchRequest,
    /// Service search response
    ServiceSearchResponse,
    /// Service attribute request
    ServiceAttributeRequest,
    /// Service attribute response
    ServiceAttributeResponse,
    /// Service search attribute request
    ServiceSearchAttributeRequest,
    /// Service search attribute response
    ServiceSearchAttributeResponse,
}

impl SdpPduId {
    /// The numeric code of this value on the wire.
    pub open spec fn code(self) -> u8 {
        match self {
            SdpPduId::ErrorResponse => 0x1,
            SdpPduId::ServiceSearchRequest => 0x2,
            SdpPduId::ServiceSearchResponse => 0x3,
            SdpPduId::ServiceAttributeRequest => 0x4,
            SdpPduId::ServiceAttributeResponse => 0x5,
            SdpPduId::ServiceSearchAttributeRequest => 0x6,
            SdpPduId::ServiceSearchAttributeResponse => 0x7,
        }
    }

    /// The numeric code of this value on the wire.
    pub fn to_u8(&self) -> (r: u8)
        ensures
            r == self.code(),
    {
        match self {
            SdpPduId::ErrorResponse => 0x1,
            SdpPduId::ServiceSearchRequest => 0x2,
            SdpPduId::ServiceSearchResponse => 0x3,
            SdpPduId::ServiceAttributeRequest => 0x4,
            SdpPduId::ServiceAttributeResponse => 0x5,
            SdpPduId::ServiceSearchAttributeRequest => 0x6,
            SdpPduId::ServiceSearchAttributeResponse => 0x7,
        }
    }

    /// The value whose code is `v`, if any.
    pub open spec fn decode(v: u8) -> Option<SdpPduId> {
        if v == 0x1 { Some(SdpPduId::ErrorResponse) } else { if v == 0x2 { Some(SdpPduId::ServiceSearchRequest) } else { if v == 0x3 { Some(SdpPduId::ServiceSearchResponse) } else { if v == 0x4 { Some(SdpPduId::ServiceAttributeRequest) } else { if v == 0x5 { Some(SdpPduId::ServiceAttributeResponse) } else { if v == 0x6 { Some(SdpPduId::ServiceSearchAttributeRequest) } else { if v == 0x7 { Some(SdpPduId::ServiceSearchAttributeResponse) } else { None } } } } } } }
    }

    /// The value whose code is `v`, if any.
    pub fn from_u8(v: u8) -> (r: Option<SdpPduId>)
        ensures
            r == SdpPduId::decode(v),
    {
        match v {
            0x1 => Some(SdpPduId::ErrorResponse),
            0x2 => Some(SdpPduId::ServiceSearchRequest),
            0x3 => Some(SdpPduId::ServiceSearchResponse),
            0x4 => Some(SdpPduId::ServiceAttributeRequest),
            0x5 => Some(SdpPduId::ServiceAttributeResponse),
            0x6 => Some(SdpPduId::ServiceSearchAttributeRequest),
            0x7 => Some(SdpPduId::ServiceSearchAttributeResponse),
            _ => None,
        }
    }

    /// Decoding the code of a value gives the value back.
    pub proof fn lemma_code_roundtrip(self)
        ensures
            SdpPduId::decode(self.code()) == Some(self),
    {
    }

}

/// SDP error codes
#[derive(Clone, Copy, Debug, PartialEq, Eq, Structural)]
pub enum SdpError {
    /// Invalid version
    InvalidVersion,
    /// Invalid service record handle
    InvalidServiceRecordHandle,
    /// Invalid request syntax
    InvalidRequestSyntax,
    /// Invalid PDU size
    InvalidPduSize,
    /// Invalid continuation state
    InvalidContinuationState,
    /// Insufficient resources
    InsufficientResources,
}

impl SdpError {
    /// The numeric code of this value on the wire.
    pub open spec fn code(self) -> u16 {
        match self {
            SdpError::InvalidVersion => 0x1,
            SdpError::InvalidServiceRecordHandle => 0x2,
            SdpError::InvalidRequestSyntax => 0x3,
            SdpError::InvalidPduSize => 0x4,
            SdpError::InvalidContinuationState => 0x5,
            SdpError::InsufficientResources => 0x6,
        }
    }

    /// The numeric code of this value on the wire.
    pub fn to_u16(&self) -> (r: u16)
        ensures
            r == self.code(),
    {
        match self {
            SdpError::InvalidVersion => 0x1,
            SdpError::InvalidServiceRecordHandle => 0x2,
            SdpError::InvalidRequestSyntax => 0x3,
            SdpError::InvalidPduSize => 0x4,
            SdpError::InvalidContinuationState => 0x5,
            SdpError::InsufficientResources => 0x6,
        }
    }

    /// The value whose code is `v`, if any.
    pub open spec fn decode(v: u16) -> Option<SdpError> {
        if v == 0x1 { Some(SdpError::InvalidVersion) } else { if v == 0x2 { Some(SdpError::InvalidServiceRecordHandle) } else { if v == 0x3 { Some(SdpError::InvalidRequestSyntax) } else { if v == 0x4 { Some(SdpError::InvalidPduSize) } else { if v == 0x5 { Some(SdpError::InvalidContinuationState) } else { if v == 0x6 { Some(SdpError::InsufficientResources) } else { None } } } } } }
    }

    /// The value whose code is `v`, if any.
    pub fn from_u16(v: u16) -> (r: Option<SdpError>)
        ensures
            r == SdpError::decode(v),
    {
        match v {
            0x1 => Some(SdpError::InvalidVersion),
            0x2 => Some(SdpError::InvalidServiceRecordHandle),
            0x3 => Some(SdpError::InvalidRequestSyntax),
            0x4 => Some(SdpError::InvalidPduSize),
            0x5 => Some(SdpError::InvalidContinuationState),
            0x6 => Some(SdpError::InsufficientResources),
            _ => None,
        }
    }

    /// Decoding the code of a value gives the value back.
    pub proof fn lemma_code_roundtrip(self)
        ensures
            SdpError::decode(self.code()) == Some(self),
    {
    }

}

/// SDP data element types
#[derive(Clone, Copy, Debug, PartialEq, Eq, Structural)]
pub enum DataElementType {
    /// Nil (null)
    Nil,
    /// Unsigned integer
    UnsignedInt,
    /// Signed integer
    SignedInt,
    /// UUID
    Uuid,
    /// Text string
    TextString,
    /// Boolean
    Boolean,
    /// Sequence
    Sequence,
    /// Alternative
    Alternative,
    /// URL
    Url,
}

impl DataElementType {
    /// The numeric code of this value on the wire.
    pub open spec fn code(self) -> u8 {
        match self {
            DataElementType::Nil => 0x0,
            DataElementType::UnsignedInt => 0x1,
            DataElementType::SignedInt => 0x2,
            DataElementType::Uuid => 0x3,
            DataElementType::TextString => 0x4,
            DataElementType::Boolean => 0x5,
            DataElementType::Sequence => 0x6,
            DataElementType::Alternative => 0x7,
            DataElementType::Url => 0x8,
        }
    }

    /// The numeric code of this value on the wire.
    pub fn to_u8(&self) -> (r: u8)
        ensures
            r == self.code(),
    {
        match self {
            DataElementType::Nil => 0x0,
            DataElementType::UnsignedInt => 0x1,
            DataElementType::SignedInt => 0x2,
            DataElementType::Uuid => 0x3,
            DataElementType::TextString => 0x4,
            DataElementType::Boolean => 0x5,
            DataElementType::Sequence => 0x6,
            DataElementType::Alternative => 0x7,
            DataElementType::Url => 0x8,
        }
    }

    /// The value whose code is `v`, if any.
    pub open spec fn decode(v: u8) -> Option<DataElementType> {
        if v == 0x0 { Some(DataElementType::Nil) } else { if v == 0x1 { Some(DataElementType::UnsignedInt) } else { if v == 0x2 { Some(DataElementType::SignedInt) } else { if v == 0x3 { Some(DataElementType::Uuid) } else { if v == 0x4 { Some(DataElementType::TextString) } else { if v == 0x5 { Some(DataElementType::Boolean) } else { if v == 0x6 { Some(DataElementType::Sequence) } else { if v == 0x7 { Some(DataElementType::Alternative) } else { if v == 0x8 { Some(DataElementType::Url) } else { None } } } } } } } } }
    }

    /// The value whose code is `v`, if any.
    pub fn from_u8(v: u8) -> (r: Option<DataElementType>)
        ensures
            r == DataElementType::decode(v),
    {
        match v {
            0x0 => Some(DataElementType::Nil),
            0x1 => Some(DataElementType::UnsignedInt),
            0x2 => Some(DataElementType::SignedInt),
            0x3 => Some(DataElementType::Uuid),
            0x4 => Some(DataElementType::TextString),
            0x5 => Some(DataElementType::Boolean),
            0x6 => Some(DataElementType::Sequence),
            0x7 => Some(DataElementType::Alternative),
            0x8 => Some(DataElementType::Url),
            _ => None,
        }
    }

    /// Decoding the code of a value gives the value back.
    pub proof fn lemma_code_roundtrip(self)
        ensures
            DataElementType::decode(self.code()) == Some(self),
    {
    }

}

/// SDP data element. Text and URLs are held as their bytes.
#[derive(Debug)]
pub enum DataElement {
    /// Nil value
    Nil,
    /// Unsigned integer (various sizes)
    UInt8(u8),
    UInt16(u16),
    UInt32(u32),
    UInt64(u64),
    UInt128([u8; 16]),
    /// Signed integer (various sizes)
    Int8(i8),
    Int16(i16),
    Int32(i32),
    Int64(i64),
    Int128([u8; 16]),
    /// UUID
    Uuid(Uuid),
    /// Text string
    Text(Vec<u8>),
    /// Boolean
    Bool(bool),
    /// Sequence of elements
    Sequence(Vec<DataElement>),
    /// Alternative of elements
    Alternative(Vec<DataElement>),
    /// URL
    Url(Vec<u8>),
}

/// What a data element holds.
pub enum ElementView {
    Nil,
    UInt8(u8),
    UInt16(u16),
    UInt32(u32),
    UInt64(u64),
    UInt128(Seq<u8>),
    Int8(i8),
    Int16(i16),
    Int32(i32),
    Int64(i64),
    Int128(Seq<u8>),
    Uuid(Seq<u8>),
    Text(Seq<u8>),
    Bool(bool),
    Sequence(Seq<ElementView>),
    Alternative(Seq<ElementView>),
    Url(Seq<u8>),
}

/// What a data element holds, element by element for lists.
pub open spec fn element_view(e: DataElement) -> ElementView
    decreases e,
{
    match e {
        DataElement::Nil => ElementView::Nil,
        DataElement::UInt8(v) => ElementView::UInt8(v),
        DataElement::UInt16(v) => ElementView::UInt16(v),
        DataElement::UInt32(v) => ElementView::UInt32(v),
        DataElement::UInt64(v) => ElementView::UInt64(v),
        DataElement::UInt128(a) => ElementView::UInt128(a@),
        DataElement::Int8(v) => ElementView::Int8(v),
        DataElement::Int16(v) => ElementView::Int16(v),
        DataElement::Int32(v) => ElementView::Int32(v),
        DataElement::Int64(v) => ElementView::Int64(v),
        DataElement::Int128(a) => ElementView::Int128(a@),
        DataElement::Uuid(u) => ElementView::Uuid(u.bytes@),
        DataElement::Text(t) => ElementView::Text(t@),
        DataElement::Bool(b) => ElementView::Bool(b),
        DataElement::Sequence(v) => ElementView::Sequence(Seq::new(v@.len(), |i: int| {
            if 0 <= i < v@.len() {
                proof {
                    assert(decreases_to!(e => v));
                    assert(decreases_to!(v => v@));
                }
                element_view(v@[i])
            } else {
                ElementView::Nil
            }
        })),
        DataElement::Alternative(v) => ElementView::Alternative(Seq::new(v@.len(), |i: int| {
            if 0 <= i < v@.len() {
                proof {
                    assert(decreases_to!(e => v));
                    assert(decreases_to!(v => v@));
                }
                element_view(v@[i])
            } else {
                ElementView::Nil
            }
        })),
        DataElement::Url(t) => ElementView::Url(t@),
    }
}

impl View for DataElement {
    type V = ElementView;

    open spec fn view(&self) -> ElementView {
        element_view(*self)
    }
}

/// What a list of data elements holds.
pub open spec fn elements_view(v: Seq<DataElement>) -> Seq<ElementView> {
    Seq::new(v.len(), |i: int| element_view(v[i]))
}

/// The header of a variable-sized element: `base` and a one-byte length,
/// `base + 1` and a two-byte length, or `base + 2` and a four-byte length.
pub open spec fn sized_header(base: u8, n: nat) -> Seq<u8> {
    if n < 256 {
        seq![base, n as u8]
    } else if n < 65536 {
        seq![(base + 1) as u8] + be16(n as u16)
    } else {
        seq![(base + 2) as u8] + be32(n as u32)
    }
}

/// The encoding of a UUID: two or four bytes when it is a short alias on
/// the Bluetooth Base UUID, all sixteen otherwise.
pub open spec fn uuid_bytes(b: Seq<u8>) -> Seq<u8> {
    if on_base_uuid(b) && b[0] == 0 && b[1] == 0 {
        seq![0x19u8, b[2], b[3]]
    } else if on_base_uuid(b) {
        seq![0x1Au8, b[0], b[1], b[2], b[3]]
    } else {
        seq![0x1Cu8] + b
    }
}

/// The encoding of a data element: a header byte (type in the high five
/// bits, size index in the low three), any length, then the value, most
/// significant byte first.
pub open spec fn encode(e: ElementView) -> Seq<u8>
    decreases e, 0nat,
{
    match e {
        ElementView::Nil => seq![0x00u8],
        ElementView::UInt8(v) => seq![0x08u8, v],
        ElementView::UInt16(v) => seq![0x09u8] + be16(v),
        ElementView::UInt32(v) => seq![0x0Au8] + be32(v),
        ElementView::UInt64(v) => seq![0x0Bu8] + be64(v),
        ElementView::UInt128(a) => seq![0x0Cu8] + a,
        ElementView::Int8(v) => seq![0x10u8, v as u8],
        ElementView::Int16(v) => seq![0x11u8] + be16(v as u16),
        ElementView::Int32(v) => seq![0x12u8] + be32(v as u32),
        ElementView::Int64(v) => seq![0x13u8] + be64(v as u64),
        ElementView::Int128(a) => seq![0x14u8] + a,
        ElementView::Uuid(b) => uuid_bytes(b),
        ElementView::Text(t) => sized_header(0x25u8, t.len()) + t,
        ElementView::Bool(b) => seq![0x28u8, if b { 1u8 } else { 0u8 }],
        ElementView::Sequence(s) => {
            sized_header(0x35u8, encode_all(s).len()) + encode_all(s)
        },
        ElementView::Alternative(s) => {
            sized_header(0x3Du8, encode_all(s).len()) + encode_all(s)
        },
        ElementView::Url(t) => sized_header(0x45u8, t.len()) + t,
    }
}

/// The encoding of each element of a list.
pub open spec fn encoded_parts(s: Seq<ElementView>) -> Seq<Seq<u8>>
    decreases s, 1nat,
{
    Seq::new(s.len(), |i: int| if 0 <= i < s.len() { encode(s[i]) } else { Seq::empty() })
}

/// The encodings of a list of elements, one after another.
pub open spec fn encode_all(s: Seq<ElementView>) -> Seq<u8>
    decreases s, 2nat,
{
    encoded_parts(s).flatten_alt()
}

/// Append the header of a variable-sized element.
fn push_sized_header(out: &mut Vec<u8>, base: u8, n: usize)
    requires
        base <= 253,
    ensures
        final(out)@ == old(out)@ + sized_header(base, n as nat),
{
    if n < 256 {
        out.push(base);
        out.push(n as u8);
    } else if n < 65536 {
        out.push(base + 1);
        push_u16_be(out, n as u16);
    } else {
        out.push(base + 2);
        let m = n as u32;
        push_u32_be(out, m);
        assert(seq![le32(m)[3], le32(m)[2], le32(m)[1], le32(m)[0]] =~= be32(m));
    }
    assert(final(out)@ =~= old(out)@ + sized_header(base, n as nat));
}

/// The encodings of the elements of a list, one after another.
fn encode_list(elements: &Vec<DataElement>) -> (r: Vec<u8>)
    ensures
        r@ == encode_all(elements_view(elements@)),
    decreases elements@, 0nat,
{
    let ghost sv = elements_view(elements@);
    let mut content: Vec<u8> = Vec::new();
    let mut i: usize = 0;
    assert(encoded_parts(sv).subrange(0, 0) =~= Seq::<Seq<u8>>::empty());
    while i < elements.len()
        invariant
            sv == elements_view(elements@),
            i <= elements@.len(),
            content@ == encoded_parts(sv).subrange(0, i as int).flatten_alt(),
        decreases elements@.len() - i,
    {
        proof {
            assert(decreases_to!(elements@ => elements@[i as int]));
        }
        let b = elements[i].to_bytes();
        extend_bytes(&mut content, b.as_slice());
        let ghost next = encoded_parts(sv).subrange(0, i + 1);
        assert(next.drop_last() =~= encoded_parts(sv).subrange(0, i as int));
        assert(next.last() == b@);
        i = i + 1;
    }
    assert(encoded_parts(sv).subrange(0, i as int) =~= encoded_parts(sv));
    content
}

impl DataElement {
    /// Serialize to bytes
    pub fn to_bytes(&self) -> (r: Vec<u8>)
        ensures
            r@ == encode(self@),
        decreases self, 0nat,
    {
        let mut bytes: Vec<u8> = Vec::new();
        match self {
            DataElement::Nil => {
                bytes.push(0x00);
                assert(bytes@ =~= encode(self@));
            },
            DataElement::UInt8(v) => {
                bytes.push(0x08);
                bytes.push(*v);
                assert(bytes@ =~= encode(self@));
            },
            DataElement::UInt16(v) => {
                bytes.push(0x09);
                push_u16_be(&mut bytes, *v);
                assert(bytes@ =~= encode(self@));
            },
            DataElement::UInt32(v) => {
                bytes.push(0x0A);
                push_u32_be(&mut bytes, *v);
                assert(seq![le32(*v)[3], le32(*v)[2], le32(*v)[1], le32(*v)[0]] =~= be32(*v));
                assert(bytes@ =~= encode(self@));
            },
            DataElement::UInt64(v) => {
                bytes.push(0x0B);
                push_u64_be(&mut bytes, *v);
                assert(bytes@ =~= encode(self@));
            },
            DataElement::UInt128(a) => {
                bytes.push(0x0C);
                extend_bytes(&mut bytes, a.as_slice());
                assert(bytes@ =~= encode(self@));
            },
            DataElement::Int8(v) => {
                bytes.push(0x10);
                bytes.push(*v as u8);
                assert(bytes@ =~= encode(self@));
            },
            DataElement::Int16(v) => {
                bytes.push(0x11);
                push_u16_be(&mut bytes, *v as u16);
                assert(bytes@ =~= encode(self@));
            },
            DataElement::Int32(v) => {
                bytes.push(0x12);
                let x = *v as u32;
                push_u32_be(&mut bytes, x);
                assert(seq![le32(x)[3], le32(x)[2], le32(x)[1], le32(x)[0]] =~= be32(x));
                assert(bytes@ =~= encode(self@));
            },
            DataElement::Int64(v) => {
                bytes.push(0x13);
                push_u64_be(&mut bytes, *v as u64);
                assert(bytes@ =~= encode(self@));
            },
            DataElement::Int128(a) => {
                bytes.push(0x14);
                extend_bytes(&mut bytes, a.as_slice());
                assert(bytes@ =~= encode(self@));
            },
            DataElement::Uuid(uuid) => {
                if uuid.is_base_uuid() && uuid.bytes[0] == 0 && uuid.bytes[1] == 0 {
                    bytes.push(0x19);
                    bytes.push(uuid.bytes[2]);
                    bytes.push(uuid.bytes[3]);
                } else if uuid.is_base_uuid() {
                    bytes.push(0x1A);
                    bytes.push(uuid.bytes[0]);
                    bytes.push(uuid.bytes[1]);
                    bytes.push(uuid.bytes[2]);
                    bytes.push(uuid.bytes[3]);
                } else {
                    bytes.push(0x1C);
                    extend_bytes(&mut bytes, uuid.bytes.as_slice());
                }
                assert(bytes@ =~= encode(self@));
            },
            DataElement::Text(s) => {
                push_sized_header(&mut bytes, 0x25, s.len());
                extend_bytes(&mut bytes, s.as_slice());
                assert(bytes@ =~= encode(self@));
            },
            DataElement::Bool(v) => {
                bytes.push(0x28);
                bytes.push(if *v { 1 } else { 0 });
                assert(bytes@ =~= encode(self@));
            },
            DataElement::Sequence(elements) => {
                let content = encode_list(elements);
                push_sized_header(&mut bytes, 0x35, content.len());
                extend_bytes(&mut bytes, content.as_slice());
                let ghost sv = elements_view(elements@);
                assert(sv =~= match self@ { ElementView::Sequence(s) => s, _ => Seq::empty() });
                assert(self@ == ElementView::Sequence(sv));
                assert(encode(ElementView::Sequence(sv)) == sized_header(0x35u8, encode_all(sv).len()) + encode_all(sv));
                assert(bytes@ =~= encode(self@));
            },
            DataElement::Alternative(elements) => {
                let content = encode_list(elements);
                push_sized_header(&mut bytes, 0x3D, content.len());
                extend_bytes(&mut bytes, content.as_slice());
                let ghost sv = elements_view(elements@);
                assert(sv =~= match self@ { ElementView::Alternative(s) => s, _ => Seq::empty() });
                assert(self@ == ElementView::Alternative(sv));
                assert(encode(ElementView::Alternative(sv)) == sized_header(0x3Du8, encode_all(sv).len()) + encode_all(sv));
                assert(bytes@ =~= encode(self@));
            },
            DataElement::Url(s) => {
                push_sized_header(&mut bytes, 0x45, s.len());
                extend_bytes(&mut bytes, s.as_slice());
                assert(bytes@ =~= encode(self@));
            },
        }
        assert(bytes@ =~= encode(self@));
        bytes
    }
}


/// What `String::from_utf8_lossy` makes of some bytes (each invalid UTF-8
/// sequence replaced by U+FFFD), as the UTF-8 bytes of the text.
pub uninterp spec fn utf8_lossy(b: Seq<u8>) -> Seq<u8>;

/// The text a string or URL element holds: its bytes when they are valid
/// UTF-8, else what `String::from_utf8_lossy` makes of them.
pub open spec fn text_of(b: Seq<u8>) -> Seq<u8> {
    if vstd::utf8::valid_utf8(b) { b } else { utf8_lossy(b) }
}

/// Text from bytes through `String::from_utf8_lossy`. The contract names
/// the result and states that valid UTF-8 comes back unchanged, as std
/// documents; what replaces invalid sequences is not stated.
#[verifier::external_body]
fn lossy_text(b: &[u8]) -> (r: Vec<u8>)
    ensures
        r@ == utf8_lossy(b@),
        vstd::utf8::valid_utf8(b@) ==> r@ == b@,
{
    String::from_utf8_lossy(b).into_owned().into_bytes()
}

/// The value size and header size a header announces: fixed by the size
/// index for 0 to 4, else read from the one, two or four bytes after it.
pub open spec fn element_sizes(d: Seq<u8>) -> Option<(nat, nat)> {
    let t = d[0] / 8;
    let si = d[0] % 8;
    if si == 0 && t == 0 {
        Some((0nat, 1nat))
    } else if si == 0 {
        Some((1nat, 1nat))
    } else if si == 1 {
        Some((2nat, 1nat))
    } else if si == 2 {
        Some((4nat, 1nat))
    } else if si == 3 {
        Some((8nat, 1nat))
    } else if si == 4 {
        Some((16nat, 1nat))
    } else if si == 5 {
        if d.len() < 2 { None } else { Some((d[1] as nat, 2nat)) }
    } else if si == 6 {
        if d.len() < 3 { None } else { Some((from_le16(d[2], d[1]) as nat, 3nat)) }
    } else {
        if d.len() < 5 { None } else { Some((from_le32(d[4], d[3], d[2], d[1]) as nat, 5nat)) }
    }
}

/// The bytes of a UUID sent in two, four or sixteen bytes.
pub open spec fn uuid_from_wire(vd: Seq<u8>) -> Seq<u8> {
    if vd.len() == 2 {
        seq![0u8, 0u8, vd[0], vd[1]] + super::base_uuid_tail()
    } else if vd.len() == 4 {
        vd + super::base_uuid_tail()
    } else {
        vd
    }
}

/// The data element at the start of `d` and the number of bytes it takes,
/// if `d` starts with a whole one.
pub open spec fn decode(d: Seq<u8>) -> Option<(ElementView, nat)>
    decreases d.len(), 0int,
{
    if d.len() == 0 {
        None
    } else {
        match element_sizes(d) {
            None => None,
            Some(sizes) => {
                let vs = sizes.0;
                let hs = sizes.1;
                if d.len() < hs + vs {
                    None
                } else {
                    let vd = d.subrange(hs as int, (hs + vs) as int);
                    let t = d[0] / 8;
                    let e = if t == 0 {
                        Some(ElementView::Nil)
                    } else if t == 1 {
                        if vs == 1 {
                            Some(ElementView::UInt8(vd[0]))
                        } else if vs == 2 {
                            Some(ElementView::UInt16(from_le16(vd[1], vd[0])))
                        } else if vs == 4 {
                            Some(ElementView::UInt32(from_le32(vd[3], vd[2], vd[1], vd[0])))
                        } else if vs == 8 {
                            Some(ElementView::UInt64(from_be64(vd)))
                        } else if vs == 16 {
                            Some(ElementView::UInt128(vd))
                        } else {
                            None
                        }
                    } else if t == 2 {
                        if vs == 1 {
                            Some(ElementView::Int8(vd[0] as i8))
                        } else if vs == 2 {
                            Some(ElementView::Int16(from_le16(vd[1], vd[0]) as i16))
                        } else if vs == 4 {
                            Some(ElementView::Int32(from_le32(vd[3], vd[2], vd[1], vd[0]) as i32))
                        } else if vs == 8 {
                            Some(ElementView::Int64(from_be64(vd) as i64))
                        } else if vs == 16 {
                            Some(ElementView::Int128(vd))
                        } else {
                            None
                        }
                    } else if t == 3 {
                        if vs == 2 || vs == 4 || vs == 16 { Some(ElementView::Uuid(uuid_from_wire(vd))) } else { None }
                    } else if t == 4 {
                        Some(ElementView::Text(text_of(vd)))
                    } else if t == 5 {
                        Some(ElementView::Bool(vd.len() > 0 && vd[0] != 0))
                    } else if t == 6 {
                        Some(ElementView::Sequence(decode_items(vd, 0)))
                    } else if t == 7 {
                        Some(ElementView::Alternative(decode_items(vd, 0)))
                    } else if t == 8 {
                        Some(ElementView::Url(text_of(vd)))
                    } else {
                        None
                    };
                    match e {
                        Some(el) => Some((el, hs + vs)),
                        None => None,
                    }
                }
            },
        }
    }
}

/// The elements read one after another from `vd[off..]`, stopping at the
/// end or at the first bytes that are not a whole element.
pub open spec fn decode_items(vd: Seq<u8>, off: int) -> Seq<ElementView>
    decreases vd.len(), vd.len() - off + 1,
{
    if off < 0 || off >= vd.len() {
        Seq::empty()
    } else {
        match decode(vd.subrange(off, vd.len() as int)) {
            Some(r) => if r.1 >= 1 && off + r.1 <= vd.len() {
                seq![r.0] + decode_items(vd, off + r.1)
            } else {
                Seq::empty()
            },
            None => Seq::empty(),
        }
    }
}

/// The number that bytes `b[1..1 + n]` spell, most significant first.
pub open spec fn be_number(b: Seq<u8>, n: int) -> nat
    decreases n,
{
    if n <= 0 { 0 } else { be_number(b, n - 1) * 256 + b[n] as nat }
}

/// Fixed-size numbers are read most significant byte first: an element
/// whose header byte names an unsigned integer of one, two, four or eight
/// bytes holds the number those bytes spell, a signed one holds that number
/// taken in two's complement, and it takes the header byte and its value.
pub proof fn lemma_decode_numbers(b: Seq<u8>)
    ensures
        b.len() >= 2 && b[0] == 0x08 ==> decode(b) == Some((ElementView::UInt8(be_number(b, 1) as u8), 2nat)),
        b.len() >= 3 && b[0] == 0x09 ==> decode(b) == Some((ElementView::UInt16(be_number(b, 2) as u16), 3nat)),
        b.len() >= 5 && b[0] == 0x0A ==> decode(b) == Some((ElementView::UInt32(be_number(b, 4) as u32), 5nat)),
        b.len() >= 9 && b[0] == 0x0B ==> decode(b) == Some((ElementView::UInt64(be_number(b, 8) as u64), 9nat)),
        b.len() >= 2 && b[0] == 0x10 ==> decode(b) == Some((ElementView::Int8(be_number(b, 1) as u8 as i8), 2nat)),
        b.len() >= 3 && b[0] == 0x11 ==> decode(b) == Some((ElementView::Int16(be_number(b, 2) as u16 as i16), 3nat)),
        b.len() >= 5 && b[0] == 0x12 ==> decode(b) == Some((ElementView::Int32(be_number(b, 4) as u32 as i32), 5nat)),
        b.len() >= 9 && b[0] == 0x13 ==> decode(b) == Some((ElementView::Int64(be_number(b, 8) as u64 as i64), 9nat)),
{
    reveal_with_fuel(be_number, 9);
    if b.len() >= 2 {
        let vd = b.subrange(1, b.len() as int);
        assert(b[1] == vd[0]);
    }
}

/// Whether an element holds a single value rather than text, a UUID or a
/// list (the 128-bit numbers being 16 bytes).
pub open spec fn is_scalar(e: ElementView) -> bool {
    match e {
        ElementView::UInt128(a) => a.len() == 16,
        ElementView::Int128(a) => a.len() == 16,
        ElementView::Uuid(_) | ElementView::Text(_) | ElementView::Url(_) | ElementView::Sequence(_)
        | ElementView::Alternative(_) => false,
        _ => true,
    }
}

/// Two's complement casts from signed to unsigned and back give the value.
proof fn lemma_signed_casts() by (bit_vector)
    ensures
        forall|v: i8| #[trigger] (v as u8) as i8 == v,
        forall|v: i16| #[trigger] (v as u16) as i16 == v,
        forall|v: i32| #[trigger] (v as u32) as i32 == v,
        forall|v: i64| #[trigger] (v as u64) as i64 == v,
{
}

proof fn lemma_be_number_16(b: Seq<u8>, v: u16)
    requires
        b.len() >= 3,
        b.subrange(1, 3) == be16(v),
    ensures
        be_number(b, 2) == v as nat,
{
    reveal_with_fuel(be_number, 3);
    assert(b[1] == be16(v)[0] && b[2] == be16(v)[1]);
}

proof fn lemma_be_number_32(b: Seq<u8>, v: u32)
    requires
        b.len() >= 5,
        b.subrange(1, 5) == be32(v),
    ensures
        be_number(b, 4) == v as nat,
{
    reveal_with_fuel(be_number, 5);
    assert(b[1] == be32(v)[0] && b[2] == be32(v)[1] && b[3] == be32(v)[2] && b[4] == be32(v)[3]);
    let x = v as int;
    assert(((x / 16777216 * 256 + (x / 65536) % 256) * 256 + (x / 256) % 256) * 256 + x % 256 == x) by (nonlinear_arith)
        requires 0 <= x < 0x1_0000_0000;
}

proof fn lemma_be_number_64(b: Seq<u8>, v: u64)
    requires
        b.len() >= 9,
        b.subrange(1, 9) == be64(v),
    ensures
        be_number(b, 8) == v as nat,
{
    reveal_with_fuel(be_number, 9);
    let x = v as nat;
    assert forall|k: int| 1 <= k <= 8 implies #[trigger] b[k] == ((x / crate::wire::pow256(8 - k)) % 256) as u8 by {
        assert(b[k] == be64(v)[k - 1]);
    }
    assert(((((((((x / 0x100000000000000) % 256) * 256 + (x / 0x1000000000000) % 256) * 256 + (x / 0x10000000000)
        % 256) * 256 + (x / 0x100000000) % 256) * 256 + (x / 0x1000000) % 256) * 256 + (x / 0x10000) % 256) * 256 + (x
        / 0x100) % 256) * 256 + x % 256 == x) by {
        assert(((((((((v / 0x100000000000000) % 256) * 256 + (v / 0x1000000000000) % 256) * 256 + (v / 0x10000000000)
            % 256) * 256 + (v / 0x100000000) % 256) * 256 + (v / 0x1000000) % 256) * 256 + (v / 0x10000) % 256) * 256 + (v
            / 0x100) % 256) * 256 + v % 256 == v) by (bit_vector);
    }
}

/// A value element written out and read back is itself, and reading takes
/// exactly the bytes written.
pub proof fn lemma_scalar_roundtrip(e: ElementView)
    requires
        is_scalar(e),
    ensures
        decode(encode(e)) == Some((e, encode(e).len())),
{
    let b = encode(e);
    lemma_decode_numbers(b);
    lemma_signed_casts();
    match e {
        ElementView::UInt16(v) => {
            assert(b.subrange(1, 3) =~= be16(v));
            lemma_be_number_16(b, v);
        },
        ElementView::Int16(v) => {
            assert(b.subrange(1, 3) =~= be16(v as u16));
            lemma_be_number_16(b, v as u16);
        },
        ElementView::UInt32(v) => {
            assert(b.subrange(1, 5) =~= be32(v));
            lemma_be_number_32(b, v);
        },
        ElementView::Int32(v) => {
            assert(b.subrange(1, 5) =~= be32(v as u32));
            lemma_be_number_32(b, v as u32);
        },
        ElementView::UInt64(v) => {
            assert(b.subrange(1, 9) =~= be64(v));
            lemma_be_number_64(b, v);
        },
        ElementView::Int64(v) => {
            assert(b.subrange(1, 9) =~= be64(v as u64));
            lemma_be_number_64(b, v as u64);
        },
        ElementView::UInt8(v) => {
            reveal_with_fuel(be_number, 2);
        },
        ElementView::Int8(v) => {
            reveal_with_fuel(be_number, 2);
        },
        ElementView::UInt128(a) => {
            assert(b.subrange(1, 17) =~= a);
        },
        ElementView::Int128(a) => {
            assert(b.subrange(1, 17) =~= a);
        },
        _ => {},
    }
}

/// A length written in a sized header reads back.
proof fn lemma_sized_header(base: u8, n: nat, body: Seq<u8>)
    requires
        base % 8 == 5,
        base <= 0x45,
        n < 0x1_0000_0000,
        body.len() == n,
    ensures
        ({
            let d = sized_header(base, n) + body;
            let hs: nat = if n < 256 { 2 } else if n < 65536 { 3 } else { 5 };
            &&& d[0] / 8 == base / 8
            &&& element_sizes(d) == Some((n, hs))
            &&& d.len() == hs + n
            &&& d.subrange(hs as int, (hs + n) as int) == body
        }),
{
    let d = sized_header(base, n) + body;
    let hs: nat = if n < 256 { 2 } else if n < 65536 { 3 } else { 5 };
    assert(sized_header(base, n).len() == hs);
    assert(d.subrange(hs as int, (hs + n) as int) =~= body);
    if n >= 256 && n < 65536 {
        let x = n as u16;
        assert(d[1] == be16(x)[0] && d[2] == be16(x)[1]);
    } else if n >= 65536 {
        let x = n as u32;
        assert(d[1] == be32(x)[0] && d[2] == be32(x)[1] && d[3] == be32(x)[2] && d[4] == be32(x)[3]);
        let y = x as int;
        assert(y % 256 + 256 * ((y / 256) % 256) + 65536 * ((y / 65536) % 256) + 16777216 * (y / 16777216) == y)
            by (nonlinear_arith) requires 0 <= y < 0x1_0000_0000;
    }
}

/// Text or a URL written out and read back is itself when it is UTF-8,
/// and reading takes exactly the bytes written.
pub proof fn lemma_text_roundtrip(t: Seq<u8>, url: bool)
    requires
        vstd::utf8::valid_utf8(t),
        t.len() < 0x1_0000_0000,
    ensures
        ({
            let e = if url { ElementView::Url(t) } else { ElementView::Text(t) };
            decode(encode(e)) == Some((e, encode(e).len()))
        }),
{
    let base: u8 = if url { 0x45 } else { 0x25 };
    lemma_sized_header(base, t.len(), t);
}

/// A UUID written out (in its short form when it has one) and read back is
/// itself, and reading takes exactly the bytes written.
pub proof fn lemma_uuid_roundtrip(b: Seq<u8>)
    requires
        b.len() == 16,
    ensures
        decode(encode(ElementView::Uuid(b))) == Some((ElementView::Uuid(b), encode(ElementView::Uuid(b)).len())),
{
    let d = encode(ElementView::Uuid(b));
    if on_base_uuid(b) && b[0] == 0 && b[1] == 0 {
        assert(d.subrange(1, 3) =~= seq![b[2], b[3]]);
        assert(seq![0u8, 0u8, b[2], b[3]] + super::base_uuid_tail() =~= b);
    } else if on_base_uuid(b) {
        assert(d.subrange(1, 5) =~= seq![b[0], b[1], b[2], b[3]]);
        assert(seq![b[0], b[1], b[2], b[3]] + super::base_uuid_tail() =~= b);
    } else {
        assert(d.subrange(1, 17) =~= b);
    }
}

/// Whether an element can be written out and read back: 128-bit numbers
/// and UUIDs of sixteen bytes, text and URLs in UTF-8, and every length
/// within the four bytes a header can give it, all the way down a list.
pub open spec fn elem_ok(e: ElementView) -> bool
    decreases e, 1nat,
{
    match e {
        ElementView::UInt128(a) => a.len() == 16,
        ElementView::Int128(a) => a.len() == 16,
        ElementView::Uuid(b) => b.len() == 16,
        ElementView::Text(t) => vstd::utf8::valid_utf8(t) && t.len() < 0x1_0000_0000,
        ElementView::Url(t) => vstd::utf8::valid_utf8(t) && t.len() < 0x1_0000_0000,
        ElementView::Sequence(s) => items_ok(s) && encode_all(s).len() < 0x1_0000_0000,
        ElementView::Alternative(s) => items_ok(s) && encode_all(s).len() < 0x1_0000_0000,
        _ => true,
    }
}

/// Whether every element of a list can be written out and read back.
pub open spec fn items_ok(s: Seq<ElementView>) -> bool
    decreases s, 0nat,
{
    if s.len() == 0 {
        true
    } else {
        elem_ok(s[0]) && items_ok(s.subrange(1, s.len() as int))
    }
}

/// What follows an element does not change how it reads.
proof fn lemma_decode_prefix(x: Seq<u8>, rest: Seq<u8>)
    requires
        decode(x) is Some,
    ensures
        decode(x + rest) == decode(x),
{
    let d = x + rest;
    assert(x.len() > 0);
    assert(d[0] == x[0]);
    if x.len() > 1 {
        assert(d[1] == x[1]);
    }
    if x.len() > 2 {
        assert(d[2] == x[2]);
    }
    if x.len() > 3 {
        assert(d[3] == x[3]);
    }
    if x.len() > 4 {
        assert(d[4] == x[4]);
    }
    assert(element_sizes(d) == element_sizes(x));
    let sizes = element_sizes(x)->Some_0;
    let hs = sizes.1;
    let vs = sizes.0;
    assert(d.subrange(hs as int, (hs + vs) as int) =~= x.subrange(hs as int, (hs + vs) as int));
}

/// Reading the elements of a list after a prefix reads those of the rest.
proof fn lemma_items_shift(p: Seq<u8>, q: Seq<u8>, off: int)
    requires
        0 <= off <= q.len(),
    ensures
        decode_items(p + q, p.len() + off) == decode_items(q, off),
    decreases q.len() - off,
{
    let d = p + q;
    if off < q.len() {
        assert(d.subrange(p.len() + off, d.len() as int) =~= q.subrange(off, q.len() as int));
        match decode(q.subrange(off, q.len() as int)) {
            Some(r) => {
                if r.1 >= 1 && off + r.1 <= q.len() {
                    lemma_items_shift(p, q, off + r.1);
                }
            },
            None => {},
        }
    }
}

/// The encodings of a non-empty list are the first element's, then the
/// rest's.
proof fn lemma_encode_all_cons(s: Seq<ElementView>)
    requires
        s.len() > 0,
    ensures
        encode_all(s) == encode(s[0]) + encode_all(s.subrange(1, s.len() as int)),
{
    let ps = encoded_parts(s);
    let s1 = s.subrange(1, s.len() as int);
    ps.lemma_flatten_and_flatten_alt_are_equivalent();
    encoded_parts(s1).lemma_flatten_and_flatten_alt_are_equivalent();
    assert(ps.drop_first() =~= encoded_parts(s1));
    assert(ps.first() == encode(s[0]));
}

/// A list of elements that can be read back reads back as itself.
proof fn lemma_items_roundtrip(s: Seq<ElementView>)
    requires
        items_ok(s),
    ensures
        decode_items(encode_all(s), 0) == s,
    decreases s, 0nat,
{
    if s.len() == 0 {
        assert(encoded_parts(s) =~= Seq::<Seq<u8>>::empty());
        assert(encode_all(s) =~= Seq::<u8>::empty());
        assert(decode_items(encode_all(s), 0) =~= s);
    } else {
        let s1 = s.subrange(1, s.len() as int);
        let a = encode(s[0]);
        let rest = encode_all(s1);
        lemma_encode_all_cons(s);
        lemma_element_roundtrip(s[0]);
        lemma_decode_prefix(a, rest);
        lemma_items_roundtrip(s1);
        lemma_items_shift(a, rest, 0);
        let d = a + rest;
        assert(d.subrange(0, d.len() as int) =~= d);
        assert(seq![s[0]] + s1 =~= s);
    }
}

/// Every element that can be written out reads back as itself, taking
/// exactly the bytes written, whatever follows it.
pub proof fn lemma_element_roundtrip(e: ElementView)
    requires
        elem_ok(e),
    ensures
        decode(encode(e)) == Some((e, encode(e).len())),
        forall|rest: Seq<u8>| #[trigger] decode(encode(e) + rest) == Some((e, encode(e).len())),
    decreases e, 1nat,
{
    match e {
        ElementView::Uuid(b) => {
            lemma_uuid_roundtrip(b);
        },
        ElementView::Text(t) => {
            lemma_text_roundtrip(t, false);
        },
        ElementView::Url(t) => {
            lemma_text_roundtrip(t, true);
        },
        ElementView::Sequence(s) => {
            lemma_sized_header(0x35, encode_all(s).len(), encode_all(s));
            lemma_items_roundtrip(s);
        },
        ElementView::Alternative(s) => {
            lemma_sized_header(0x3D, encode_all(s).len(), encode_all(s));
            lemma_items_roundtrip(s);
        },
        _ => {
            lemma_scalar_roundtrip(e);
        },
    }
    assert forall|rest: Seq<u8>| #[trigger] decode(encode(e) + rest) == Some((e, encode(e).len())) by {
        lemma_decode_prefix(encode(e), rest);
    }
}

/// Sixteen bytes as an array.
fn array16(vd: &[u8]) -> (r: [u8; 16])
    requires
        vd@.len() == 16,
    ensures
        r@ == vd@,
{
    let r = [vd[0], vd[1], vd[2], vd[3], vd[4], vd[5], vd[6], vd[7], vd[8], vd[9], vd[10], vd[11], vd[12], vd[13], vd[14], vd[15]];
    assert(r@ =~= vd@);
    r
}

/// The bytes of a 32-bit value, most significant first, are the bytes it
/// was read from.
proof fn lemma_be32_of_bytes(b0: u8, b1: u8, b2: u8, b3: u8)
    ensures
        be32(from_le32(b3, b2, b1, b0)) == seq![b0, b1, b2, b3],
{
    let x = from_le32(b3, b2, b1, b0);
    assert(x == b3 + 256 * b2 + 65536 * b1 + 16777216 * b0);
    assert(x / 16777216 == b0) by (nonlinear_arith)
        requires x == b3 + 256 * b2 + 65536 * b1 + 16777216 * b0, b0 < 256, b1 < 256, b2 < 256, b3 < 256;
    assert((x / 65536) % 256 == b1) by (nonlinear_arith)
        requires x == b3 + 256 * b2 + 65536 * b1 + 16777216 * b0, b0 < 256, b1 < 256, b2 < 256, b3 < 256;
    assert((x / 256) % 256 == b2) by (nonlinear_arith)
        requires x == b3 + 256 * b2 + 65536 * b1 + 16777216 * b0, b0 < 256, b1 < 256, b2 < 256, b3 < 256;
    assert(x % 256 == b3) by (nonlinear_arith)
        requires x == b3 + 256 * b2 + 65536 * b1 + 16777216 * b0, b0 < 256, b1 < 256, b2 < 256, b3 < 256;
    assert(be32(x) =~= seq![b0, b1, b2, b3]);
}

impl DataElement {
    /// Parse data element from bytes: the element and the bytes it took
    #[verifier::spinoff_prover]
    #[verifier::rlimit(40)]
    pub fn from_bytes(data: &[u8]) -> (r: Option<(Self, usize)>)
        ensures
            match r {
                Some(p) => decode(data@) == Some((p.0@, p.1 as nat)) && 1 <= p.1 <= data@.len(),
                None => decode(data@) is None,
            },
        decreases data@.len(),
    {
        if data.len() == 0 {
            return None;
        }
        let header = data[0];
        let element_type = header / 8;
        let size_index = header % 8;
        let (value_size, header_size): (usize, usize) = if size_index == 0 && element_type == 0 {
            (0, 1)
        } else if size_index == 0 {
            (1, 1)
        } else if size_index == 1 {
            (2, 1)
        } else if size_index == 2 {
            (4, 1)
        } else if size_index == 3 {
            (8, 1)
        } else if size_index == 4 {
            (16, 1)
        } else if size_index == 5 {
            if data.len() < 2 {
                return None;
            }
            (data[1] as usize, 2)
        } else if size_index == 6 {
            if data.len() < 3 {
                return None;
            }
            (make_u16(data[2], data[1]) as usize, 3)
        } else {
            if data.len() < 5 {
                return None;
            }
            let n = make_u32(data[4], data[3], data[2], data[1]);
            if n as u64 > usize::MAX as u64 {
                return None;
            }
            (n as usize, 5)
        };
        assert(element_sizes(data@) == Some((value_size as nat, header_size as nat)));
        if data.len() - header_size < value_size {
            return None;
        }
        let value_data = copy_range(data, header_size, header_size + value_size);
        let vd = value_data.as_slice();
        let total_size = header_size + value_size;
        let element = if element_type == 0 {
            DataElement::Nil
        } else if element_type == 1 {
            if value_size == 1 {
                DataElement::UInt8(vd[0])
            } else if value_size == 2 {
                DataElement::UInt16(make_u16(vd[1], vd[0]))
            } else if value_size == 4 {
                DataElement::UInt32(make_u32(vd[3], vd[2], vd[1], vd[0]))
            } else if value_size == 8 {
                DataElement::UInt64(make_u64_be(vd))
            } else if value_size == 16 {
                DataElement::UInt128(array16(vd))
            } else {
                return None;
            }
        } else if element_type == 2 {
            if value_size == 1 {
                DataElement::Int8(vd[0] as i8)
            } else if value_size == 2 {
                DataElement::Int16(make_u16(vd[1], vd[0]) as i16)
            } else if value_size == 4 {
                DataElement::Int32(make_u32(vd[3], vd[2], vd[1], vd[0]) as i32)
            } else if value_size == 8 {
                DataElement::Int64(make_u64_be(vd) as i64)
            } else if value_size == 16 {
                DataElement::Int128(array16(vd))
            } else {
                return None;
            }
        } else if element_type == 3 {
            if value_size == 2 {
                let u = Uuid::from_u16(make_u16(vd[1], vd[0]));
                assert(u.bytes@ =~= uuid_from_wire(vd@));
                DataElement::Uuid(u)
            } else if value_size == 4 {
                let u = Uuid::from_u32(make_u32(vd[3], vd[2], vd[1], vd[0]));
                proof {
                    lemma_be32_of_bytes(vd@[0], vd@[1], vd@[2], vd@[3]);
                }
                assert(u.bytes@ =~= uuid_from_wire(vd@));
                DataElement::Uuid(u)
            } else if value_size == 16 {
                DataElement::Uuid(Uuid { bytes: array16(vd) })
            } else {
                return None;
            }
        } else if element_type == 4 {
            DataElement::Text(lossy_text(vd))
        } else if element_type == 5 {
            DataElement::Bool(vd.len() > 0 && vd[0] != 0)
        } else if element_type == 6 || element_type == 7 {
            let ghost v = vd@;
            let mut elements: Vec<DataElement> = Vec::new();
            let mut offset: usize = 0;
            let mut parsing = true;
            while parsing && offset < value_size
                invariant
                    v == vd@,
                    v.len() == value_size,
                    value_size < data@.len(),
                    offset <= value_size,
                    decode_items(v, 0) == elements_view(elements@) + (if parsing { decode_items(v, offset as int) } else { Seq::empty() }),
                decreases value_size - offset, if parsing { 1int } else { 0int },
            {
                let rest = copy_range(vd, offset, value_size);
                assert(rest@ == v.subrange(offset as int, v.len() as int));
                match DataElement::from_bytes(rest.as_slice()) {
                    Some((elem, size)) => {
                        let ghost before = elements@;
                        elements.push(elem);
                        assert(elements_view(elements@) =~= elements_view(before) + seq![elem@]);
                        offset = offset + size;
                    },
                    None => {
                        parsing = false;
                    },
                }
            }
            proof {
                if parsing {
                    assert(decode_items(v, offset as int) =~= Seq::<ElementView>::empty());
                }
                assert(elements_view(elements@) + Seq::<ElementView>::empty() =~= elements_view(elements@));
            }
            if element_type == 6 {
                let e = DataElement::Sequence(elements);
                assert(e@ == ElementView::Sequence(decode_items(v, 0))) by {
                    assert(elements_view(elements@) =~= match e@ { ElementView::Sequence(s) => s, _ => Seq::empty() });
                }
                e
            } else {
                let e = DataElement::Alternative(elements);
                assert(e@ == ElementView::Alternative(decode_items(v, 0))) by {
                    assert(elements_view(elements@) =~= match e@ { ElementView::Alternative(s) => s, _ => Seq::empty() });
                }
                e
            }
        } else if element_type == 8 {
            DataElement::Url(lossy_text(vd))
        } else {
            return None;
        };
        Some((element, total_size))
    }
}


/// Copies of the elements of a list.
fn copy_list(v: &Vec<DataElement>) -> (r: Vec<DataElement>)
    ensures
        elements_view(r@) == elements_view(v@),
    decreases v@, 0nat,
{
    let mut out: Vec<DataElement> = Vec::new();
    let mut i: usize = 0;
    while i < v.len()
        invariant
            i <= v@.len(),
            elements_view(out@) == elements_view(v@.subrange(0, i as int)),
        decreases v@.len() - i,
    {
        proof {
            assert(decreases_to!(v@ => v@[i as int]));
        }
        let ghost before = out@;
        let e = v[i].copy_element();
        out.push(e);
        assert(elements_view(out@) =~= elements_view(before) + seq![e@]);
        assert(elements_view(v@.subrange(0, i + 1)) =~= elements_view(v@.subrange(0, i as int)) + seq![v@[i as int]@]);
        i = i + 1;
    }
    assert(v@.subrange(0, v@.len() as int) =~= v@);
    out
}

impl DataElement {
    /// A copy of this element, nested lists included.
    pub fn copy_element(&self) -> (r: Self)
        ensures
            r@ == self@,
        decreases self, 1nat,
    {
        match self {
            DataElement::Nil => DataElement::Nil,
            DataElement::UInt8(v) => DataElement::UInt8(*v),
            DataElement::UInt16(v) => DataElement::UInt16(*v),
            DataElement::UInt32(v) => DataElement::UInt32(*v),
            DataElement::UInt64(v) => DataElement::UInt64(*v),
            DataElement::UInt128(a) => DataElement::UInt128(*a),
            DataElement::Int8(v) => DataElement::Int8(*v),
            DataElement::Int16(v) => DataElement::Int16(*v),
            DataElement::Int32(v) => DataElement::Int32(*v),
            DataElement::Int64(v) => DataElement::Int64(*v),
            DataElement::Int128(a) => DataElement::Int128(*a),
            DataElement::Uuid(u) => DataElement::Uuid(*u),
            DataElement::Text(t) => DataElement::Text(slice_to_vec(t.as_slice())),
            DataElement::Bool(b) => DataElement::Bool(*b),
            DataElement::Sequence(v) => {
                let c = copy_list(v);
                let r = DataElement::Sequence(c);
                assert(r@ =~= self@) by {
                    assert(elements_view(c@) =~= match r@ { ElementView::Sequence(s) => s, _ => Seq::empty() });
                    assert(elements_view(v@) =~= match self@ { ElementView::Sequence(s) => s, _ => Seq::empty() });
                }
                r
            },
            DataElement::Alternative(v) => {
                let c = copy_list(v);
                let r = DataElement::Alternative(c);
                assert(r@ =~= self@) by {
                    assert(elements_view(c@) =~= match r@ { ElementView::Alternative(s) => s, _ => Seq::empty() });
                    assert(elements_view(v@) =~= match self@ { ElementView::Alternative(s) => s, _ => Seq::empty() });
                }
                r
            },
            DataElement::Url(t) => DataElement::Url(slice_to_vec(t.as_slice())),
        }
    }

    /// Get as UUID if this is a UUID element
    pub fn as_uuid(&self) -> (r: Option<&Uuid>)
        ensures
            match self@ {
                ElementView::Uuid(b) => r matches Some(u) && u.bytes@ == b,
                _ => r is None,
            },
    {
        match self {
            DataElement::Uuid(u) => Some(u),
            _ => None,
        }
    }

    /// Get as sequence if this is a sequence element
    pub fn as_sequence(&self) -> (r: Option<&[DataElement]>)
        ensures
            match self@ {
                ElementView::Sequence(s) => r matches Some(x) && elements_view(x@) == s,
                _ => r is None,
            },
    {
        match self {
            DataElement::Sequence(s) => {
                assert(elements_view(s@) =~= match self@ { ElementView::Sequence(x) => x, _ => Seq::empty() });
                Some(s.as_slice())
            },
            _ => None,
        }
    }

    /// Get as text if this is a text element
    pub fn as_text(&self) -> (r: Option<&[u8]>)
        ensures
            match self@ {
                ElementView::Text(t) => r matches Some(x) && x@ == t,
                _ => r is None,
            },
    {
        match self {
            DataElement::Text(s) => Some(s.as_slice()),
            _ => None,
        }
    }

    /// Get as u16 if this is a u16 (or u8) element
    pub fn as_u16(&self) -> (r: Option<u16>)
        ensures
            r == match self@ {
                ElementView::UInt16(v) => Some(v),
                ElementView::UInt8(v) => Some(v as u16),
                _ => None::<u16>,
            },
    {
        match self {
            DataElement::UInt16(v) => Some(*v),
            DataElement::UInt8(v) => Some(*v as u16),
            _ => None,
        }
    }

    /// Get as u32 if this is a u32 (or u16, u8) element
    pub fn as_u32(&self) -> (r: Option<u32>)
        ensures
            r == match self@ {
                ElementView::UInt32(v) => Some(v),
                ElementView::UInt16(v) => Some(v as u32),
                ElementView::UInt8(v) => Some(v as u32),
                _ => None::<u32>,
            },
    {
        match self {
            DataElement::UInt32(v) => Some(*v),
            DataElement::UInt16(v) => Some(*v as u32),
            DataElement::UInt8(v) => Some(*v as u32),
            _ => None,
        }
    }
}

impl Clone for DataElement {
    fn clone(&self) -> (r: Self)
        ensures
            r@ == self@,
    {
        self.copy_element()
    }
}


// =============================================================================
// SERVICE RECORD
// =============================================================================

/// SDP attribute
#[derive(Debug)]
pub struct SdpAttribute {
    /// Attribute ID
    pub id: u16,
    /// Attribute value
    pub value: DataElement,
}

impl Clone for SdpAttribute {
    fn clone(&self) -> (r: Self)
        ensures
            r.id == self.id,
            r.value@ == self.value@,
    {
        SdpAttribute { id: self.id, value: self.value.copy_element() }
    }
}

/// An attribute as its ID and what its value holds.
pub open spec fn attr_view(a: SdpAttribute) -> (u16, ElementView) {
    (a.id, a.value@)
}

/// What a list of attributes holds.
pub open spec fn attrs_view(v: Seq<SdpAttribute>) -> Seq<(u16, ElementView)> {
    v.map_values(|a: SdpAttribute| attr_view(a))
}

/// SDP service record
#[derive(Debug)]
pub struct ServiceRecord {
    /// Service record handle
    pub handle: u32,
    /// Attributes, in increasing ID order
    pub attributes: Vec<SdpAttribute>,
}

/// What a service record holds.
pub struct RecordView {
    pub handle: u32,
    pub attributes: Seq<(u16, ElementView)>,
}

impl View for ServiceRecord {
    type V = RecordView;

    open spec fn view(&self) -> RecordView {
        RecordView { handle: self.handle, attributes: attrs_view(self.attributes@) }
    }
}

/// Index of the first attribute whose ID is above `id` (or the end).
pub open spec fn upper_pos(s: Seq<(u16, ElementView)>, id: u16) -> int
    decreases s.len(),
{
    if s.len() == 0 {
        0
    } else if s[0].0 <= id {
        1 + upper_pos(s.drop_first(), id)
    } else {
        0
    }
}

/// `x` placed after every attribute whose ID is not above its own.
pub open spec fn insert_stable(s: Seq<(u16, ElementView)>, x: (u16, ElementView)) -> Seq<(u16, ElementView)> {
    s.insert(upper_pos(s, x.0), x)
}

/// The attributes ordered by ID, attributes with equal IDs kept in the
/// order they came (a stable sort).
pub open spec fn sort_by_id(s: Seq<(u16, ElementView)>) -> Seq<(u16, ElementView)>
    decreases s.len(),
{
    if s.len() == 0 { s } else { insert_stable(sort_by_id(s.drop_last()), s.last()) }
}

/// The attributes without any whose ID is `id`.
pub open spec fn without_id(s: Seq<(u16, ElementView)>, id: u16) -> Seq<(u16, ElementView)>
    decreases s.len(),
{
    if s.len() == 0 {
        s
    } else if s.last().0 == id {
        without_id(s.drop_last(), id)
    } else {
        without_id(s.drop_last(), id).push(s.last())
    }
}

/// Index of the first attribute whose ID is `id` (or the end).
pub open spec fn first_with_id(s: Seq<(u16, ElementView)>, id: u16) -> int
    decreases s.len(),
{
    if s.len() == 0 {
        0
    } else if s[0].0 == id {
        0
    } else {
        1 + first_with_id(s.drop_first(), id)
    }
}

/// The value of the first attribute whose ID is `id`.
pub open spec fn record_get(s: Seq<(u16, ElementView)>, id: u16) -> Option<ElementView> {
    let i = first_with_id(s, id);
    if 0 <= i < s.len() { Some(s[i].1) } else { None }
}

/// The record after setting attribute `id` to `v`: any old value goes, and
/// the attributes are put in ID order.
pub open spec fn record_add(r: RecordView, id: u16, v: ElementView) -> RecordView {
    RecordView { attributes: sort_by_id(without_id(r.attributes, id).push((id, v))), ..r }
}

proof fn lemma_upper_pos(s: Seq<(u16, ElementView)>, id: u16)
    ensures
        0 <= upper_pos(s, id) <= s.len(),
        forall|j: int| 0 <= j < upper_pos(s, id) ==> (#[trigger] s[j]).0 <= id,
        upper_pos(s, id) < s.len() ==> s[upper_pos(s, id)].0 > id,
    decreases s.len(),
{
    if s.len() > 0 && s[0].0 <= id {
        lemma_upper_pos(s.drop_first(), id);
        assert forall|j: int| 0 <= j < upper_pos(s, id) implies (#[trigger] s[j]).0 <= id by {
            if j > 0 {
                assert(s[j] == s.drop_first()[j - 1]);
            }
        }
    }
}

proof fn lemma_first_with_id(s: Seq<(u16, ElementView)>, id: u16)
    ensures
        0 <= first_with_id(s, id) <= s.len(),
        forall|j: int| 0 <= j < first_with_id(s, id) ==> (#[trigger] s[j]).0 != id,
        first_with_id(s, id) < s.len() ==> s[first_with_id(s, id)].0 == id,
    decreases s.len(),
{
    if s.len() > 0 && s[0].0 != id {
        lemma_first_with_id(s.drop_first(), id);
        assert forall|j: int| 0 <= j < first_with_id(s, id) implies (#[trigger] s[j]).0 != id by {
            if j > 0 {
                assert(s[j] == s.drop_first()[j - 1]);
            }
        }
    }
}

/// The stable sort keeps exactly the attributes it was given.
proof fn lemma_sort_members(s: Seq<(u16, ElementView)>)
    ensures
        sort_by_id(s).to_multiset() == s.to_multiset(),
    decreases s.len(),
{
    if s.len() > 0 {
        lemma_sort_members(s.drop_last());
        let t = sort_by_id(s.drop_last());
        lemma_upper_pos(t, s.last().0);
        let p = upper_pos(t, s.last().0);
        vstd::seq_lib::to_multiset_insert(t, p, s.last());
        vstd::seq_lib::to_multiset_build(s.drop_last(), s.last());
        assert(s.drop_last().push(s.last()) =~= s);
    }
}

/// The stable sort puts attributes in order of ID.
proof fn lemma_sort_sorted(s: Seq<(u16, ElementView)>)
    ensures
        forall|i: int, j: int| 0 <= i < j < sort_by_id(s).len() ==> (#[trigger] sort_by_id(s)[i]).0 <= (#[trigger] sort_by_id(s)[j]).0,
    decreases s.len(),
{
    if s.len() > 0 {
        lemma_sort_sorted(s.drop_last());
        let t = sort_by_id(s.drop_last());
        let x = s.last();
        lemma_upper_pos(t, x.0);
        let p = upper_pos(t, x.0);
        let u = t.insert(p, x);
        assert forall|i: int, j: int| 0 <= i < j < u.len() implies (#[trigger] u[i]).0 <= (#[trigger] u[j]).0 by {
            if j < p {
                assert(u[i] == t[i] && u[j] == t[j]);
            } else if j == p {
                assert(u[i] == t[i]);
            } else if i < p {
                assert(u[i] == t[i] && u[j] == t[j - 1]);
            } else if i == p {
                assert(u[j] == t[j - 1]);
                assert(t[p].0 <= t[j - 1].0 || p == j - 1);
            } else {
                assert(u[i] == t[i - 1] && u[j] == t[j - 1]);
            }
        }
    }
}

proof fn lemma_without_id(s: Seq<(u16, ElementView)>, id: u16)
    ensures
        forall|x: (u16, ElementView)| #[trigger] without_id(s, id).to_multiset().count(x) == (if x.0 == id { 0 } else { s.to_multiset().count(x) }),
    decreases s.len(),
{
    broadcast use vstd::multiset::group_multiset_axioms;
    if s.len() == 0 {
        assert(without_id(s, id) =~= s);
        assert forall|x: (u16, ElementView)| #[trigger] without_id(s, id).to_multiset().count(x) == (if x.0 == id { 0 } else { s.to_multiset().count(x) }) by {
            vstd::seq_lib::to_multiset_contains(s, x);
        }
    } else {
        lemma_without_id(s.drop_last(), id);
        vstd::seq_lib::to_multiset_build(s.drop_last(), s.last());
        assert(s.drop_last().push(s.last()) =~= s);
        if s.last().0 != id {
            vstd::seq_lib::to_multiset_build(without_id(s.drop_last(), id), s.last());
        }
        assert forall|x: (u16, ElementView)| #[trigger] without_id(s, id).to_multiset().count(x) == (if x.0 == id { 0 } else { s.to_multiset().count(x) }) by {
            assert(without_id(s.drop_last(), id).to_multiset().count(x) == (if x.0 == id { 0 } else { s.drop_last().to_multiset().count(x) }));
        }
    }
}

/// After an attribute is set, looking it up gives the value just set; the
/// attributes stay in ID order, and every other attribute is kept.
pub proof fn lemma_add_then_get(r: RecordView, id: u16, v: ElementView)
    ensures
        record_get(record_add(r, id, v).attributes, id) == Some(v),
        forall|i: int, j: int| 0 <= i < j < record_add(r, id, v).attributes.len()
            ==> (#[trigger] record_add(r, id, v).attributes[i]).0 <= (#[trigger] record_add(r, id, v).attributes[j]).0,
        forall|x: (u16, ElementView)| x.0 != id ==> (record_add(r, id, v).attributes.contains(x) <==> r.attributes.contains(x)),
{
    broadcast use vstd::multiset::group_multiset_axioms;
    let w = without_id(r.attributes, id);
    let t = w.push((id, v));
    let u = sort_by_id(t);
    lemma_sort_members(t);
    lemma_sort_sorted(t);
    lemma_without_id(r.attributes, id);
    vstd::seq_lib::to_multiset_build(w, (id, v));
    lemma_first_with_id(u, id);
    vstd::seq_lib::to_multiset_contains(u, (id, v));
    assert(u.to_multiset().count((id, v)) > 0);
    assert(u.contains((id, v)));
    let k = choose|k: int| 0 <= k < u.len() && u[k] == (id, v);
    let f = first_with_id(u, id);
    assert(f <= k);
    let y = u[f];
    assert(u.contains(y));
    vstd::seq_lib::to_multiset_contains(u, y);
    assert(w.to_multiset().count(y) == 0);
    assert(y == (id, v));
    assert forall|x: (u16, ElementView)| x.0 != id implies (u.contains(x) <==> r.attributes.contains(x)) by {
        vstd::seq_lib::to_multiset_contains(u, x);
        vstd::seq_lib::to_multiset_contains(r.attributes, x);
        assert(w.to_multiset().count(x) == r.attributes.to_multiset().count(x));
    }
}

/// Copies of a list of attributes.
fn copy_attrs(v: &Vec<SdpAttribute>) -> (r: Vec<SdpAttribute>)
    ensures
        attrs_view(r@) == attrs_view(v@),
{
    let mut out: Vec<SdpAttribute> = Vec::new();
    let mut i: usize = 0;
    while i < v.len()
        invariant
            i <= v@.len(),
            attrs_view(out@) == attrs_view(v@.subrange(0, i as int)),
        decreases v@.len() - i,
    {
        let ghost before = out@;
        let a = v[i].clone();
        out.push(a);
        assert(attrs_view(out@) =~= attrs_view(before).push(attr_view(v@[i as int])));
        assert(attrs_view(v@.subrange(0, i + 1)) =~= attrs_view(v@.subrange(0, i as int)).push(attr_view(v@[i as int])));
        i = i + 1;
    }
    assert(v@.subrange(0, v@.len() as int) =~= v@);
    out
}

/// Put `a` after every attribute whose ID is not above its own.
fn insert_by_id(sorted: &mut Vec<SdpAttribute>, a: SdpAttribute)
    ensures
        attrs_view(final(sorted)@) == insert_stable(attrs_view(old(sorted)@), attr_view(a)),
{
    let ghost s = attrs_view(sorted@);
    proof {
        lemma_upper_pos(s, a.id);
    }
    let mut p: usize = 0;
    while p < sorted.len() && sorted[p].id <= a.id
        invariant
            s == attrs_view(sorted@),
            p <= sorted@.len(),
            upper_pos(s, a.id) >= p,
            forall|j: int| 0 <= j < p ==> (#[trigger] s[j]).0 <= a.id,
            0 <= upper_pos(s, a.id) <= s.len(),
            forall|j: int| 0 <= j < upper_pos(s, a.id) ==> (#[trigger] s[j]).0 <= a.id,
            upper_pos(s, a.id) < s.len() ==> s[upper_pos(s, a.id)].0 > a.id,
        decreases sorted@.len() - p,
    {
        assert(s[p as int].0 == sorted@[p as int].id);
        p = p + 1;
    }
    proof {
        if p < sorted@.len() {
            assert(s[p as int].0 == sorted@[p as int].id);
        }
    }
    assert(p == upper_pos(s, a.id));
    let ghost av = attr_view(a);
    sorted.insert(p, a);
    assert(attrs_view(sorted@) =~= s.insert(p as int, av));
}

impl ServiceRecord {
    /// Create new service record
    pub fn new(handle: u32) -> (r: Self)
        ensures
            r@ == (RecordView { handle, attributes: Seq::empty() }),
    {
        let r = ServiceRecord { handle, attributes: Vec::new() };
        assert(r@.attributes =~= Seq::<(u16, ElementView)>::empty());
        r
    }

    /// Add attribute: replaces any with the same ID and keeps the list
    /// sorted by ID
    pub fn add_attribute(&mut self, id: u16, value: DataElement)
        ensures
            final(self)@ == record_add(old(self)@, id, value@),
    {
        let ghost s = self@.attributes;
        let mut kept: Vec<SdpAttribute> = Vec::new();
        let mut i: usize = 0;
        assert(s.subrange(0, 0) =~= Seq::<(u16, ElementView)>::empty());
        while i < self.attributes.len()
            invariant
                s == attrs_view(self.attributes@),
                i <= s.len(),
                attrs_view(kept@) == without_id(s.subrange(0, i as int), id),
            decreases s.len() - i,
        {
            assert(s.subrange(0, i + 1).drop_last() =~= s.subrange(0, i as int));
            assert(s[i as int] == attr_view(self.attributes@[i as int]));
            if self.attributes[i].id != id {
                let ghost before = kept@;
                let a = self.attributes[i].clone();
                kept.push(a);
                assert(attrs_view(kept@) =~= attrs_view(before).push(attr_view(a)));
            }
            i = i + 1;
        }
        assert(s.subrange(0, s.len() as int) =~= s);
        let ghost k = attrs_view(kept@);
        let ghost t = k.push((id, value@));
        let mut sorted: Vec<SdpAttribute> = Vec::new();
        let mut j: usize = 0;
        assert(k.subrange(0, 0) =~= Seq::<(u16, ElementView)>::empty());
        while j < kept.len()
            invariant
                k == attrs_view(kept@),
                j <= k.len(),
                attrs_view(sorted@) == sort_by_id(k.subrange(0, j as int)),
            decreases k.len() - j,
        {
            assert(k.subrange(0, j + 1).drop_last() =~= k.subrange(0, j as int));
            assert(k.subrange(0, j + 1).last() == k[j as int]);
            let a = kept[j].clone();
            insert_by_id(&mut sorted, a);
            j = j + 1;
        }
        assert(k.subrange(0, k.len() as int) =~= k);
        let ghost vv = value@;
        insert_by_id(&mut sorted, SdpAttribute { id, value });
        assert(t.drop_last() =~= k);
        self.attributes = sorted;
    }

    /// Get attribute: the value of the first attribute with this ID
    pub fn get_attribute(&self, id: u16) -> (r: Option<&DataElement>)
        ensures
            match record_get(self@.attributes, id) {
                Some(v) => r matches Some(x) && x@ == v,
                None => r is None,
            },
    {
        let ghost s = self@.attributes;
        proof {
            lemma_first_with_id(s, id);
        }
        let mut i: usize = 0;
        while i < self.attributes.len()
            invariant
                s == self@.attributes,
                i <= s.len(),
                forall|j: int| 0 <= j < i ==> (#[trigger] s[j]).0 != id,
                0 <= first_with_id(s, id) <= s.len(),
                first_with_id(s, id) < s.len() ==> s[first_with_id(s, id)].0 == id,
                forall|j: int| 0 <= j < first_with_id(s, id) ==> (#[trigger] s[j]).0 != id,
            decreases s.len() - i,
        {
            assert(s[i as int] == attr_view(self.attributes@[i as int]));
            if self.attributes[i].id == id {
                assert(first_with_id(s, id) == i);
                return Some(&self.attributes[i].value);
            }
            i = i + 1;
        }
        None
    }
}

impl Clone for ServiceRecord {
    fn clone(&self) -> (r: Self)
        ensures
            r@ == self@,
    {
        ServiceRecord { handle: self.handle, attributes: copy_attrs(&self.attributes) }
    }
}


/// The UUIDs in a list of elements, as their bytes, in order.
pub open spec fn uuids_in(s: Seq<ElementView>) -> Seq<Seq<u8>>
    decreases s.len(),
{
    if s.len() == 0 {
        Seq::empty()
    } else {
        match s.last() {
            ElementView::Uuid(b) => uuids_in(s.drop_last()).push(b),
            _ => uuids_in(s.drop_last()),
        }
    }
}

/// The service class UUIDs of a record's attributes.
pub open spec fn class_ids(attrs: Seq<(u16, ElementView)>) -> Seq<Seq<u8>> {
    match record_get(attrs, attr::SERVICE_CLASS_ID_LIST) {
        Some(ElementView::Sequence(s)) => uuids_in(s),
        _ => Seq::empty(),
    }
}

/// What a protocol descriptor holds.
pub struct DescriptorView {
    pub uuid: Seq<u8>,
    pub params: Seq<ElementView>,
}

/// The protocol descriptor an element spells: a sequence whose first item
/// is a UUID; the rest are its parameters.
pub open spec fn descriptor_of(e: ElementView) -> Option<DescriptorView> {
    match e {
        ElementView::Sequence(s) => if s.len() > 0 && s[0] is Uuid {
            Some(DescriptorView { uuid: s[0]->Uuid_0, params: s.subrange(1, s.len() as int) })
        } else {
            None
        },
        _ => None,
    }
}

/// The protocol descriptors a list of elements spells, skipping the rest.
pub open spec fn descriptors_in(s: Seq<ElementView>) -> Seq<DescriptorView>
    decreases s.len(),
{
    if s.len() == 0 {
        Seq::empty()
    } else {
        match descriptor_of(s.last()) {
            Some(d) => descriptors_in(s.drop_last()).push(d),
            None => descriptors_in(s.drop_last()),
        }
    }
}

/// Attribute ID and value pairs for the requested IDs a record has.
pub open spec fn id_value_pairs(attrs: Seq<(u16, ElementView)>, ids: Seq<u16>) -> Seq<ElementView>
    decreases ids.len(),
{
    if ids.len() == 0 {
        Seq::empty()
    } else {
        match record_get(attrs, ids.last()) {
            Some(v) => id_value_pairs(attrs, ids.drop_last()) + seq![ElementView::UInt16(ids.last()), v],
            None => id_value_pairs(attrs, ids.drop_last()),
        }
    }
}

/// Attribute ID and value pairs for the attributes with IDs in `start..=end`.
pub open spec fn range_pairs(attrs: Seq<(u16, ElementView)>, start: u16, end: u16) -> Seq<ElementView>
    decreases attrs.len(),
{
    if attrs.len() == 0 {
        Seq::empty()
    } else if start <= attrs.last().0 <= end {
        range_pairs(attrs.drop_last(), start, end) + seq![ElementView::UInt16(attrs.last().0), attrs.last().1]
    } else {
        range_pairs(attrs.drop_last(), start, end)
    }
}

impl ServiceRecord {
    /// Get service class UUIDs
    pub fn service_class_ids(&self) -> (r: Vec<Uuid>)
        ensures
            r@.map_values(|u: Uuid| u.bytes@) == class_ids(self@.attributes),
    {
        let mut out: Vec<Uuid> = Vec::new();
        match self.get_attribute(attr::SERVICE_CLASS_ID_LIST) {
            Some(v) => match v.as_sequence() {
                Some(items) => {
                    let ghost sv = elements_view(items@);
                    let mut i: usize = 0;
                    assert(sv.subrange(0, 0) =~= Seq::<ElementView>::empty());
                    while i < items.len()
                        invariant
                            sv == elements_view(items@),
                            i <= sv.len(),
                            out@.map_values(|u: Uuid| u.bytes@) == uuids_in(sv.subrange(0, i as int)),
                        decreases sv.len() - i,
                    {
                        assert(sv.subrange(0, i + 1).drop_last() =~= sv.subrange(0, i as int));
                        assert(sv[i as int] == items@[i as int]@);
                        match items[i].as_uuid() {
                            Some(u) => {
                                let ghost before = out@;
                                out.push(*u);
                                assert(out@.map_values(|u: Uuid| u.bytes@) =~= before.map_values(|u: Uuid| u.bytes@).push(u.bytes@));
                            },
                            None => {},
                        }
                        i = i + 1;
                    }
                    assert(sv.subrange(0, sv.len() as int) =~= sv);
                },
                None => {},
            },
            None => {},
        }
        assert(out@.map_values(|u: Uuid| u.bytes@) =~= class_ids(self@.attributes));
        out
    }

    /// Get service name: the text of the primary-language name attribute
    pub fn service_name(&self) -> (r: Option<Vec<u8>>)
        ensures
            match record_get(self@.attributes, (attr::PRIMARY_LANGUAGE_BASE + attr::SERVICE_NAME_OFFSET) as u16) {
                Some(ElementView::Text(t)) => r matches Some(x) && x@ == t,
                _ => r is None,
            },
    {
        match self.get_attribute(attr::PRIMARY_LANGUAGE_BASE + attr::SERVICE_NAME_OFFSET) {
            Some(v) => match v.as_text() {
                Some(t) => Some(slice_to_vec(t)),
                None => None,
            },
            None => None,
        }
    }

    /// Set service name
    pub fn set_service_name(&mut self, name: &[u8])
        ensures
            final(self)@ == record_add(old(self)@, (attr::PRIMARY_LANGUAGE_BASE + attr::SERVICE_NAME_OFFSET) as u16, ElementView::Text(name@)),
    {
        self.add_attribute(attr::PRIMARY_LANGUAGE_BASE + attr::SERVICE_NAME_OFFSET, DataElement::Text(slice_to_vec(name)));
    }

    /// Get protocol descriptors
    pub fn protocol_descriptors(&self) -> (r: Vec<ProtocolDescriptor>)
        ensures
            r@.map_values(|d: ProtocolDescriptor| d@) == match record_get(self@.attributes, attr::PROTOCOL_DESCRIPTOR_LIST) {
                Some(ElementView::Sequence(s)) => descriptors_in(s),
                _ => Seq::empty(),
            },
    {
        let mut out: Vec<ProtocolDescriptor> = Vec::new();
        match self.get_attribute(attr::PROTOCOL_DESCRIPTOR_LIST) {
            Some(v) => match v.as_sequence() {
                Some(items) => {
                    let ghost sv = elements_view(items@);
                    let mut i: usize = 0;
                    assert(sv.subrange(0, 0) =~= Seq::<ElementView>::empty());
                    while i < items.len()
                        invariant
                            sv == elements_view(items@),
                            i <= sv.len(),
                            out@.map_values(|d: ProtocolDescriptor| d@) == descriptors_in(sv.subrange(0, i as int)),
                        decreases sv.len() - i,
                    {
                        assert(sv.subrange(0, i + 1).drop_last() =~= sv.subrange(0, i as int));
                        assert(sv[i as int] == items@[i as int]@);
                        match ProtocolDescriptor::from_element(&items[i]) {
                            Some(d) => {
                                let ghost before = out@;
                                let ghost dv = d@;
                                out.push(d);
                                assert(out@.map_values(|d: ProtocolDescriptor| d@) =~= before.map_values(|d: ProtocolDescriptor| d@).push(dv));
                            },
                            None => {},
                        }
                        i = i + 1;
                    }
                    assert(sv.subrange(0, sv.len() as int) =~= sv);
                },
                None => {},
            },
            None => {},
        }
        out
    }

    /// Serialize attribute list for SDP response: ID and value pairs for
    /// the requested IDs present, as one sequence
    pub fn serialize_attributes(&self, attr_ids: &[u16]) -> (r: Vec<u8>)
        ensures
            r@ == encode(ElementView::Sequence(id_value_pairs(self@.attributes, attr_ids@))),
    {
        let mut elements: Vec<DataElement> = Vec::new();
        let mut i: usize = 0;
        assert(attr_ids@.subrange(0, 0) =~= Seq::<u16>::empty());
        while i < attr_ids.len()
            invariant
                i <= attr_ids@.len(),
                elements_view(elements@) == id_value_pairs(self@.attributes, attr_ids@.subrange(0, i as int)),
            decreases attr_ids@.len() - i,
        {
            let id = attr_ids[i];
            assert(attr_ids@.subrange(0, i + 1).drop_last() =~= attr_ids@.subrange(0, i as int));
            match self.get_attribute(id) {
                Some(value) => {
                    let ghost before = elements@;
                    let a = DataElement::UInt16(id);
                    let b = value.copy_element();
                    elements.push(a);
                    elements.push(b);
                    assert(elements_view(elements@) =~= elements_view(before) + seq![a@, b@]);
                },
                None => {},
            }
            i = i + 1;
        }
        assert(attr_ids@.subrange(0, attr_ids@.len() as int) =~= attr_ids@);
        let e = DataElement::Sequence(elements);
        assert(e@ =~= ElementView::Sequence(id_value_pairs(self@.attributes, attr_ids@))) by {
            assert(elements_view(elements@) =~= match e@ { ElementView::Sequence(s) => s, _ => Seq::empty() });
        }
        e.to_bytes()
    }

    /// Serialize attribute range for SDP response: ID and value pairs for
    /// the attributes with IDs in `start..=end`, as one sequence
    pub fn serialize_attribute_range(&self, start: u16, end: u16) -> (r: Vec<u8>)
        ensures
            r@ == encode(ElementView::Sequence(range_pairs(self@.attributes, start, end))),
    {
        let ghost s = self@.attributes;
        let mut elements: Vec<DataElement> = Vec::new();
        let mut i: usize = 0;
        assert(s.subrange(0, 0) =~= Seq::<(u16, ElementView)>::empty());
        while i < self.attributes.len()
            invariant
                s == self@.attributes,
                i <= s.len(),
                elements_view(elements@) == range_pairs(s.subrange(0, i as int), start, end),
            decreases s.len() - i,
        {
            assert(s.subrange(0, i + 1).drop_last() =~= s.subrange(0, i as int));
            assert(s[i as int] == attr_view(self.attributes@[i as int]));
            let id = self.attributes[i].id;
            if id >= start && id <= end {
                let ghost before = elements@;
                let a = DataElement::UInt16(id);
                let b = self.attributes[i].value.copy_element();
                elements.push(a);
                elements.push(b);
                assert(elements_view(elements@) =~= elements_view(before) + seq![a@, b@]);
            }
            i = i + 1;
        }
        assert(s.subrange(0, s.len() as int) =~= s);
        let e = DataElement::Sequence(elements);
        assert(e@ =~= ElementView::Sequence(range_pairs(s, start, end))) by {
            assert(elements_view(elements@) =~= match e@ { ElementView::Sequence(x) => x, _ => Seq::empty() });
        }
        e.to_bytes()
    }
}

/// Protocol descriptor
#[derive(Debug)]
pub struct ProtocolDescriptor {
    /// Protocol UUID
    pub uuid: Uuid,
    /// Protocol parameters
    pub params: Vec<DataElement>,
}

impl View for ProtocolDescriptor {
    type V = DescriptorView;

    open spec fn view(&self) -> DescriptorView {
        DescriptorView { uuid: self.uuid.bytes@, params: elements_view(self.params@) }
    }
}

impl Clone for ProtocolDescriptor {
    fn clone(&self) -> (r: Self)
        ensures
            r@ == self@,
    {
        ProtocolDescriptor { uuid: self.uuid, params: copy_list(&self.params) }
    }
}

impl ProtocolDescriptor {
    /// Parse from data element
    pub fn from_element(element: &DataElement) -> (r: Option<Self>)
        ensures
            match descriptor_of(element@) {
                Some(d) => r matches Some(x) && x@ == d,
                None => r is None,
            },
    {
        let seq = match element.as_sequence() {
            Some(s) => s,
            None => return None,
        };
        if seq.len() == 0 {
            return None;
        }
        let ghost sv = elements_view(seq@);
        assert(sv[0] == seq@[0]@);
        let uuid = match seq[0].as_uuid() {
            Some(u) => *u,
            None => return None,
        };
        let mut params: Vec<DataElement> = Vec::new();
        let mut i: usize = 1;
        assert(sv.subrange(1, 1) =~= Seq::<ElementView>::empty());
        while i < seq.len()
            invariant
                sv == elements_view(seq@),
                1 <= i <= sv.len(),
                elements_view(params@) == sv.subrange(1, i as int),
            decreases sv.len() - i,
        {
            let ghost before = params@;
            let e = seq[i].copy_element();
            params.push(e);
            assert(elements_view(params@) =~= elements_view(before).push(e@));
            assert(sv.subrange(1, i + 1) =~= sv.subrange(1, i as int).push(sv[i as int]));
            i = i + 1;
        }
        Some(ProtocolDescriptor { uuid, params })
    }

    /// Convert to data element: the UUID, then the parameters
    pub fn to_element(&self) -> (r: DataElement)
        ensures
            r@ == ElementView::Sequence(seq![ElementView::Uuid(self.uuid.bytes@)] + elements_view(self.params@)),
    {
        let mut seq: Vec<DataElement> = Vec::new();
        seq.push(DataElement::Uuid(self.uuid));
        let ghost first = seq@;
        let mut i: usize = 0;
        while i < self.params.len()
            invariant
                i <= self.params@.len(),
                elements_view(seq@) == seq![ElementView::Uuid(self.uuid.bytes@)] + elements_view(self.params@.subrange(0, i as int)),
            decreases self.params@.len() - i,
        {
            let ghost before = seq@;
            let e = self.params[i].copy_element();
            seq.push(e);
            assert(elements_view(seq@) =~= elements_view(before).push(e@));
            assert(elements_view(self.params@.subrange(0, i + 1)) =~= elements_view(self.params@.subrange(0, i as int)).push(self.params@[i as int]@));
            i = i + 1;
        }
        assert(self.params@.subrange(0, self.params@.len() as int) =~= self.params@);
        let r = DataElement::Sequence(seq);
        assert(elements_view(seq@) =~= match r@ { ElementView::Sequence(x) => x, _ => Seq::empty() });
        r
    }
}

// =============================================================================
// SDP PDU
// =============================================================================

/// SDP PDU header
#[derive(Clone, Debug)]
pub struct SdpPdu {
    /// PDU ID
    pub pdu_id: u8,
    /// Transaction ID
    pub transaction_id: u16,
    /// Parameter data
    pub params: Vec<u8>,
}

/// The wire form of a PDU: ID, transaction ID and parameter length (big
/// endian), then the parameters.
pub open spec fn pdu_bytes(id: u8, tid: u16, params: Seq<u8>) -> Seq<u8> {
    seq![id] + be16(tid) + be16(params.len() as u16) + params
}

/// The ID, transaction ID and parameters of the PDU at the start of `d`.
pub open spec fn pdu_parse(d: Seq<u8>) -> Option<(u8, u16, Seq<u8>)> {
    if d.len() < 5 {
        None
    } else {
        let n = from_le16(d[4], d[3]);
        if d.len() < 5 + n {
            None
        } else {
            Some((d[0], from_le16(d[2], d[1]), d.subrange(5, 5 + n)))
        }
    }
}

/// A PDU whose parameters fit the 16-bit length reads back as written.
pub proof fn lemma_pdu_roundtrip(id: u8, tid: u16, params: Seq<u8>)
    requires
        params.len() <= 0xFFFF,
    ensures
        pdu_parse(pdu_bytes(id, tid, params)) == Some((id, tid, params)),
{
    let b = pdu_bytes(id, tid, params);
    assert(b.subrange(5, 5 + params.len() as int) =~= params);
}

/// UUID elements for a list of UUIDs.
pub open spec fn uuid_views(us: Seq<Uuid>) -> Seq<ElementView>
    decreases us.len(),
{
    if us.len() == 0 { Seq::empty() } else { uuid_views(us.drop_last()).push(ElementView::Uuid(us.last().bytes@)) }
}

/// The UUID list of a request: a sequence of UUID elements.
pub open spec fn uuid_list_element(us: Seq<Uuid>) -> ElementView {
    ElementView::Sequence(uuid_views(us))
}

/// An attribute ID (a range of one) or an ID range packed in 32 bits.
pub open spec fn range_element(r: (u16, u16)) -> ElementView {
    if r.0 == r.1 { ElementView::UInt16(r.0) } else { ElementView::UInt32((r.0 * 65536 + r.1) as u32) }
}

/// Range elements for a list of ranges.
pub open spec fn range_views(rs: Seq<(u16, u16)>) -> Seq<ElementView>
    decreases rs.len(),
{
    if rs.len() == 0 { Seq::empty() } else { range_views(rs.drop_last()).push(range_element(rs.last())) }
}

/// The attribute ID list of a request.
pub open spec fn ranges_element(rs: Seq<(u16, u16)>) -> ElementView {
    ElementView::Sequence(range_views(rs))
}

/// A continuation state: its length byte, then its bytes.
pub open spec fn continuation_bytes(c: Seq<u8>) -> Seq<u8> {
    seq![c.len() as u8] + c
}

/// The UUID list element of a request.
fn uuid_list(service_uuids: &[Uuid]) -> (r: DataElement)
    ensures
        r@ == uuid_list_element(service_uuids@),
{
    let mut elems: Vec<DataElement> = Vec::new();
    let mut i: usize = 0;
    while i < service_uuids.len()
        invariant
            i <= service_uuids@.len(),
            elements_view(elems@) == uuid_views(service_uuids@.subrange(0, i as int)),
        decreases service_uuids@.len() - i,
    {
        let ghost before = elems@;
        let e = DataElement::Uuid(service_uuids[i]);
        elems.push(e);
        assert(elements_view(elems@) =~= elements_view(before).push(e@));
        assert(service_uuids@.subrange(0, i + 1).drop_last() =~= service_uuids@.subrange(0, i as int));
        i = i + 1;
    }
    assert(service_uuids@.subrange(0, service_uuids@.len() as int) =~= service_uuids@);
    let r = DataElement::Sequence(elems);
    assert(elements_view(elems@) =~= match r@ { ElementView::Sequence(x) => x, _ => Seq::empty() });
    assert(r@ =~= uuid_list_element(service_uuids@));
    r
}

/// The attribute ID list element of a request.
fn range_list(attr_ranges: &[(u16, u16)]) -> (r: DataElement)
    ensures
        r@ == ranges_element(attr_ranges@),
{
    let mut elems: Vec<DataElement> = Vec::new();
    let mut i: usize = 0;
    while i < attr_ranges.len()
        invariant
            i <= attr_ranges@.len(),
            elements_view(elems@) == range_views(attr_ranges@.subrange(0, i as int)),
        decreases attr_ranges@.len() - i,
    {
        let (start, end) = attr_ranges[i];
        let e = if start == end {
            DataElement::UInt16(start)
        } else {
            DataElement::UInt32((start as u32) * 65536 + (end as u32))
        };
        let ghost before = elems@;
        let ghost ev = e@;
        elems.push(e);
        assert(elements_view(elems@) =~= elements_view(before).push(ev));
        assert(attr_ranges@.subrange(0, i + 1).drop_last() =~= attr_ranges@.subrange(0, i as int));
        i = i + 1;
    }
    assert(attr_ranges@.subrange(0, attr_ranges@.len() as int) =~= attr_ranges@);
    let r = DataElement::Sequence(elems);
    assert(elements_view(elems@) =~= match r@ { ElementView::Sequence(x) => x, _ => Seq::empty() });
    assert(r@ =~= ranges_element(attr_ranges@));
    r
}

impl SdpPdu {
    /// Create new PDU
    pub fn new(pdu_id: SdpPduId, transaction_id: u16, params: Vec<u8>) -> (r: Self)
        ensures
            r.pdu_id == pdu_id.code(),
            r.transaction_id == transaction_id,
            r.params@ == params@,
    {
        SdpPdu { pdu_id: pdu_id.to_u8(), transaction_id, params }
    }

    /// Parse from bytes
    pub fn from_bytes(data: &[u8]) -> (r: Option<Self>)
        ensures
            match pdu_parse(data@) {
                Some(p) => r matches Some(x) && x.pdu_id == p.0 && x.transaction_id == p.1 && x.params@ == p.2,
                None => r is None,
            },
    {
        if data.len() < 5 {
            return None;
        }
        let pdu_id = data[0];
        let transaction_id = make_u16(data[2], data[1]);
        let param_len = make_u16(data[4], data[3]) as usize;
        if data.len() - 5 < param_len {
            return None;
        }
        Some(SdpPdu { pdu_id, transaction_id, params: copy_range(data, 5, 5 + param_len) })
    }

    /// Serialize to bytes
    pub fn to_bytes(&self) -> (r: Vec<u8>)
        ensures
            r@ == pdu_bytes(self.pdu_id, self.transaction_id, self.params@),
    {
        let mut bytes: Vec<u8> = Vec::new();
        bytes.push(self.pdu_id);
        push_u16_be(&mut bytes, self.transaction_id);
        push_u16_be(&mut bytes, self.params.len() as u16);
        extend_bytes(&mut bytes, self.params.as_slice());
        assert(bytes@ =~= pdu_bytes(self.pdu_id, self.transaction_id, self.params@));
        bytes
    }

    /// Create service search request: the UUID list, the maximum record
    /// count and the continuation state
    pub fn service_search_request(transaction_id: u16, service_uuids: &[Uuid], max_records: u16, continuation: &[u8]) -> (r: Self)
        ensures
            r.pdu_id == SdpPduId::ServiceSearchRequest.code(),
            r.transaction_id == transaction_id,
            r.params@ == encode(uuid_list_element(service_uuids@)) + be16(max_records) + continuation_bytes(continuation@),
    {
        let mut params: Vec<u8> = Vec::new();
        let list = uuid_list(service_uuids).to_bytes();
        extend_bytes(&mut params, list.as_slice());
        push_u16_be(&mut params, max_records);
        params.push(continuation.len() as u8);
        extend_bytes(&mut params, continuation);
        assert(params@ =~= encode(uuid_list_element(service_uuids@)) + be16(max_records) + continuation_bytes(continuation@));
        Self::new(SdpPduId::ServiceSearchRequest, transaction_id, params)
    }

    /// Create service attribute request: the record handle, the maximum
    /// byte count, the attribute ID list and the continuation state
    pub fn service_attribute_request(transaction_id: u16, handle: u32, max_byte_count: u16, attr_ranges: &[(u16, u16)], continuation: &[u8]) -> (r: Self)
        ensures
            r.pdu_id == SdpPduId::ServiceAttributeRequest.code(),
            r.transaction_id == transaction_id,
            r.params@ == be32(handle) + be16(max_byte_count) + encode(ranges_element(attr_ranges@)) + continuation_bytes(continuation@),
    {
        let mut params: Vec<u8> = Vec::new();
        push_u32_be(&mut params, handle);
        assert(seq![le32(handle)[3], le32(handle)[2], le32(handle)[1], le32(handle)[0]] =~= be32(handle));
        push_u16_be(&mut params, max_byte_count);
        let list = range_list(attr_ranges).to_bytes();
        extend_bytes(&mut params, list.as_slice());
        params.push(continuation.len() as u8);
        extend_bytes(&mut params, continuation);
        assert(params@ =~= be32(handle) + be16(max_byte_count) + encode(ranges_element(attr_ranges@)) + continuation_bytes(continuation@));
        Self::new(SdpPduId::ServiceAttributeRequest, transaction_id, params)
    }

    /// Create service search attribute request: the UUID list, the maximum
    /// byte count, the attribute ID list and the continuation state
    pub fn service_search_attribute_request(transaction_id: u16, service_uuids: &[Uuid], max_byte_count: u16, attr_ranges: &[(u16, u16)], continuation: &[u8]) -> (r: Self)
        ensures
            r.pdu_id == SdpPduId::ServiceSearchAttributeRequest.code(),
            r.transaction_id == transaction_id,
            r.params@ == encode(uuid_list_element(service_uuids@)) + be16(max_byte_count) + encode(ranges_element(attr_ranges@)) + continuation_bytes(continuation@),
    {
        let mut params: Vec<u8> = Vec::new();
        let list = uuid_list(service_uuids).to_bytes();
        extend_bytes(&mut params, list.as_slice());
        push_u16_be(&mut params, max_byte_count);
        let ranges = range_list(attr_ranges).to_bytes();
        extend_bytes(&mut params, ranges.as_slice());
        params.push(continuation.len() as u8);
        extend_bytes(&mut params, continuation);
        assert(params@ =~= encode(uuid_list_element(service_uuids@)) + be16(max_byte_count) + encode(ranges_element(attr_ranges@)) + continuation_bytes(continuation@));
        Self::new(SdpPduId::ServiceSearchAttributeRequest, transaction_id, params)
    }

    /// Create error response: the error code, big endian
    pub fn error_response(transaction_id: u16, error: SdpError) -> (r: Self)
        ensures
            r.pdu_id == SdpPduId::ErrorResponse.code(),
            r.transaction_id == transaction_id,
            r.params@ == be16(error.code()),
    {
        let mut params: Vec<u8> = Vec::new();
        push_u16_be(&mut params, error.to_u16());
        Self::new(SdpPduId::ErrorResponse, transaction_id, params)
    }
}


// =============================================================================
// COMMON SERVICE RECORDS
// =============================================================================

/// The bytes of a 16-bit UUID on the Bluetooth Base UUID.
pub open spec fn uuid16(x: u16) -> Seq<u8> {
    seq![0u8, 0u8, (x / 256) as u8, (x % 256) as u8] + super::base_uuid_tail()
}

/// A UUID element for a 16-bit UUID.
fn uuid_elem(x: u16) -> (r: DataElement)
    ensures
        r@ == ElementView::Uuid(uuid16(x)),
{
    DataElement::Uuid(Uuid::from_u16(x))
}

/// A sequence of one element.
fn seq1(a: DataElement) -> (r: DataElement)
    ensures
        r@ == ElementView::Sequence(seq![a@]),
{
    let ghost av = a@;
    let v = vec![a];
    let r = DataElement::Sequence(v);
    assert(elements_view(v@) =~= seq![av]);
    assert(elements_view(v@) =~= match r@ { ElementView::Sequence(x) => x, _ => Seq::empty() });
    r
}

/// A sequence of two elements.
fn seq2(a: DataElement, b: DataElement) -> (r: DataElement)
    ensures
        r@ == ElementView::Sequence(seq![a@, b@]),
{
    let ghost av = a@;
    let ghost bv = b@;
    let v = vec![a, b];
    let r = DataElement::Sequence(v);
    assert(elements_view(v@) =~= seq![av, bv]);
    assert(elements_view(v@) =~= match r@ { ElementView::Sequence(x) => x, _ => Seq::empty() });
    r
}

/// The Serial Port Profile record for an RFCOMM channel.
pub open spec fn spp_record(channel: u8, name: Seq<u8>) -> RecordView {
    let r0 = RecordView { handle: 0, attributes: Seq::empty() };
    let r1 = record_add(r0, attr::SERVICE_CLASS_ID_LIST, ElementView::Sequence(seq![ElementView::Uuid(uuid16(0x1101))]));
    let r2 = record_add(r1, attr::PROTOCOL_DESCRIPTOR_LIST, ElementView::Sequence(seq![
        ElementView::Sequence(seq![ElementView::Uuid(uuid16(0x0100))]),
        ElementView::Sequence(seq![ElementView::Uuid(uuid16(0x0003)), ElementView::UInt8(channel)]),
    ]));
    let r3 = record_add(r2, attr::BLUETOOTH_PROFILE_DESCRIPTOR_LIST, ElementView::Sequence(seq![
        ElementView::Sequence(seq![ElementView::Uuid(uuid16(0x1101)), ElementView::UInt16(0x0102)]),
    ]));
    record_add(r3, 0x0100, ElementView::Text(name))
}

/// The HID record: control and interrupt channels over L2CAP.
pub open spec fn hid_record(name: Seq<u8>) -> RecordView {
    let r0 = RecordView { handle: 0, attributes: Seq::empty() };
    let r1 = record_add(r0, attr::SERVICE_CLASS_ID_LIST, ElementView::Sequence(seq![ElementView::Uuid(uuid16(0x1124))]));
    let r2 = record_add(r1, attr::PROTOCOL_DESCRIPTOR_LIST, ElementView::Sequence(seq![
        ElementView::Sequence(seq![ElementView::Uuid(uuid16(0x0100)), ElementView::UInt16(0x0011)]),
        ElementView::Sequence(seq![ElementView::Uuid(uuid16(0x0011))]),
    ]));
    let r3 = record_add(r2, attr::ADDITIONAL_PROTOCOL_DESCRIPTOR_LISTS, ElementView::Sequence(seq![
        ElementView::Sequence(seq![
            ElementView::Sequence(seq![ElementView::Uuid(uuid16(0x0100)), ElementView::UInt16(0x0013)]),
            ElementView::Sequence(seq![ElementView::Uuid(uuid16(0x0011))]),
        ]),
    ]));
    record_add(r3, 0x0100, ElementView::Text(name))
}

/// Create Serial Port Profile service record
pub fn create_spp_record(channel: u8, name: &[u8]) -> (r: ServiceRecord)
    ensures
        r@ == spp_record(channel, name@),
{
    let mut record = ServiceRecord::new(0);
    record.add_attribute(attr::SERVICE_CLASS_ID_LIST, seq1(uuid_elem(0x1101)));
    record.add_attribute(attr::PROTOCOL_DESCRIPTOR_LIST, seq2(seq1(uuid_elem(0x0100)), seq2(uuid_elem(0x0003), DataElement::UInt8(channel))));
    record.add_attribute(attr::BLUETOOTH_PROFILE_DESCRIPTOR_LIST, seq1(seq2(uuid_elem(0x1101), DataElement::UInt16(0x0102))));
    record.set_service_name(name);
    record
}

/// Create HID service record
pub fn create_hid_record(name: &[u8]) -> (r: ServiceRecord)
    ensures
        r@ == hid_record(name@),
{
    let mut record = ServiceRecord::new(0);
    record.add_attribute(attr::SERVICE_CLASS_ID_LIST, seq1(uuid_elem(0x1124)));
    record.add_attribute(attr::PROTOCOL_DESCRIPTOR_LIST, seq2(seq2(uuid_elem(0x0100), DataElement::UInt16(0x0011)), seq1(uuid_elem(0x0011))));
    record.add_attribute(attr::ADDITIONAL_PROTOCOL_DESCRIPTOR_LISTS, seq1(seq2(seq2(uuid_elem(0x0100), DataElement::UInt16(0x0013)), seq1(uuid_elem(0x0011)))));
    record.set_service_name(name);
    record
}


// =============================================================================
// SDP SERVER
// =============================================================================

/// Index of the first record whose handle is not below `k` (or the end).
pub open spec fn handle_pos(s: Seq<(u32, RecordView)>, k: u32) -> int
    decreases s.len(),
{
    if s.len() == 0 { 0 } else if s[0].0 < k { 1 + handle_pos(s.drop_first(), k) } else { 0 }
}

/// The record stored under handle `k`.
pub open spec fn handle_lookup(s: Seq<(u32, RecordView)>, k: u32) -> Option<RecordView> {
    let p = handle_pos(s, k);
    if 0 <= p < s.len() && s[p].0 == k { Some(s[p].1) } else { None }
}

/// The records after storing `r` under handle `k` (replacing any there).
pub open spec fn handle_insert(s: Seq<(u32, RecordView)>, k: u32, r: RecordView) -> Seq<(u32, RecordView)> {
    let p = handle_pos(s, k);
    if 0 <= p < s.len() && s[p].0 == k { s.update(p, (k, r)) } else { s.insert(p, (k, r)) }
}

/// The records after dropping the one under handle `k`, if any.
pub open spec fn handle_remove(s: Seq<(u32, RecordView)>, k: u32) -> Seq<(u32, RecordView)> {
    let p = handle_pos(s, k);
    if 0 <= p < s.len() && s[p].0 == k { s.remove(p) } else { s }
}

/// Whether the handles strictly increase.
pub open spec fn handles_sorted(s: Seq<(u32, RecordView)>) -> bool {
    forall|i: int, j: int| #![trigger s[i], s[j]] 0 <= i < j < s.len() ==> s[i].0 < s[j].0
}

proof fn lemma_handle_pos(s: Seq<(u32, RecordView)>, k: u32)
    ensures
        0 <= handle_pos(s, k) <= s.len(),
        forall|j: int| 0 <= j < handle_pos(s, k) ==> (#[trigger] s[j]).0 < k,
        handle_pos(s, k) < s.len() ==> s[handle_pos(s, k)].0 >= k,
    decreases s.len(),
{
    if s.len() > 0 && s[0].0 < k {
        lemma_handle_pos(s.drop_first(), k);
        assert forall|j: int| 0 <= j < handle_pos(s, k) implies (#[trigger] s[j]).0 < k by {
            if j > 0 {
                assert(s[j] == s.drop_first()[j - 1]);
            }
        }
    }
}

/// Storing a record keeps the handles sorted, and a lookup of its handle
/// then gives it.
pub proof fn lemma_handle_insert(s: Seq<(u32, RecordView)>, k: u32, r: RecordView)
    requires
        handles_sorted(s),
    ensures
        handles_sorted(handle_insert(s, k, r)),
        handle_lookup(handle_insert(s, k, r), k) == Some(r),
{
    lemma_handle_pos(s, k);
    let p = handle_pos(s, k);
    let t = handle_insert(s, k, r);
    if !(p < s.len() && s[p].0 == k) {
        assert forall|i: int, j: int| #![trigger t[i], t[j]] 0 <= i < j < t.len() implies t[i].0 < t[j].0 by {
            if j < p {
                assert(t[i] == s[i] && t[j] == s[j]);
            } else if j == p {
                assert(t[i] == s[i]);
            } else if i < p {
                assert(t[i] == s[i] && t[j] == s[j - 1]);
            } else if i == p {
                assert(t[j] == s[j - 1]);
                if p < j - 1 {
                    assert(s[p].0 < s[j - 1].0);
                }
            } else {
                assert(t[i] == s[i - 1] && t[j] == s[j - 1]);
            }
        }
    } else {
        assert forall|i: int, j: int| #![trigger t[i], t[j]] 0 <= i < j < t.len() implies t[i].0 < t[j].0 by {
            assert(s[i].0 == t[i].0 && s[j].0 == t[j].0);
        }
    }
    lemma_handle_pos(t, k);
    let q = handle_pos(t, k);
    assert(t[p].0 == k);
    if q < p {
        assert(t[q].0 < t[p].0);
    }
    if q > p {
        assert(t[p].0 < k);
    }
}

/// What an SDP server holds.
pub struct ServerView {
    pub records: Seq<(u32, RecordView)>,
    pub next_handle: u32,
}

/// SDP server for service registration
pub struct SdpServer {
    /// Registered service records, by handle, in handle order
    records: Vec<(u32, ServiceRecord)>,
    /// Next record handle
    next_handle: u32,
}

/// A record entry as its handle and what the record holds.
pub open spec fn record_entry_view(e: (u32, ServiceRecord)) -> (u32, RecordView) {
    (e.0, e.1@)
}

impl View for SdpServer {
    type V = ServerView;

    closed spec fn view(&self) -> ServerView {
        ServerView {
            records: self.records@.map_values(|e: (u32, ServiceRecord)| record_entry_view(e)),
            next_handle: self.next_handle,
        }
    }
}

/// The server after registering `r`: the next handle is taken, written
/// into the record and its handle attribute, and the record stored under it.
pub open spec fn server_register(s: ServerView, r: RecordView) -> (ServerView, u32) {
    let h = s.next_handle;
    let rec = record_add(RecordView { handle: h, ..r }, attr::SERVICE_RECORD_HANDLE, ElementView::UInt32(h));
    (ServerView { records: handle_insert(s.records, h, rec), next_handle: s.next_handle.wrapping_add(1) }, h)
}

/// Whether a record has every requested UUID among its service classes.
pub open spec fn record_matches(r: RecordView, uuids: Seq<Seq<u8>>) -> bool {
    forall|i: int| 0 <= i < uuids.len() ==> class_ids(r.attributes).contains(#[trigger] uuids[i])
}

/// The handles of the matching records in order, stopping once `max` are
/// found (and after the first when `max` is 0); `found` are already taken.
pub open spec fn search_handles(recs: Seq<(u32, RecordView)>, uuids: Seq<Seq<u8>>, found: nat, max: nat) -> Seq<u32>
    decreases recs.len(),
{
    if recs.len() == 0 {
        Seq::empty()
    } else if record_matches(recs[0].1, uuids) {
        if found + 1 >= max {
            seq![recs[0].1.handle]
        } else {
            seq![recs[0].1.handle] + search_handles(recs.drop_first(), uuids, found + 1, max)
        }
    } else {
        search_handles(recs.drop_first(), uuids, found, max)
    }
}

/// The number of matching records.
pub open spec fn matching_count(recs: Seq<(u32, RecordView)>, uuids: Seq<Seq<u8>>) -> nat
    decreases recs.len(),
{
    if recs.len() == 0 {
        0
    } else {
        matching_count(recs.drop_last(), uuids) + if record_matches(recs.last().1, uuids) { 1nat } else { 0nat }
    }
}

/// Handles, each as four big-endian bytes.
pub open spec fn handles_bytes(hs: Seq<u32>) -> Seq<u8>
    decreases hs.len(),
{
    if hs.len() == 0 { Seq::empty() } else { handles_bytes(hs.drop_last()) + be32(hs.last()) }
}

/// The UUIDs of a request's UUID list.
pub open spec fn list_uuids(e: ElementView) -> Seq<Seq<u8>> {
    match e {
        ElementView::Sequence(s) => uuids_in(s),
        _ => Seq::empty(),
    }
}

/// The attribute ranges an ID list asks for; all attributes when none.
pub open spec fn attr_ranges_in(s: Seq<ElementView>) -> Seq<(u16, u16)>
    decreases s.len(),
{
    if s.len() == 0 {
        Seq::empty()
    } else {
        match s.last() {
            ElementView::UInt16(id) => attr_ranges_in(s.drop_last()).push((id, id)),
            ElementView::UInt32(r) => attr_ranges_in(s.drop_last()).push(((r / 65536) as u16, (r % 65536) as u16)),
            _ => attr_ranges_in(s.drop_last()),
        }
    }
}

/// The attribute ranges of a request's attribute ID list.
pub open spec fn attr_ranges(e: ElementView) -> Seq<(u16, u16)> {
    let rs = match e {
        ElementView::Sequence(s) => attr_ranges_in(s),
        _ => Seq::empty(),
    };
    if rs.len() == 0 { seq![(0u16, 0xFFFFu16)] } else { rs }
}

/// A record's attributes in the ranges, one serialized list per range.
pub open spec fn ranges_data(attrs: Seq<(u16, ElementView)>, rs: Seq<(u16, u16)>) -> Seq<u8>
    decreases rs.len(),
{
    if rs.len() == 0 {
        Seq::empty()
    } else {
        ranges_data(attrs, rs.drop_last()) + encode(ElementView::Sequence(range_pairs(attrs, rs.last().0, rs.last().1)))
    }
}

/// `n` empty sequences.
pub open spec fn empty_sequences(n: nat) -> Seq<ElementView>
    decreases n,
{
    if n == 0 { Seq::empty() } else { empty_sequences((n - 1) as nat).push(ElementView::Sequence(Seq::empty())) }
}

/// An error response: its PDU ID, transaction ID and parameters.
pub open spec fn error_pdu(tid: u16, e: SdpError) -> (u8, u16, Seq<u8>) {
    (SdpPduId::ErrorResponse.code(), tid, be16(e.code()))
}

/// The answer to a service search request.
pub open spec fn search_response(recs: Seq<(u32, RecordView)>, tid: u16, params: Seq<u8>) -> (u8, u16, Seq<u8>) {
    match decode(params) {
        None => error_pdu(tid, SdpError::InvalidRequestSyntax),
        Some(d) => {
            let off = d.1 as int;
            if params.len() < off + 2 {
                error_pdu(tid, SdpError::InvalidRequestSyntax)
            } else {
                let max = from_le16(params[off + 1], params[off]);
                let hs = search_handles(recs, list_uuids(d.0), 0, max as nat);
                (SdpPduId::ServiceSearchResponse.code(), tid,
                    be16(hs.len() as u16) + be16(hs.len() as u16) + handles_bytes(hs) + seq![0u8])
            }
        },
    }
}

/// The answer to a service attribute request: the record's attributes in
/// the asked ranges, cut to the maximum byte count.
pub open spec fn attribute_response(recs: Seq<(u32, RecordView)>, tid: u16, params: Seq<u8>) -> (u8, u16, Seq<u8>) {
    if params.len() < 6 {
        error_pdu(tid, SdpError::InvalidRequestSyntax)
    } else {
        let handle = from_le32(params[3], params[2], params[1], params[0]);
        let max = from_le16(params[5], params[4]);
        match decode(params.subrange(6, params.len() as int)) {
            None => error_pdu(tid, SdpError::InvalidRequestSyntax),
            Some(d) => match handle_lookup(recs, handle) {
                None => error_pdu(tid, SdpError::InvalidServiceRecordHandle),
                Some(rec) => {
                    let data = ranges_data(rec.attributes, attr_ranges(d.0));
                    let cut = if data.len() > max { data.subrange(0, max as int) } else { data };
                    (SdpPduId::ServiceAttributeResponse.code(), tid, be16(cut.len() as u16) + cut + seq![0u8])
                },
            },
        }
    }
}

/// The answer to a service search attribute request: one (empty) list per
/// matching record, cut to the maximum byte count.
pub open spec fn search_attribute_response(recs: Seq<(u32, RecordView)>, tid: u16, params: Seq<u8>) -> (u8, u16, Seq<u8>) {
    match decode(params) {
        None => error_pdu(tid, SdpError::InvalidRequestSyntax),
        Some(d) => {
            let off = d.1 as int;
            if params.len() < off + 2 {
                error_pdu(tid, SdpError::InvalidRequestSyntax)
            } else {
                let max = from_le16(params[off + 1], params[off]);
                match decode(params.subrange(off + 2, params.len() as int)) {
                    None => error_pdu(tid, SdpError::InvalidRequestSyntax),
                    Some(_) => {
                        let data = encode(ElementView::Sequence(empty_sequences(matching_count(recs, list_uuids(d.0)))));
                        let m = if data.len() < max { data.len() } else { max as nat };
                        (SdpPduId::ServiceSearchAttributeResponse.code(), tid, be16(m as u16) + data.subrange(0, m as int) + seq![0u8])
                    },
                }
            }
        },
    }
}

/// The answer to a request PDU, by its ID.
pub open spec fn request_response(recs: Seq<(u32, RecordView)>, id: u8, tid: u16, params: Seq<u8>) -> (u8, u16, Seq<u8>) {
    if id == SdpPduId::ServiceSearchRequest.code() {
        search_response(recs, tid, params)
    } else if id == SdpPduId::ServiceAttributeRequest.code() {
        attribute_response(recs, tid, params)
    } else if id == SdpPduId::ServiceSearchAttributeRequest.code() {
        search_attribute_response(recs, tid, params)
    } else {
        error_pdu(tid, SdpError::InvalidRequestSyntax)
    }
}

/// Whether a PDU holds the given ID, transaction ID and parameters.
pub open spec fn pdu_is(p: SdpPdu, v: (u8, u16, Seq<u8>)) -> bool {
    p.pdu_id == v.0 && p.transaction_id == v.1 && p.params@ == v.2
}

/// Whether two UUIDs are the same.
fn uuid_equal(a: &Uuid, b: &Uuid) -> (r: bool)
    ensures
        r == (a.bytes@ == b.bytes@),
{
    crate::text::bytes_equal(a.bytes.as_slice(), b.bytes.as_slice())
}

/// Whether a record has every requested UUID among its service classes.
fn matches_uuids(record: &ServiceRecord, uuids: &Vec<Uuid>) -> (r: bool)
    ensures
        r == record_matches(record@, uuids@.map_values(|u: Uuid| u.bytes@)),
{
    let ids = record.service_class_ids();
    let ghost cv = ids@.map_values(|u: Uuid| u.bytes@);
    let ghost uv = uuids@.map_values(|u: Uuid| u.bytes@);
    let mut i: usize = 0;
    while i < uuids.len()
        invariant
            cv == class_ids(record@.attributes),
            cv == ids@.map_values(|u: Uuid| u.bytes@),
            uv == uuids@.map_values(|u: Uuid| u.bytes@),
            i <= uv.len(),
            forall|k: int| 0 <= k < i ==> cv.contains(#[trigger] uv[k]),
        decreases uv.len() - i,
    {
        let mut found = false;
        let mut j: usize = 0;
        while j < ids.len() && !found
            invariant
                cv == ids@.map_values(|u: Uuid| u.bytes@),
                uv == uuids@.map_values(|u: Uuid| u.bytes@),
                i < uv.len(),
                j <= cv.len(),
                found ==> cv.contains(uv[i as int]),
                !found ==> forall|m: int| 0 <= m < j ==> cv[m] != uv[i as int],
            decreases cv.len() - j, if found { 0int } else { 1int },
        {
            if uuid_equal(&ids[j], &uuids[i]) {
                assert(cv[j as int] == uv[i as int]);
                found = true;
            } else {
                j = j + 1;
            }
        }
        if !found {
            assert(!cv.contains(uv[i as int]));
            return false;
        }
        i = i + 1;
    }
    true
}

/// The UUIDs of a request's UUID list.
fn uuids_of_list(list: &DataElement) -> (r: Vec<Uuid>)
    ensures
        r@.map_values(|u: Uuid| u.bytes@) == list_uuids(list@),
{
    let mut out: Vec<Uuid> = Vec::new();
    match list.as_sequence() {
        Some(items) => {
            let ghost sv = elements_view(items@);
            let mut i: usize = 0;
            assert(sv.subrange(0, 0) =~= Seq::<ElementView>::empty());
            while i < items.len()
                invariant
                    sv == elements_view(items@),
                    i <= sv.len(),
                    out@.map_values(|u: Uuid| u.bytes@) == uuids_in(sv.subrange(0, i as int)),
                decreases sv.len() - i,
            {
                assert(sv.subrange(0, i + 1).drop_last() =~= sv.subrange(0, i as int));
                assert(sv[i as int] == items@[i as int]@);
                match items[i].as_uuid() {
                    Some(u) => {
                        let ghost before = out@;
                        out.push(*u);
                        assert(out@.map_values(|u: Uuid| u.bytes@) =~= before.map_values(|u: Uuid| u.bytes@).push(u.bytes@));
                    },
                    None => {},
                }
                i = i + 1;
            }
            assert(sv.subrange(0, sv.len() as int) =~= sv);
        },
        None => {
            assert(out@.map_values(|u: Uuid| u.bytes@) =~= Seq::<Seq<u8>>::empty());
        },
    }
    out
}

impl SdpServer {
    /// Create new SDP server (handles start above the reserved ones)
    pub fn new() -> (r: Self)
        ensures
            r@ == (ServerView { records: Seq::empty(), next_handle: 0x10000 }),
    {
        let r = SdpServer { records: Vec::new(), next_handle: 0x10000 };
        assert(r@.records =~= Seq::<(u32, RecordView)>::empty());
        r
    }

    /// Position of the first record whose handle is not below `k`.
    fn position(&self, k: u32) -> (r: usize)
        ensures
            r == handle_pos(self@.records, k),
            r <= self@.records.len(),
    {
        let ghost s = self@.records;
        proof {
            lemma_handle_pos(s, k);
        }
        let mut i: usize = 0;
        while i < self.records.len() && self.records[i].0 < k
            invariant
                s == self@.records,
                i <= s.len(),
                forall|j: int| 0 <= j < i ==> (#[trigger] s[j]).0 < k,
                0 <= handle_pos(s, k) <= s.len(),
                forall|j: int| 0 <= j < handle_pos(s, k) ==> (#[trigger] s[j]).0 < k,
                handle_pos(s, k) < s.len() ==> s[handle_pos(s, k)].0 >= k,
            decreases s.len() - i,
        {
            assert(s[i as int].0 == self.records@[i as int].0);
            i = i + 1;
        }
        proof {
            if i < s.len() {
                assert(s[i as int].0 == self.records@[i as int].0);
            }
        }
        i
    }

    /// Register service record: it gets the next handle, also as its
    /// handle attribute
    pub fn register(&mut self, record: ServiceRecord) -> (r: u32)
        ensures
            (final(self)@, r) == server_register(old(self)@, record@),
    {
        let handle = self.next_handle;
        self.next_handle = self.next_handle.wrapping_add(1);
        let mut record = record;
        record.handle = handle;
        record.add_attribute(attr::SERVICE_RECORD_HANDLE, DataElement::UInt32(handle));
        let ghost s = self@.records;
        let ghost rv = record@;
        let p = self.position(handle);
        if p < self.records.len() && self.records[p].0 == handle {
            assert(s[p as int].0 == self.records@[p as int].0);
            self.records.set(p, (handle, record));
        } else {
            proof {
                if p < s.len() {
                    assert(s[p as int].0 == self.records@[p as int].0);
                }
            }
            self.records.insert(p, (handle, record));
        }
        assert(self@.records =~= handle_insert(s, handle, rv));
        handle
    }

    /// Unregister service record; whether one was there
    pub fn unregister(&mut self, handle: u32) -> (r: bool)
        ensures
            r == handle_lookup(old(self)@.records, handle) is Some,
            final(self)@ == (ServerView { records: handle_remove(old(self)@.records, handle), ..old(self)@ }),
    {
        let ghost s = self@.records;
        let p = self.position(handle);
        if p < self.records.len() && self.records[p].0 == handle {
            assert(s[p as int].0 == self.records@[p as int].0);
            self.records.remove(p);
            assert(self@.records =~= s.remove(p as int));
            true
        } else {
            proof {
                if p < s.len() {
                    assert(s[p as int].0 == self.records@[p as int].0);
                }
            }
            false
        }
    }

    /// Get a copy of a service record
    pub fn get(&self, handle: u32) -> (r: Option<ServiceRecord>)
        ensures
            match handle_lookup(self@.records, handle) {
                Some(rec) => r matches Some(x) && x@ == rec,
                None => r is None,
            },
    {
        let ghost s = self@.records;
        let p = self.position(handle);
        if p < self.records.len() && self.records[p].0 == handle {
            assert(s[p as int] == record_entry_view(self.records@[p as int]));
            Some(self.records[p].1.clone())
        } else {
            proof {
                if p < s.len() {
                    assert(s[p as int].0 == self.records@[p as int].0);
                }
            }
            None
        }
    }

    /// The attribute ranges an attribute ID list asks for
    fn parse_attr_ranges(&self, attr_list: &DataElement) -> (r: Vec<(u16, u16)>)
        ensures
            r@ == attr_ranges(attr_list@),
    {
        let mut ranges: Vec<(u16, u16)> = Vec::new();
        match attr_list.as_sequence() {
            Some(items) => {
                let ghost sv = elements_view(items@);
                let mut i: usize = 0;
                assert(sv.subrange(0, 0) =~= Seq::<ElementView>::empty());
                while i < items.len()
                    invariant
                        sv == elements_view(items@),
                        i <= sv.len(),
                        ranges@ == attr_ranges_in(sv.subrange(0, i as int)),
                    decreases sv.len() - i,
                {
                    assert(sv.subrange(0, i + 1).drop_last() =~= sv.subrange(0, i as int));
                    assert(sv[i as int] == items@[i as int]@);
                    match &items[i] {
                        DataElement::UInt16(id) => ranges.push((*id, *id)),
                        DataElement::UInt32(range) => {
                            let start = (*range / 65536) as u16;
                            let end = (*range % 65536) as u16;
                            ranges.push((start, end));
                        },
                        _ => {},
                    }
                    i = i + 1;
                }
                assert(sv.subrange(0, sv.len() as int) =~= sv);
            },
            None => {},
        }
        if ranges.len() == 0 {
            ranges.push((0, 0xFFFF));
        }
        ranges
    }

    fn handle_service_search(&self, pdu: &SdpPdu) -> (r: SdpPdu)
        ensures
            pdu_is(r, search_response(self@.records, pdu.transaction_id, pdu.params@)),
    {
        let (uuid_list, offset) = match DataElement::from_bytes(pdu.params.as_slice()) {
            Some(p) => p,
            None => return SdpPdu::error_response(pdu.transaction_id, SdpError::InvalidRequestSyntax),
        };
        let uuids = uuids_of_list(&uuid_list);
        if pdu.params.len() - offset < 2 {
            return SdpPdu::error_response(pdu.transaction_id, SdpError::InvalidRequestSyntax);
        }
        let max_records = make_u16(pdu.params[offset + 1], pdu.params[offset]) as usize;
        let ghost recs = self@.records;
        let ghost uv = uuids@.map_values(|u: Uuid| u.bytes@);
        let ghost total = search_handles(recs, uv, 0, max_records as nat);
        let mut handles: Vec<u32> = Vec::new();
        let mut i: usize = 0;
        let mut done = false;
        assert(recs.subrange(0, recs.len() as int) =~= recs);
        while i < self.records.len() && !done
            invariant
                recs == self@.records,
                uv == uuids@.map_values(|u: Uuid| u.bytes@),
                total == search_handles(recs, uv, 0, max_records as nat),
                i <= recs.len(),
                !done ==> handles@ + search_handles(recs.subrange(i as int, recs.len() as int), uv, handles@.len(), max_records as nat) == total,
                done ==> handles@ == total,
            decreases recs.len() - i, if done { 0int } else { 1int },
        {
            let ghost rest = recs.subrange(i as int, recs.len() as int);
            assert(rest[0] == recs[i as int]);
            assert(rest.drop_first() =~= recs.subrange(i + 1, recs.len() as int));
            assert(recs[i as int] == record_entry_view(self.records@[i as int]));
            if matches_uuids(&self.records[i].1, &uuids) {
                let ghost before = handles@;
                handles.push(self.records[i].1.handle);
                if handles.len() >= max_records {
                    done = true;
                    assert(handles@ =~= before + seq![recs[i as int].1.handle]);
                } else {
                    assert(handles@ =~= before + seq![recs[i as int].1.handle]);
                }
            }
            i = i + 1;
        }
        proof {
            if !done {
                assert(search_handles(recs.subrange(i as int, recs.len() as int), uv, handles@.len(), max_records as nat) =~= Seq::<u32>::empty());
                assert(handles@ + Seq::<u32>::empty() =~= handles@);
            }
        }
        let mut params: Vec<u8> = Vec::new();
        push_u16_be(&mut params, handles.len() as u16);
        push_u16_be(&mut params, handles.len() as u16);
        let ghost base = params@;
        let mut k: usize = 0;
        assert(handles@.subrange(0, 0) =~= Seq::<u32>::empty());
        while k < handles.len()
            invariant
                k <= handles@.len(),
                params@ == base + handles_bytes(handles@.subrange(0, k as int)),
            decreases handles@.len() - k,
        {
            push_u32_be(&mut params, handles[k]);
            let x = handles[k];
            assert(seq![le32(x)[3], le32(x)[2], le32(x)[1], le32(x)[0]] =~= be32(x));
            assert(handles@.subrange(0, k + 1).drop_last() =~= handles@.subrange(0, k as int));
            assert(params@ =~= base + handles_bytes(handles@.subrange(0, k + 1)));
            k = k + 1;
        }
        assert(handles@.subrange(0, handles@.len() as int) =~= handles@);
        params.push(0);
        assert(uv == list_uuids(uuid_list@));
        assert(params@ =~= be16(handles@.len() as u16) + be16(handles@.len() as u16) + handles_bytes(handles@) + seq![0u8]);
        SdpPdu::new(SdpPduId::ServiceSearchResponse, pdu.transaction_id, params)
    }

    fn handle_service_attribute(&self, pdu: &SdpPdu) -> (r: SdpPdu)
        ensures
            pdu_is(r, attribute_response(self@.records, pdu.transaction_id, pdu.params@)),
    {
        if pdu.params.len() < 6 {
            return SdpPdu::error_response(pdu.transaction_id, SdpError::InvalidRequestSyntax);
        }
        let handle = make_u32(pdu.params[3], pdu.params[2], pdu.params[1], pdu.params[0]);
        let max_bytes = make_u16(pdu.params[5], pdu.params[4]) as usize;
        let tail = copy_range(pdu.params.as_slice(), 6, pdu.params.len());
        let (attr_list, _) = match DataElement::from_bytes(tail.as_slice()) {
            Some(p) => p,
            None => return SdpPdu::error_response(pdu.transaction_id, SdpError::InvalidRequestSyntax),
        };
        let record = match self.get(handle) {
            Some(r) => r,
            None => return SdpPdu::error_response(pdu.transaction_id, SdpError::InvalidServiceRecordHandle),
        };
        let ranges = self.parse_attr_ranges(&attr_list);
        let mut attr_data: Vec<u8> = Vec::new();
        let mut k: usize = 0;
        assert(ranges@.subrange(0, 0) =~= Seq::<(u16, u16)>::empty());
        while k < ranges.len()
            invariant
                k <= ranges@.len(),
                attr_data@ == ranges_data(record@.attributes, ranges@.subrange(0, k as int)),
            decreases ranges@.len() - k,
        {
            let (start, end) = ranges[k];
            let part = record.serialize_attribute_range(start, end);
            extend_bytes(&mut attr_data, part.as_slice());
            assert(ranges@.subrange(0, k + 1).drop_last() =~= ranges@.subrange(0, k as int));
            k = k + 1;
        }
        assert(ranges@.subrange(0, ranges@.len() as int) =~= ranges@);
        let ghost data = attr_data@;
        let cut = if attr_data.len() > max_bytes {
            copy_range(attr_data.as_slice(), 0, max_bytes)
        } else {
            attr_data
        };
        let mut params: Vec<u8> = Vec::new();
        push_u16_be(&mut params, cut.len() as u16);
        extend_bytes(&mut params, cut.as_slice());
        params.push(0);
        assert(tail@ =~= pdu.params@.subrange(6, pdu.params@.len() as int));
        assert(data == ranges_data(record@.attributes, attr_ranges(attr_list@)));
        assert(params@ =~= be16(cut@.len() as u16) + cut@ + seq![0u8]);
        SdpPdu::new(SdpPduId::ServiceAttributeResponse, pdu.transaction_id, params)
    }

    fn handle_service_search_attribute(&self, pdu: &SdpPdu) -> (r: SdpPdu)
        ensures
            pdu_is(r, search_attribute_response(self@.records, pdu.transaction_id, pdu.params@)),
    {
        let (uuid_list, offset) = match DataElement::from_bytes(pdu.params.as_slice()) {
            Some(p) => p,
            None => return SdpPdu::error_response(pdu.transaction_id, SdpError::InvalidRequestSyntax),
        };
        let uuids = uuids_of_list(&uuid_list);
        if pdu.params.len() - offset < 2 {
            return SdpPdu::error_response(pdu.transaction_id, SdpError::InvalidRequestSyntax);
        }
        let max_bytes = make_u16(pdu.params[offset + 1], pdu.params[offset]) as usize;
        let tail = copy_range(pdu.params.as_slice(), offset + 2, pdu.params.len());
        match DataElement::from_bytes(tail.as_slice()) {
            Some(_) => {},
            None => return SdpPdu::error_response(pdu.transaction_id, SdpError::InvalidRequestSyntax),
        }
        let ghost recs = self@.records;
        let ghost uv = uuids@.map_values(|u: Uuid| u.bytes@);
        let mut results: Vec<DataElement> = Vec::new();
        let mut i: usize = 0;
        assert(recs.subrange(0, 0) =~= Seq::<(u32, RecordView)>::empty());
        while i < self.records.len()
            invariant
                recs == self@.records,
                uv == uuids@.map_values(|u: Uuid| u.bytes@),
                i <= recs.len(),
                elements_view(results@) == empty_sequences(matching_count(recs.subrange(0, i as int), uv)),
            decreases recs.len() - i,
        {
            assert(recs.subrange(0, i + 1).drop_last() =~= recs.subrange(0, i as int));
            assert(recs[i as int] == record_entry_view(self.records@[i as int]));
            if matches_uuids(&self.records[i].1, &uuids) {
                let ghost before = results@;
                let empty: Vec<DataElement> = Vec::new();
                let e = DataElement::Sequence(empty);
                assert(elements_view(empty@) =~= Seq::<ElementView>::empty());
                assert(elements_view(empty@) =~= match e@ { ElementView::Sequence(x) => x, _ => Seq::empty() });
                results.push(e);
                assert(elements_view(results@) =~= elements_view(before).push(ElementView::Sequence(Seq::empty())));
            }
            i = i + 1;
        }
        assert(recs.subrange(0, recs.len() as int) =~= recs);
        let all = DataElement::Sequence(results);
        assert(elements_view(results@) =~= match all@ { ElementView::Sequence(x) => x, _ => Seq::empty() });
        let result_data = all.to_bytes();
        let m = if result_data.len() < max_bytes { result_data.len() } else { max_bytes };
        let mut params: Vec<u8> = Vec::new();
        push_u16_be(&mut params, m as u16);
        let cut = copy_range(result_data.as_slice(), 0, m);
        extend_bytes(&mut params, cut.as_slice());
        params.push(0);
        assert(tail@ =~= pdu.params@.subrange(offset + 2, pdu.params@.len() as int));
        assert(uv == list_uuids(uuid_list@));
        assert(params@ =~= be16(m as u16) + result_data@.subrange(0, m as int) + seq![0u8]);
        SdpPdu::new(SdpPduId::ServiceSearchAttributeResponse, pdu.transaction_id, params)
    }

    /// Handle incoming SDP request: the response PDU's bytes, or nothing
    /// when the request is not a whole PDU
    pub fn handle_request(&self, data: &[u8]) -> (r: Option<Vec<u8>>)
        ensures
            match pdu_parse(data@) {
                Some(p) => r matches Some(out) && ({
                    let v = request_response(self@.records, p.0, p.1, p.2);
                    out@ == pdu_bytes(v.0, v.1, v.2)
                }),
                None => r is None,
            },
    {
        let pdu = match SdpPdu::from_bytes(data) {
            Some(p) => p,
            None => return None,
        };
        let response = if pdu.pdu_id == SdpPduId::ServiceSearchRequest.to_u8() {
            self.handle_service_search(&pdu)
        } else if pdu.pdu_id == SdpPduId::ServiceAttributeRequest.to_u8() {
            self.handle_service_attribute(&pdu)
        } else if pdu.pdu_id == SdpPduId::ServiceSearchAttributeRequest.to_u8() {
            self.handle_service_search_attribute(&pdu)
        } else {
            SdpPdu::error_response(pdu.transaction_id, SdpError::InvalidRequestSyntax)
        };
        Some(response.to_bytes())
    }
}

/// A record registered with the server is found again under the handle
/// it was given, with that handle in its handle attribute.
pub proof fn lemma_register_then_get(s: ServerView, r: RecordView)
    requires
        handles_sorted(s.records),
    ensures
        handles_sorted(server_register(s, r).0.records),
        handle_lookup(server_register(s, r).0.records, server_register(s, r).1) matches Some(rec)
            && rec.handle == server_register(s, r).1
            && record_get(rec.attributes, attr::SERVICE_RECORD_HANDLE) == Some(ElementView::UInt32(server_register(s, r).1)),
{
    let h = s.next_handle;
    let rec = record_add(RecordView { handle: h, ..r }, attr::SERVICE_RECORD_HANDLE, ElementView::UInt32(h));
    lemma_handle_insert(s.records, h, rec);
    lemma_add_then_get(RecordView { handle: h, ..r }, attr::SERVICE_RECORD_HANDLE, ElementView::UInt32(h));
}


// =============================================================================
// SDP CLIENT
// =============================================================================

/// SDP client for service discovery
pub struct SdpClient {
    /// Next transaction ID
    next_tid: u32,
}

impl View for SdpClient {
    type V = u32;

    /// The next transaction ID counter.
    closed spec fn view(&self) -> u32 {
        self.next_tid
    }
}

impl SdpClient {
    /// Create new SDP client
    pub fn new() -> (r: Self)
        ensures
            r@ == 1,
    {
        SdpClient { next_tid: 1 }
    }

    /// Allocate transaction ID: the low 16 bits of the counter
    fn alloc_tid(&mut self) -> (r: u16)
        ensures
            r == (old(self)@ % 65536) as u16,
            final(self)@ == old(self)@.wrapping_add(1),
    {
        let t = self.next_tid;
        self.next_tid = self.next_tid.wrapping_add(1);
        (t % 65536) as u16
    }

    /// Send PDU (the L2CAP channel carries its bytes)
    fn send_pdu(&self, handle: u16, pdu: &SdpPdu) -> (r: Result<(), BluetoothError>)
        ensures
            r is Ok,
    {
        let _data = pdu.to_bytes();
        Ok(())
    }

    /// Search for services: sends the request; the answer arrives later,
    /// so no handles are known yet
    pub fn search_services(&mut self, handle: u16, service_uuids: &[Uuid]) -> (r: Result<Vec<u32>, BluetoothError>)
        ensures
            r matches Ok(v) && v@ == Seq::<u32>::empty(),
            final(self)@ == old(self)@.wrapping_add(1),
    {
        let tid = self.alloc_tid();
        let pdu = SdpPdu::service_search_request(tid, service_uuids, 100, &[]);
        match self.send_pdu(handle, &pdu) {
            Ok(()) => {},
            Err(e) => return Err(e),
        }
        Ok(Vec::new())
    }

    /// Get service attributes: sends the request; without the answer the
    /// call times out
    pub fn get_attributes(&mut self, handle: u16, record_handle: u32, attr_ranges: &[(u16, u16)]) -> (r: Result<ServiceRecord, BluetoothError>)
        ensures
            r matches Err(BluetoothError::Timeout),
            final(self)@ == old(self)@.wrapping_add(1),
    {
        let tid = self.alloc_tid();
        let pdu = SdpPdu::service_attribute_request(tid, record_handle, SDP_MAX_ATTR_BYTE_COUNT, attr_ranges, &[]);
        match self.send_pdu(handle, &pdu) {
            Ok(()) => {},
            Err(e) => return Err(e),
        }
        Err(BluetoothError::Timeout)
    }

    /// Search and get attributes: sends the request; no records are known
    /// yet
    pub fn search_attributes(&mut self, handle: u16, service_uuids: &[Uuid], attr_ranges: &[(u16, u16)]) -> (r: Result<Vec<ServiceRecord>, BluetoothError>)
        ensures
            r matches Ok(v) && v@.len() == 0,
            final(self)@ == old(self)@.wrapping_add(1),
    {
        let tid = self.alloc_tid();
        let pdu = SdpPdu::service_search_attribute_request(tid, service_uuids, SDP_MAX_ATTR_BYTE_COUNT, attr_ranges, &[]);
        match self.send_pdu(handle, &pdu) {
            Ok(()) => {},
            Err(e) => return Err(e),
        }
        Ok(Vec::new())
    }

    /// Handle incoming SDP data: a whole PDU is read; responses carry
    /// nothing the client keeps
    pub fn handle_data(&self, data: &[u8]) {
        match SdpPdu::from_bytes(data) {
            Some(pdu) => self.handle_pdu(&pdu),
            None => {},
        }
    }

    /// Handle PDU by its ID
    fn handle_pdu(&self, pdu: &SdpPdu) {
        if pdu.pdu_id == SdpPduId::ServiceSearchResponse.to_u8() {
            let _handles = search_response_handles(pdu.params.as_slice());
        }
    }
}

/// The record handles a service search response lists (as many of the
/// announced count as are present).
pub open spec fn listed_handles(params: Seq<u8>, count: nat, offset: int) -> Seq<u32>
    decreases count,
{
    if count == 0 || offset + 4 > params.len() {
        Seq::empty()
    } else {
        seq![from_le32(params[offset + 3], params[offset + 2], params[offset + 1], params[offset])]
            + listed_handles(params, (count - 1) as nat, offset + 4)
    }
}

/// The record handles in a service search response's parameters.
pub fn search_response_handles(params: &[u8]) -> (r: Vec<u32>)
    ensures
        params@.len() < 5 ==> r@ == Seq::<u32>::empty(),
        params@.len() >= 5 ==> r@ == listed_handles(params@, from_le16(params@[3], params@[2]) as nat, 4),
{
    let mut handles: Vec<u32> = Vec::new();
    if params.len() < 5 {
        return handles;
    }
    let current_count = make_u16(params[3], params[2]);
    let ghost total = listed_handles(params@, current_count as nat, 4);
    let mut offset: usize = 4;
    let mut left: u16 = current_count;
    while left > 0 && params.len() - offset >= 4
        invariant
            4 <= offset <= params@.len(),
            left <= current_count,
            total == listed_handles(params@, current_count as nat, 4),
            handles@ + listed_handles(params@, left as nat, offset as int) == total,
        decreases left,
    {
        let h = make_u32(params[offset + 3], params[offset + 2], params[offset + 1], params[offset]);
        let ghost before = handles@;
        handles.push(h);
        assert(before + listed_handles(params@, left as nat, offset as int)
            =~= handles@ + listed_handles(params@, (left - 1) as nat, offset + 4));
        offset = offset + 4;
        left = left - 1;
    }
    assert(listed_handles(params@, left as nat, offset as int) =~= Seq::<u32>::empty());
    assert(handles@ + Seq::<u32>::empty() =~= handles@);
    handles
}

} // verus!
