//! Padded logical EPATHs of class, instance, and attribute segments.

use vstd::prelude::*;
use vstd::string::*;

use crate::error::{agrees, Error, Fault, Result};
use crate::text::{dec, push_dec};
use crate::wire::{from_le16, get_u16_le, get_u8, le16, lemma_le16, put_u16_le, put_u8};

verus! {

const CLASS_8: u8 = 0x20;
const CLASS_16: u8 = 0x21;
const INSTANCE_8: u8 = 0x24;
const INSTANCE_16: u8 = 0x25;
const ATTRIBUTE_8: u8 = 0x30;
const ATTRIBUTE_16: u8 = 0x31;

/// How logical segments are encoded in a padded EPATH.
#[derive(Debug, Clone, Copy, PartialEq, Eq, Structural, Default)]
pub enum SegmentSize {
    /// Always 16-bit segments (`0x21 0x00 lo hi`).
    #[default]
    Bits16,
    /// 8-bit segments when the value fits, 16-bit otherwise. Some devices
    /// (e.g. Yaskawa MP3300iec) only accept 8-bit segments.
    Bits8,
}

/// The IDs an [`EPath`] holds.
#[derive(Debug, Clone, Copy, PartialEq, Eq, Structural)]
pub struct EPathView {
    pub class_id: u16,
    pub instance_id: Option<u16>,
    pub attribute_id: Option<u16>,
}

/// A logical path of class, instance, and attribute IDs.
#[derive(Debug, Clone, Copy, PartialEq, Eq, Structural, Default)]
pub struct EPath {
    class_id: u16,
    instance_id: Option<u16>,
    attribute_id: Option<u16>,
}

impl View for EPath {
    type V = EPathView;

    closed spec fn view(&self) -> EPathView {
        EPathView { class_id: self.class_id, instance_id: self.instance_id, attribute_id: self.attribute_id }
    }
}

/// One logical segment: the 8-bit form `seg8 value` when asked for and the
/// value fits, else the padded 16-bit form `seg16 0 lo hi`.
pub open spec fn segment_bytes(seg8: u8, seg16: u8, value: u16, size: SegmentSize) -> Seq<u8> {
    if size == SegmentSize::Bits8 && value <= 0xFF {
        seq![seg8, value as u8]
    } else {
        seq![seg16, 0u8] + le16(value)
    }
}

/// The bytes of an optional segment: none when the ID is absent.
pub open spec fn opt_segment_bytes(seg8: u8, seg16: u8, value: Option<u16>, size: SegmentSize) -> Seq<u8> {
    match value {
        Some(v) => segment_bytes(seg8, seg16, v, size),
        None => seq![],
    }
}

/// The encoding of a path: class, then instance and attribute if present.
pub open spec fn encode_path(p: EPathView, size: SegmentSize) -> Seq<u8> {
    segment_bytes(0x20, 0x21, p.class_id, size)
        + opt_segment_bytes(0x24, 0x25, p.instance_id, size)
        + opt_segment_bytes(0x30, 0x31, p.attribute_id, size)
}

/// `p` with the ID of segment type `seg` set to `value`.
pub open spec fn set_segment(p: EPathView, seg: u8, value: u16) -> EPathView {
    if seg == 0x20 || seg == 0x21 {
        EPathView { class_id: value, ..p }
    } else if seg == 0x24 || seg == 0x25 {
        EPathView { instance_id: Some(value), ..p }
    } else {
        EPathView { attribute_id: Some(value), ..p }
    }
}

pub open spec fn is_segment_8(seg: u8) -> bool {
    seg == 0x20 || seg == 0x24 || seg == 0x30
}

pub open spec fn is_segment_16(seg: u8) -> bool {
    seg == 0x21 || seg == 0x25 || seg == 0x31
}

/// Decoding the segments of `s` on top of `p`: each segment sets its ID; an
/// unknown segment type is invalid, and a segment cut short is truncated.
pub open spec fn decode_segments(p: EPathView, s: Seq<u8>) -> core::result::Result<EPathView, Fault>
    decreases s.len(),
{
    if s.len() == 0 {
        Ok(p)
    } else if is_segment_8(s[0]) {
        if s.len() < 2 {
            Err(Fault::Truncated)
        } else {
            decode_segments(set_segment(p, s[0], s[1] as u16), s.skip(2))
        }
    } else if is_segment_16(s[0]) {
        if s.len() < 4 {
            Err(Fault::Truncated)
        } else {
            decode_segments(set_segment(p, s[0], from_le16(s.skip(2))), s.skip(4))
        }
    } else {
        Err(Fault::Invalid)
    }
}

/// Decoding a whole path, starting from class 0 and no instance or attribute.
pub open spec fn decode_path(s: Seq<u8>) -> core::result::Result<EPathView, Fault> {
    decode_segments(EPathView { class_id: 0, instance_id: None, attribute_id: None }, s)
}

/// `"[classId=C objectId=I attributeId=A]"`, leaving out absent IDs.
pub open spec fn display_path(p: EPathView) -> Seq<char> {
    "[classId="@ + dec(p.class_id as nat)
        + (match p.instance_id {
            Some(id) => " objectId="@ + dec(id as nat),
            None => seq![],
        })
        + (match p.attribute_id {
            Some(id) => " attributeId="@ + dec(id as nat),
            None => seq![],
        })
        + "]"@
}

impl EPath {
    pub fn class(class_id: u16) -> (p: Self)
        ensures
            p@ == (EPathView { class_id, instance_id: None, attribute_id: None }),
    {
        Self { class_id, instance_id: None, attribute_id: None }
    }

    pub fn instance(class_id: u16, instance_id: u16) -> (p: Self)
        ensures
            p@ == (EPathView { class_id, instance_id: Some(instance_id), attribute_id: None }),
    {
        Self { class_id, instance_id: Some(instance_id), attribute_id: None }
    }

    pub fn attribute(class_id: u16, instance_id: u16, attribute_id: u16) -> (p: Self)
        ensures
            p@ == (EPathView { class_id, instance_id: Some(instance_id), attribute_id: Some(attribute_id) }),
    {
        Self { class_id, instance_id: Some(instance_id), attribute_id: Some(attribute_id) }
    }

    pub fn class_id(&self) -> (r: u16)
        ensures
            r == self@.class_id,
    {
        self.class_id
    }

    pub fn instance_id(&self) -> (r: Option<u16>)
        ensures
            r == self@.instance_id,
    {
        self.instance_id
    }

    pub fn attribute_id(&self) -> (r: Option<u16>)
        ensures
            r == self@.attribute_id,
    {
        self.attribute_id
    }

    /// Two paths with the same IDs are the same path.
    pub proof fn lemma_view_eq(a: EPath, b: EPath)
        requires
            a@ == b@,
        ensures
            a == b,
    {
    }

    /// Encodes the path; its size in 16-bit words is `len() / 2`.
    pub fn encode(&self, size: SegmentSize) -> (out: Vec<u8>)
        ensures
            out@ == encode_path(self@, size),
    {
        let mut out: Vec<u8> = Vec::with_capacity(12);
        put_segment(&mut out, CLASS_8, CLASS_16, self.class_id, size);
        if let Some(id) = self.instance_id {
            put_segment(&mut out, INSTANCE_8, INSTANCE_16, id, size);
        }
        if let Some(id) = self.attribute_id {
            put_segment(&mut out, ATTRIBUTE_8, ATTRIBUTE_16, id, size);
        }
        assert(out@ =~= encode_path(self@, size));
        out
    }

    /// Decodes a padded path containing class, instance, and attribute segments.
    pub fn decode(data: &[u8]) -> (r: Result<Self>)
        ensures
            agrees(r, decode_path(data@)),
    {
        let mut rd = data;
        let mut path = EPath { class_id: 0, instance_id: None, attribute_id: None };
        let ghost orig = data@;
        assert(path@ == (EPathView { class_id: 0, instance_id: None, attribute_id: None }));
        while rd.len() > 0
            invariant
                orig == data@,
                decode_path(orig) == decode_segments(path@, rd@),
            decreases rd@.len(),
        {
            let ghost before = rd@;
            let segment = get_u8(&mut rd);
            let value: u16;
            if segment == CLASS_8 || segment == INSTANCE_8 || segment == ATTRIBUTE_8 {
                if rd.len() < 1 {
                    return Err(Error::Truncated { requested: 1, available: rd.len() });
                }
                value = get_u8(&mut rd) as u16;
                assert(rd@ == before.skip(2));
            } else if segment == CLASS_16 || segment == INSTANCE_16 || segment == ATTRIBUTE_16 {
                if rd.len() < 1 {
                    return Err(Error::Truncated { requested: 1, available: rd.len() });
                }
                get_u8(&mut rd);
                if rd.len() < 2 {
                    return Err(Error::Truncated { requested: 2, available: rd.len() });
                }
                assert(rd@ =~= before.skip(2));
                value = get_u16_le(&mut rd);
                assert(rd@ =~= before.skip(4));
            } else {
                let mut msg = String::from_str("unknown EPATH segment ");
                crate::text::push_hex_prefixed(&mut msg, segment as u64, 4);
                return Err(Error::InvalidPacket(msg));
            }
            if segment == CLASS_8 || segment == CLASS_16 {
                path.class_id = value;
            } else if segment == INSTANCE_8 || segment == INSTANCE_16 {
                path.instance_id = Some(value);
            } else {
                path.attribute_id = Some(value);
            }
        }
        Ok(path)
    }

    /// `[classId=C objectId=I attributeId=A]`, leaving out absent IDs.
    pub fn to_string(&self) -> (r: String)
        ensures
            r@ == display_path(self@),
    {
        let mut s = String::from_str("[classId=");
        push_dec(&mut s, self.class_id as u64);
        let ghost head = s@;
        if let Some(id) = self.instance_id {
            s.append(" objectId=");
            push_dec(&mut s, id as u64);
        }
        let ghost mid = s@;
        if let Some(id) = self.attribute_id {
            s.append(" attributeId=");
            push_dec(&mut s, id as u64);
        }
        s.append("]");
        assert(s@ =~= display_path(self@));
        s
    }
}

/// Decoding an encoded path gives the path back, in either segment size.
pub proof fn lemma_decode_encode(p: EPathView, size: SegmentSize)
    ensures
        decode_path(encode_path(p, size)) == Ok::<EPathView, Fault>(p),
{
    let c = segment_bytes(0x20, 0x21, p.class_id, size);
    let i = opt_segment_bytes(0x24, 0x25, p.instance_id, size);
    let a = opt_segment_bytes(0x30, 0x31, p.attribute_id, size);
    let empty = EPathView { class_id: 0, instance_id: None, attribute_id: None };
    lemma_decode_segment(empty, 0x20, 0x21, p.class_id, size, i + a);
    assert(c + i + a =~= c + (i + a));
    let p1 = set_segment(empty, 0x20, p.class_id);
    match p.instance_id {
        Some(v) => {
            lemma_decode_segment(p1, 0x24, 0x25, v, size, a);
        },
        None => {
            assert(i + a =~= a);
        },
    }
    let p2 = match p.instance_id { Some(v) => set_segment(p1, 0x24, v), None => p1 };
    match p.attribute_id {
        Some(v) => {
            lemma_decode_segment(p2, 0x30, 0x31, v, size, seq![]);
            assert(a + seq![] =~= a);
        },
        None => {},
    }
}

proof fn lemma_decode_segment(p: EPathView, seg8: u8, seg16: u8, value: u16, size: SegmentSize, rest: Seq<u8>)
    requires
        (seg8 == 0x20 && seg16 == 0x21) || (seg8 == 0x24 && seg16 == 0x25) || (seg8 == 0x30 && seg16 == 0x31),
    ensures
        decode_segments(p, segment_bytes(seg8, seg16, value, size) + rest)
            == decode_segments(set_segment(p, seg8, value), rest),
{
    let s = segment_bytes(seg8, seg16, value, size) + rest;
    if size == SegmentSize::Bits8 && value <= 0xFF {
        assert(s.skip(2) =~= rest);
    } else {
        lemma_le16(value);
        assert(s.skip(4) =~= rest);
        assert(s.skip(2).take(2) =~= le16(value));
        assert(from_le16(s.skip(2)) == from_le16(le16(value)));
    }
}

fn put_segment(out: &mut Vec<u8>, seg8: u8, seg16: u8, value: u16, size: SegmentSize)
    ensures
        final(out)@ == old(out)@ + segment_bytes(seg8, seg16, value, size),
{
    match size {
        SegmentSize::Bits8 if value <= 0xFF => {
            put_u8(out, seg8);
            put_u8(out, value as u8);
        },
        _ => {
            put_u8(out, seg16);
            put_u8(out, 0);
            put_u16_le(out, value);
        },
    }
    assert(out@ =~= old(out)@ + segment_bytes(seg8, seg16, value, size));
}

} // verus!
