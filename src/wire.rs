use vstd::prelude::*;
use vstd::utf8::{decode_utf8, encode_utf8, valid_utf8};

use crate::schema::{DecodeError, LoginRequest, Request, RequestModel, Response, ResponseModel, result_view};

verus! {

// ---- reading a message ----

pub open spec fn n_words(seg: Seq<u8>) -> int {
    seg.len() as int / 8
}

/// The little-endian word at word index `i`.
pub open spec fn word_at(seg: Seq<u8>, i: int) -> u64 {
    let b = 8 * i;
    (seg[b] as u64) | ((seg[b + 1] as u64) << 8u64) | ((seg[b + 2] as u64) << 16u64) | ((seg[b
        + 3] as u64) << 24u64) | ((seg[b + 4] as u64) << 32u64) | ((seg[b + 5] as u64) << 40u64)
        | ((seg[b + 6] as u64) << 48u64) | ((seg[b + 7] as u64) << 56u64)
}

/// The signed 30-bit word offset of a struct or list pointer.
pub open spec fn ptr_offset(p: u64) -> int {
    let raw = ((p >> 2u64) & 0x3fff_ffffu64) as int;
    if raw >= 0x2000_0000 {
        raw - 0x4000_0000
    } else {
        raw
    }
}

/// The segments of a message, as byte sequences.
pub open spec fn view_segs(segs: Seq<Vec<u8>>) -> Seq<Seq<u8>> {
    segs.map_values(|v: Vec<u8>| v@)
}

/// The word offset of a far pointer's landing pad.
pub open spec fn far_offset(p: u64) -> int {
    ((p >> 3u64) & 0x1fff_ffffu64) as int
}

/// The segment of a far pointer's landing pad.
pub open spec fn far_segment(p: u64) -> int {
    (p >> 32u64) as int
}

/// Where a pointer's content lies: its segment, its first word, and the pointer word that
/// gives its kind and size.
pub struct Target {
    pub seg: int,
    pub start: int,
    pub tag: u64,
}

/// Follows the non-null pointer at word `pos` of segment `sid`, through a single or a
/// double far pointer where it is one.
pub open spec fn target_of(segs: Seq<Seq<u8>>, sid: int, pos: int) -> Result<Target, DecodeError> {
    let p = word_at(segs[sid], pos);
    if p & 3u64 != 2 {
        Ok(Target { seg: sid, start: pos + 1 + ptr_offset(p), tag: p })
    } else {
        let s2 = far_segment(p);
        let pad = far_offset(p);
        if s2 >= segs.len() {
            Err(DecodeError::OutOfBounds)
        } else if p & 4u64 == 0 {
            if pad >= n_words(segs[s2]) {
                Err(DecodeError::OutOfBounds)
            } else {
                let q = word_at(segs[s2], pad);
                if q & 3u64 == 2 {
                    Err(DecodeError::WrongPointerKind)
                } else {
                    Ok(Target { seg: s2, start: pad + 1 + ptr_offset(q), tag: q })
                }
            }
        } else {
            if pad + 2 > n_words(segs[s2]) {
                Err(DecodeError::OutOfBounds)
            } else {
                let q = word_at(segs[s2], pad);
                if q & 3u64 != 2 || q & 4u64 != 0 {
                    Err(DecodeError::WrongPointerKind)
                } else if far_segment(q) >= segs.len() {
                    Err(DecodeError::OutOfBounds)
                } else {
                    Ok(Target { seg: far_segment(q), start: far_offset(q), tag: word_at(segs[s2], pad + 1) })
                }
            }
        }
    }
}

/// A struct of the message: segment, first word, data words, pointer words.
pub struct StructLoc {
    pub seg: int,
    pub start: int,
    pub data: int,
    pub ptrs: int,
}

pub open spec fn empty_struct() -> StructLoc {
    StructLoc { seg: 0, start: 0, data: 0, ptrs: 0 }
}

/// The struct that the pointer at word `pos` of segment `sid` refers to; a null pointer is
/// the empty struct.
pub open spec fn struct_at(segs: Seq<Seq<u8>>, sid: int, pos: int) -> Result<StructLoc, DecodeError> {
    if word_at(segs[sid], pos) == 0 {
        Ok(empty_struct())
    } else {
        match target_of(segs, sid, pos) {
            Err(e) => Err(e),
            Ok(t) => {
                let d = ((t.tag >> 32u64) & 0xffffu64) as int;
                let n = (t.tag >> 48u64) as int;
                if t.tag & 3u64 != 0 {
                    Err(DecodeError::WrongPointerKind)
                } else if t.start < 0 || t.start + d + n > n_words(segs[t.seg]) {
                    Err(DecodeError::OutOfBounds)
                } else {
                    Ok(StructLoc { seg: t.seg, start: t.start, data: d, ptrs: n })
                }
            },
        }
    }
}

/// The union discriminant in the first 16 bits of a struct's data; zero when it has no data.
pub open spec fn discriminant(segs: Seq<Seq<u8>>, s: StructLoc) -> u16 {
    if s.data >= 1 {
        ((segs[s.seg][8 * s.start] as u16) | ((segs[s.seg][8 * s.start + 1] as u16) << 8u16)) as u16
    } else {
        0
    }
}

/// The text that the pointer at word `pos` of segment `sid` refers to; a null pointer is
/// the empty text.
pub open spec fn text_at(segs: Seq<Seq<u8>>, sid: int, pos: int) -> Result<Seq<char>, DecodeError> {
    if word_at(segs[sid], pos) == 0 {
        Ok(Seq::empty())
    } else {
        match target_of(segs, sid, pos) {
            Err(e) => Err(e),
            Ok(t) => {
                let seg = segs[t.seg];
                let count = (t.tag >> 35u64) as int;
                if t.tag & 3u64 != 1 || (t.tag >> 32u64) & 7u64 != 2 {
                    Err(DecodeError::WrongPointerKind)
                } else if t.start < 0 || 8 * t.start + count > seg.len() {
                    Err(DecodeError::OutOfBounds)
                } else if count == 0 || seg[8 * t.start + count - 1] != 0 {
                    Err(DecodeError::InvalidText)
                } else if !valid_utf8(seg.subrange(8 * t.start, 8 * t.start + count - 1)) {
                    Err(DecodeError::InvalidText)
                } else {
                    Ok(decode_utf8(seg.subrange(8 * t.start, 8 * t.start + count - 1)))
                }
            },
        }
    }
}

/// Struct field `k` of the pointer section; a missing slot reads as null.
pub open spec fn struct_field(segs: Seq<Seq<u8>>, s: StructLoc, k: int) -> Result<StructLoc, DecodeError> {
    if k < s.ptrs {
        struct_at(segs, s.seg, s.start + s.data + k)
    } else {
        Ok(empty_struct())
    }
}

/// Text field `k` of the pointer section; a missing slot reads as null.
pub open spec fn text_field(segs: Seq<Seq<u8>>, s: StructLoc, k: int) -> Result<Seq<char>, DecodeError> {
    if k < s.ptrs {
        text_at(segs, s.seg, s.start + s.data + k)
    } else {
        Ok(Seq::empty())
    }
}

/// The request that the segments of an unpacked message encode.
pub open spec fn request_model(segs: Seq<Seq<u8>>) -> Result<RequestModel, DecodeError> {
    if segs.len() < 1 || n_words(segs[0]) < 1 {
        Err(DecodeError::OutOfBounds)
    } else {
        match struct_at(segs, 0, 0) {
            Err(e) => Err(e),
            Ok(root) => {
                let which = discriminant(segs, root);
                if which == 1 {
                    Ok(RequestModel::Logout)
                } else if which != 0 {
                    Err(DecodeError::NotInSchema(which))
                } else {
                    match struct_field(segs, root, 0) {
                        Err(e) => Err(e),
                        Ok(login) => {
                            let kind = discriminant(segs, login);
                            if kind == 0 {
                                match struct_field(segs, login, 0) {
                                    Err(e) => Err(e),
                                    Ok(c) => match (text_field(segs, c, 0), text_field(segs, c, 1)) {
                                        (Err(e), _) => Err(e),
                                        (Ok(_), Err(e)) => Err(e),
                                        (Ok(u), Ok(p)) => Ok(RequestModel::Credentials(u, p)),
                                    },
                                }
                            } else if kind == 1 {
                                match text_field(segs, login, 0) {
                                    Err(e) => Err(e),
                                    Ok(t) => Ok(RequestModel::Token(t)),
                                }
                            } else {
                                Err(DecodeError::NotInSchema(kind))
                            }
                        },
                    }
                }
            },
        }
    }
}

fn read_word(seg: &Vec<u8>, i: usize) -> (r: u64)
    requires
        i < n_words(seg@),
    ensures
        r == word_at(seg@, i as int),
{
    assert(8 * i + 8 <= seg.len()) by (nonlinear_arith)
        requires
            i < seg.len() as int / 8,
    ;
    let b: usize = 8 * i;
    (seg[b] as u64) | ((seg[b + 1] as u64) << 8u64) | ((seg[b + 2] as u64) << 16u64) | ((seg[b
        + 3] as u64) << 24u64) | ((seg[b + 4] as u64) << 32u64) | ((seg[b + 5] as u64) << 40u64)
        | ((seg[b + 6] as u64) << 48u64) | ((seg[b + 7] as u64) << 56u64)
}

fn read_offset(p: u64) -> (r: i128)
    ensures
        r == ptr_offset(p),
        -0x2000_0000 <= r < 0x2000_0000,
{
    let raw: u64 = (p >> 2u64) & 0x3fff_ffffu64;
    assert(raw <= 0x3fff_ffff) by (bit_vector)
        requires
            raw == (p >> 2u64) & 0x3fff_ffffu64,
    ;
    if raw >= 0x2000_0000 {
        raw as i128 - 0x4000_0000
    } else {
        raw as i128
    }
}

fn read_far(p: u64) -> (r: (u128, u128))
    ensures
        r.0 == far_segment(p),
        r.1 == far_offset(p),
        r.1 < 0x2000_0000,
{
    let pad: u64 = (p >> 3u64) & 0x1fff_ffffu64;
    assert(pad <= 0x1fff_ffff) by (bit_vector)
        requires
            pad == (p >> 3u64) & 0x1fff_ffffu64,
    ;
    ((p >> 32u64) as u128, pad as u128)
}

/// Executable counterpart of `Target`.
pub struct Tgt {
    pub seg: usize,
    pub start: i128,
    pub tag: u64,
}

fn read_target(segs: &Vec<Vec<u8>>, sid: usize, pos: usize) -> (r: Result<Tgt, DecodeError>)
    requires
        sid < segs@.len(),
        pos < n_words(segs@[sid as int]@),
    ensures
        match (r, target_of(view_segs(segs@), sid as int, pos as int)) {
            (Ok(x), Ok(t)) => x.seg == t.seg && x.start == t.start && x.tag == t.tag && t.seg
                < segs@.len() && -0x2000_0000 <= x.start <= 0x2_0000_0000_0000_0000,
            (Err(e), Err(f)) => e == f,
            _ => false,
        },
{
    let ghost v = view_segs(segs@);
    assert(v[sid as int] == segs@[sid as int]@);
    let p = read_word(&segs[sid], pos);
    if p & 3u64 != 2 {
        let off = read_offset(p);
        return Ok(Tgt { seg: sid, start: pos as i128 + 1 + off, tag: p });
    }
    let (s2, pad) = read_far(p);
    if s2 >= segs.len() as u128 {
        return Err(DecodeError::OutOfBounds);
    }
    let s2: usize = s2 as usize;
    assert(v[s2 as int] == segs@[s2 as int]@);
    let words: usize = segs[s2].len() / 8;
    if p & 4u64 == 0 {
        if pad >= words as u128 {
            return Err(DecodeError::OutOfBounds);
        }
        let q = read_word(&segs[s2], pad as usize);
        if q & 3u64 == 2 {
            return Err(DecodeError::WrongPointerKind);
        }
        let off = read_offset(q);
        Ok(Tgt { seg: s2, start: pad as i128 + 1 + off, tag: q })
    } else {
        if pad + 2 > words as u128 {
            return Err(DecodeError::OutOfBounds);
        }
        let q = read_word(&segs[s2], pad as usize);
        if q & 3u64 != 2 || q & 4u64 != 0 {
            return Err(DecodeError::WrongPointerKind);
        }
        let (s3, start) = read_far(q);
        if s3 >= segs.len() as u128 {
            return Err(DecodeError::OutOfBounds);
        }
        let tag = read_word(&segs[s2], pad as usize + 1);
        Ok(Tgt { seg: s3 as usize, start: start as i128, tag })
    }
}

/// Executable counterpart of `StructLoc`.
pub struct Loc {
    pub seg: usize,
    pub start: usize,
    pub data: usize,
    pub ptrs: usize,
}

impl View for Loc {
    type V = StructLoc;

    open spec fn view(&self) -> StructLoc {
        StructLoc {
            seg: self.seg as int,
            start: self.start as int,
            data: self.data as int,
            ptrs: self.ptrs as int,
        }
    }
}

pub open spec fn loc_in(segs: Seq<Seq<u8>>, s: StructLoc) -> bool {
    0 <= s.seg < segs.len() && 0 <= s.start && 0 <= s.data && 0 <= s.ptrs && s.start + s.data
        + s.ptrs <= n_words(segs[s.seg])
}

fn read_struct(segs: &Vec<Vec<u8>>, sid: usize, pos: usize) -> (r: Result<Loc, DecodeError>)
    requires
        sid < segs@.len(),
        pos < n_words(segs@[sid as int]@),
    ensures
        match (r, struct_at(view_segs(segs@), sid as int, pos as int)) {
            (Ok(l), Ok(s)) => l@ == s && loc_in(view_segs(segs@), s),
            (Err(e), Err(f)) => e == f,
            _ => false,
        },
{
    let ghost v = view_segs(segs@);
    assert(v[sid as int] == segs@[sid as int]@);
    if read_word(&segs[sid], pos) == 0 {
        assert(segs@.len() > 0);
        return Ok(Loc { seg: 0, start: 0, data: 0, ptrs: 0 });
    }
    let t = read_target(segs, sid, pos)?;
    let d: u64 = (t.tag >> 32u64) & 0xffffu64;
    let n: u64 = t.tag >> 48u64;
    if t.tag & 3u64 != 0 {
        return Err(DecodeError::WrongPointerKind);
    }
    assert(v[t.seg as int] == segs@[t.seg as int]@);
    let words: usize = segs[t.seg].len() / 8;
    if t.start < 0 || t.start + d as i128 + n as i128 > words as i128 {
        return Err(DecodeError::OutOfBounds);
    }
    Ok(Loc { seg: t.seg, start: t.start as usize, data: d as usize, ptrs: n as usize })
}

fn read_discriminant(segs: &Vec<Vec<u8>>, s: &Loc) -> (r: u16)
    requires
        loc_in(view_segs(segs@), s@),
    ensures
        r == discriminant(view_segs(segs@), s@),
{
    let ghost v = view_segs(segs@);
    assert(v[s.seg as int] == segs@[s.seg as int]@);
    let seg = &segs[s.seg];
    if s.data >= 1 {
        assert(8 * s.start + 8 <= seg.len()) by (nonlinear_arith)
            requires
                s.start + 1 <= seg.len() as int / 8,
        ;
        ((seg[8 * s.start] as u16) | ((seg[8 * s.start + 1] as u16) << 8u16)) as u16
    } else {
        0
    }
}

/// Relies on `String::from_utf8`: `Ok` exactly for valid UTF-8, holding the decoded characters.
#[verifier::external_body]
fn utf8_string(bytes: Vec<u8>) -> (r: Option<String>)
    ensures
        r is Some <==> valid_utf8(bytes@),
        r is Some ==> r->Some_0@ == decode_utf8(bytes@),
{
    String::from_utf8(bytes).ok()
}

fn read_text(segs: &Vec<Vec<u8>>, sid: usize, pos: usize) -> (r: Result<String, DecodeError>)
    requires
        sid < segs@.len(),
        pos < n_words(segs@[sid as int]@),
    ensures
        match (r, text_at(view_segs(segs@), sid as int, pos as int)) {
            (Ok(s), Ok(t)) => s@ == t,
            (Err(e), Err(f)) => e == f,
            _ => false,
        },
{
    let ghost v = view_segs(segs@);
    assert(v[sid as int] == segs@[sid as int]@);
    if read_word(&segs[sid], pos) == 0 {
        return Ok(String::new());
    }
    let t = read_target(segs, sid, pos)?;
    assert(v[t.seg as int] == segs@[t.seg as int]@);
    let seg = &segs[t.seg];
    let count: u64 = t.tag >> 35u64;
    if t.tag & 3u64 != 1 || (t.tag >> 32u64) & 7u64 != 2 {
        return Err(DecodeError::WrongPointerKind);
    }
    if t.start < 0 || 8 * t.start + count as i128 > seg.len() as i128 {
        return Err(DecodeError::OutOfBounds);
    }
    let begin: usize = (8 * t.start) as usize;
    let end: usize = (8 * t.start + count as i128) as usize;
    if count == 0 || seg[end - 1] != 0 {
        return Err(DecodeError::InvalidText);
    }
    let mut bytes: Vec<u8> = Vec::new();
    let mut i: usize = begin;
    while i < end - 1
        invariant
            begin <= i <= end - 1,
            end <= seg@.len(),
            bytes@ == seg@.subrange(begin as int, i as int),
        decreases end - 1 - i,
    {
        bytes.push(seg[i]);
        i = i + 1;
        assert(bytes@ =~= seg@.subrange(begin as int, i as int));
    }
    match utf8_string(bytes) {
        Some(s) => Ok(s),
        None => Err(DecodeError::InvalidText),
    }
}

fn read_struct_field(segs: &Vec<Vec<u8>>, s: &Loc, k: usize) -> (r: Result<Loc, DecodeError>)
    requires
        loc_in(view_segs(segs@), s@),
    ensures
        match (r, struct_field(view_segs(segs@), s@, k as int)) {
            (Ok(l), Ok(t)) => l@ == t && loc_in(view_segs(segs@), t),
            (Err(e), Err(f)) => e == f,
            _ => false,
        },
{
    if k < s.ptrs {
        assert(view_segs(segs@)[s.seg as int] == segs@[s.seg as int]@);
        assert(segs@[s.seg as int]@.len() == segs@[s.seg as int].len());
        read_struct(segs, s.seg, s.start + s.data + k)
    } else {
        Ok(Loc { seg: 0, start: 0, data: 0, ptrs: 0 })
    }
}

fn read_text_field(segs: &Vec<Vec<u8>>, s: &Loc, k: usize) -> (r: Result<String, DecodeError>)
    requires
        loc_in(view_segs(segs@), s@),
    ensures
        match (r, text_field(view_segs(segs@), s@, k as int)) {
            (Ok(x), Ok(t)) => x@ == t,
            (Err(e), Err(f)) => e == f,
            _ => false,
        },
{
    if k < s.ptrs {
        assert(view_segs(segs@)[s.seg as int] == segs@[s.seg as int]@);
        assert(segs@[s.seg as int]@.len() == segs@[s.seg as int].len());
        read_text(segs, s.seg, s.start + s.data + k)
    } else {
        Ok(String::new())
    }
}

/// Decodes a request from the segments of an unpacked message.
pub fn decode_segments(segs: &Vec<Vec<u8>>) -> (r: Result<Request, DecodeError>)
    ensures
        result_view(r) == request_model(view_segs(segs@)),
{
    if segs.len() < 1 || segs[0].len() / 8 < 1 {
        return Err(DecodeError::OutOfBounds);
    }
    let root = read_struct(segs, 0, 0)?;
    let which = read_discriminant(segs, &root);
    if which == 1 {
        return Ok(Request::Logout);
    }
    if which != 0 {
        return Err(DecodeError::NotInSchema(which));
    }
    let login = read_struct_field(segs, &root, 0)?;
    let kind = read_discriminant(segs, &login);
    if kind == 0 {
        let c = read_struct_field(segs, &login, 0)?;
        let username = read_text_field(segs, &c, 0)?;
        let password = read_text_field(segs, &c, 1)?;
        Ok(Request::Login(LoginRequest::Credentials { username, password }))
    } else if kind == 1 {
        let token = read_text_field(segs, &login, 0)?;
        Ok(Request::Login(LoginRequest::Token { token }))
    } else {
        Err(DecodeError::NotInSchema(kind))
    }
}

// ---- framing ----

/// The segments that capnp unpacks from a packed frame, if the frame is well formed.
pub uninterp spec fn packed_segments(bytes: Seq<u8>) -> Option<Seq<Seq<u8>>>;

/// The packed frame that capnp writes for a deep copy of the root of a single-segment
/// message (not for the segment as it stands); `None` when capnp cannot read that root.
pub uninterp spec fn packed_message(seg: Seq<u8>) -> Option<Seq<u8>>;

/// Relies on `capnp::serialize_packed::read_message`: it unpacks the frame and reads the
/// segment table; the bytes of every segment are handed back in order.
#[verifier::external_body]
fn unpack_segments(bytes: &[u8]) -> (r: Option<Vec<Vec<u8>>>)
    ensures
        r is Some <==> packed_segments(bytes@) is Some,
        r is Some ==> view_segs(r->Some_0@) == packed_segments(bytes@)->Some_0,
{
    let mut input = bytes;
    let options = capnp::message::ReaderOptions::new();
    let reader = capnp::serialize_packed::read_message(&mut input, options).ok()?;
    let segments = reader.into_segments();
    let count = capnp::message::ReaderSegments::len(&segments) as u32;
    (0..count)
        .map(|i| capnp::message::ReaderSegments::get_segment(&segments, i).map(|s| s.to_vec()))
        .collect()
}

/// Relies on `capnp::serialize_packed::write_message`: the segment is read as a message,
/// its root copied into a fresh builder, and the builder written in packed form.
#[verifier::external_body]
fn pack_segment(seg: &Vec<u8>) -> (r: Option<Vec<u8>>)
    requires
        seg@.len() % 8 == 0,
    ensures
        match (r, packed_message(seg@)) {
            (Some(v), Some(w)) => v@ == w,
            (None, None) => true,
            _ => false,
        },
{
    let mut words = capnp::Word::allocate_zeroed_vec(seg.len() / 8);
    capnp::Word::words_to_bytes_mut(&mut words).copy_from_slice(seg);
    let segments: [&[u8]; 1] = [capnp::Word::words_to_bytes(&words)];
    let array = capnp::message::SegmentArray::new(&segments);
    let reader = capnp::message::Reader::new(array, capnp::message::ReaderOptions::new());
    let root: capnp::any_pointer::Reader = reader.get_root().ok()?;
    let mut builder = capnp::message::Builder::new_default();
    builder.set_root(root).ok()?;
    let mut out: Vec<u8> = Vec::new();
    capnp::serialize_packed::write_message(&mut out, &builder).ok()?;
    Some(out)
}

/// The request carried by a packed frame.
pub open spec fn frame_request(bytes: Seq<u8>) -> Result<RequestModel, DecodeError> {
    match packed_segments(bytes) {
        None => Err(DecodeError::Framing),
        Some(segs) => request_model(segs),
    }
}

/// Decodes a request from a packed frame.
pub fn decode(bytes: &[u8]) -> (r: Result<Request, DecodeError>)
    ensures
        result_view(r) == frame_request(bytes@),
{
    match unpack_segments(bytes) {
        None => Err(DecodeError::Framing),
        Some(segs) => decode_segments(&segs),
    }
}

// ---- writing a response ----

pub const ROOT_POINTER: u64 = 0x0001_0001_0000_0000;

/// The largest text length whose byte list, with its NUL, fits a list pointer's count.
pub const MAX_TEXT: usize = 0x1fff_fffe;

/// The eight bytes of a word, least significant first.
pub open spec fn le_bytes(v: u64) -> Seq<u8> {
    Seq::new(8, |i: int| ((v >> (8 * i) as u64) & 0xffu64) as u8)
}

/// A list pointer at offset zero to `n` bytes and their NUL.
pub open spec fn text_pointer(n: nat) -> u64 {
    1u64 | (2u64 << 32u64) | (((n + 1) as u64) << 35u64)
}

pub open spec fn zeros(n: nat) -> Seq<u8> {
    Seq::new(n, |i: int| 0u8)
}

/// Zero bytes that bring `n` text bytes and their NUL to a whole number of words.
pub open spec fn text_padding(n: nat) -> nat {
    ((8 - (n + 1) % 8) % 8) as nat
}

/// The union tag and the text of a response.
pub open spec fn response_parts(r: ResponseModel) -> (u8, Seq<char>) {
    match r {
        ResponseModel::Login(t) => (0u8, t),
        ResponseModel::Error(d) => (1u8, d),
    }
}

/// The single segment that encodes a response: root pointer, the struct's data word with
/// the tag, its text pointer, then the text, its NUL and padding. `None` when the text is
/// too long for a list pointer.
pub open spec fn response_layout(r: ResponseModel) -> Option<Seq<u8>> {
    let (tag, text) = response_parts(r);
    let b = encode_utf8(text);
    if b.len() > MAX_TEXT {
        None
    } else {
        Some(le_bytes(ROOT_POINTER) + seq![tag, 0u8, 0u8, 0u8, 0u8, 0u8, 0u8, 0u8] + le_bytes(
            text_pointer(b.len()),
        ) + b + seq![0u8] + zeros(text_padding(b.len())))
    }
}

/// The packed frame of a response, `None` when it has no layout or capnp cannot write it.
pub open spec fn encoded(r: ResponseModel) -> Option<Seq<u8>> {
    match response_layout(r) {
        None => None,
        Some(seg) => packed_message(seg),
    }
}

fn push_word(out: &mut Vec<u8>, v: u64)
    ensures
        final(out)@ == old(out)@ + le_bytes(v),
{
    let ghost start = out@;
    let mut i: u64 = 0;
    while i < 8
        invariant
            i <= 8,
            out@ == start + le_bytes(v).take(i as int),
        decreases 8 - i,
    {
        out.push(((v >> (8 * i)) & 0xffu64) as u8);
        i = i + 1;
        assert(out@ =~= start + le_bytes(v).take(i as int));
    }
    assert(le_bytes(v).take(8) =~= le_bytes(v));
}

/// Lays a response out as one unpacked segment.
pub fn response_segment(resp: &Response) -> (r: Option<Vec<u8>>)
    ensures
        match (r, response_layout(resp@)) {
            (Some(v), Some(s)) => v@ == s,
            (None, None) => true,
            _ => false,
        },
{
    let (tag, text): (u8, &str) = match resp {
        Response::Login { token } => (0u8, token.as_str()),
        Response::Error { description } => (1u8, description.as_str()),
    };
    let bytes: &[u8] = text.as_bytes();
    let n: usize = bytes.len();
    if n > MAX_TEXT {
        return None;
    }
    let mut out: Vec<u8> = Vec::new();
    push_word(&mut out, ROOT_POINTER);
    push_word(&mut out, tag as u64);
    push_word(&mut out, 1u64 | (2u64 << 32u64) | (((n + 1) as u64) << 35u64));
    let ghost head = out@;
    let mut i: usize = 0;
    while i < n
        invariant
            i <= n,
            n == bytes@.len(),
            out@ == head + bytes@.take(i as int),
        decreases n - i,
    {
        out.push(bytes[i]);
        i = i + 1;
        assert(out@ =~= head + bytes@.take(i as int));
    }
    out.push(0u8);
    let pad: usize = (8 - (n + 1) % 8) % 8;
    let ghost body = out@;
    let mut j: usize = 0;
    while j < pad
        invariant
            j <= pad,
            out@ == body + zeros(j as nat),
        decreases pad - j,
    {
        out.push(0u8);
        j = j + 1;
        assert(out@ =~= body + zeros(j as nat));
    }
    proof {
        assert(response_parts(resp@) == (tag, text@));
        let tag_word = seq![tag, 0u8, 0u8, 0u8, 0u8, 0u8, 0u8, 0u8];
        assert forall|k: int| 0 <= k < 8 implies #[trigger] le_bytes(tag as u64)[k] == tag_word[k] by {
            let s = (8 * k) as u64;
            let t = tag as u64;
            if k == 0 {
                assert(((t >> 0u64) & 0xffu64) as u8 == tag) by (bit_vector)
                    requires
                        t == tag as u64,
                ;
            } else {
                assert((t >> s) & 0xffu64 == 0) by (bit_vector)
                    requires
                        t <= 0xff,
                        8 <= s < 64,
                ;
            }
        }
        assert(le_bytes(tag as u64) =~= tag_word);
        assert(bytes@.take(n as int) =~= bytes@);
    }
    Some(out)
}

/// Encodes a response into a packed frame; `None` exactly when it cannot be laid out or written.
pub fn encode(resp: &Response) -> (r: Option<Vec<u8>>)
    ensures
        match (r, encoded(resp@)) {
            (Some(v), Some(w)) => v@ == w,
            (None, None) => true,
            _ => false,
        },
{
    match response_segment(resp) {
        None => None,
        Some(seg) => {
            proof {
                lemma_layout_words(resp@);
            }
            pack_segment(&seg)
        },
    }
}

/// Encoding is deterministic: equal responses have the same outcome, and where it is a
/// frame, identical bytes.
pub proof fn lemma_encode_deterministic(r1: ResponseModel, r2: ResponseModel)
    requires
        r1 == r2,
    ensures
        encoded(r1) == encoded(r2),
{
}

/// A response's layout is a whole number of words.
proof fn lemma_layout_words(r: ResponseModel)
    ensures
        response_layout(r) is Some ==> response_layout(r)->Some_0.len() % 8 == 0,
{
    let b = encode_utf8(response_parts(r).1);
    let n = b.len();
    assert((n + 1 + text_padding(n)) % 8 == 0);
}

} // verus!
