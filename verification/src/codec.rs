//! The storage encoding of a record.
//!
//! A record is written as a four-byte header followed by four tagged fields in
//! a fixed order, so that every byte string is the encoding of at most one
//! record and every record has exactly one encoding:
//!
//! ```text
//! header        'G' 'S' 'R' 0x01
//! id            tag 1, eight bytes, little-endian
//! name          tag 2, byte length (two bytes, little-endian), UTF-8 text
//! location      tag 3, byte length, UTF-8 text
//! description   tag 4, byte length, UTF-8 text
//! ```
//!
//! An encoded record never exceeds [`MAX_SIZE`] bytes.

use vstd::prelude::*;
use vstd::bytes::{
    lemma_auto_spec_u16_to_from_le_bytes, lemma_auto_spec_u64_to_from_le_bytes,
    spec_u16_from_le_bytes, spec_u16_to_le_bytes, spec_u64_from_le_bytes, spec_u64_to_le_bytes,
    u16_from_le_bytes, u16_to_le_bytes, u64_from_le_bytes, u64_to_le_bytes,
};
use vstd::slice::{slice_subrange, slice_to_vec};
use vstd::utf8::{
    decode_utf8, decode_utf8_encode_utf8, encode_utf8, encode_utf8_decode_utf8,
    encode_utf8_valid_utf8, valid_utf8,
};
use crate::record::{GreenSpace, GreenSpaceUpdatePayload, GreenSpaceView, PayloadView};

verus! {

/// The largest number of bytes an encoded record may take.
pub const MAX_SIZE: usize = 1024;

/// Bytes of an encoded record that do not depend on its texts: the header,
/// the identifier field, and the tag and length of each text field.
pub const FIXED_SIZE: usize = 22;

pub const TAG_ID: u8 = 1;

pub const TAG_NAME: u8 = 2;

pub const TAG_LOCATION: u8 = 3;

pub const TAG_DESCRIPTION: u8 = 4;

/// The four bytes every encoded record begins with.
pub open spec fn header() -> Seq<u8> {
    seq![0x47u8, 0x53u8, 0x52u8, 0x01u8]
}

/// The identifier field: its tag, then the identifier in eight bytes.
pub open spec fn id_field(id: u64) -> Seq<u8> {
    seq![TAG_ID] + spec_u64_to_le_bytes(id)
}

/// A text field: its tag, the byte length of the text, then the text in UTF-8.
pub open spec fn text_field(tag: u8, text: Seq<char>) -> Seq<u8> {
    seq![tag] + spec_u16_to_le_bytes(encode_utf8(text).len() as u16) + encode_utf8(text)
}

/// The bytes that stand for the record `v`.
pub open spec fn encoding(v: GreenSpaceView) -> Seq<u8> {
    header() + id_field(v.id) + text_field(TAG_NAME, v.name) + text_field(
        TAG_LOCATION,
        v.location,
    ) + text_field(TAG_DESCRIPTION, v.description)
}

/// Whether three texts leave the encoded record within [`MAX_SIZE`].
pub open spec fn texts_fit(name: Seq<char>, location: Seq<char>, description: Seq<char>) -> bool {
    FIXED_SIZE + encode_utf8(name).len() + encode_utf8(location).len() + encode_utf8(
        description,
    ).len() <= MAX_SIZE
}

/// Whether the record `v` can be stored: its encoding is within [`MAX_SIZE`].
pub open spec fn record_fits(v: GreenSpaceView) -> bool {
    texts_fit(v.name, v.location, v.description)
}

/// Whether a record made of the payload `p` can be stored, whatever its identifier.
pub open spec fn payload_fits(p: PayloadView) -> bool {
    texts_fit(p.name, p.location, p.description)
}

/// Whether `bytes` is the stored form of the record `v`.
pub open spec fn is_encoding_of(bytes: Seq<u8>, v: GreenSpaceView) -> bool {
    record_fits(v) && encoding(v) == bytes
}

/// The record that `bytes` is the stored form of, if there is one.
pub open spec fn decoding(bytes: Seq<u8>) -> Option<GreenSpaceView> {
    if exists|v: GreenSpaceView| is_encoding_of(bytes, v) {
        Some(choose|v: GreenSpaceView| is_encoding_of(bytes, v))
    } else {
        None
    }
}

/// Reads a text field with the tag `tag` that begins at `at`; gives the text
/// and the position just behind the field.
spec fn parse_text(bytes: Seq<u8>, at: int, tag: u8) -> Option<(Seq<char>, int)> {
    if at + 3 > bytes.len() || bytes[at] != tag {
        None
    } else {
        let end = at + 3 + spec_u16_from_le_bytes(bytes.subrange(at + 1, at + 3));
        if end > bytes.len() || !valid_utf8(bytes.subrange(at + 3, end)) {
            None
        } else {
            Some((decode_utf8(bytes.subrange(at + 3, end)), end))
        }
    }
}

/// Reads a whole record, field by field, and accepts it only if nothing is
/// left over.
spec fn parse(bytes: Seq<u8>) -> Option<GreenSpaceView> {
    if bytes.len() > MAX_SIZE || bytes.len() < 13 || bytes.subrange(0, 4) != header() || bytes[4]
        != TAG_ID {
        None
    } else {
        match parse_text(bytes, 13, TAG_NAME) {
            None => None,
            Some((name, a)) => match parse_text(bytes, a, TAG_LOCATION) {
                None => None,
                Some((location, b)) => match parse_text(bytes, b, TAG_DESCRIPTION) {
                    None => None,
                    Some((description, c)) => if c == bytes.len() {
                        Some(
                            GreenSpaceView {
                                id: spec_u64_from_le_bytes(bytes.subrange(5, 13)),
                                name,
                                location,
                                description,
                            },
                        )
                    } else {
                        None
                    },
                },
            },
        }
    }
}

proof fn lemma_text_field_len(tag: u8, text: Seq<char>)
    ensures
        text_field(tag, text).len() == 3 + encode_utf8(text).len(),
{
    lemma_auto_spec_u16_to_from_le_bytes();
}

proof fn lemma_encoding_len(v: GreenSpaceView)
    ensures
        encoding(v).len() == FIXED_SIZE + encode_utf8(v.name).len() + encode_utf8(
            v.location,
        ).len() + encode_utf8(v.description).len(),
{
    lemma_auto_spec_u64_to_from_le_bytes();
    lemma_text_field_len(TAG_NAME, v.name);
    lemma_text_field_len(TAG_LOCATION, v.location);
    lemma_text_field_len(TAG_DESCRIPTION, v.description);
}

/// A text field that stands between `before` and `after` is read back as written.
proof fn lemma_text_field_parses(before: Seq<u8>, tag: u8, text: Seq<char>, after: Seq<u8>)
    requires
        encode_utf8(text).len() <= u16::MAX,
    ensures
        parse_text(before + text_field(tag, text) + after, before.len() as int, tag) == Some(
            (text, (before.len() + 3 + encode_utf8(text).len()) as int),
        ),
{
    lemma_auto_spec_u16_to_from_le_bytes();
    let raw = encode_utf8(text);
    let size = spec_u16_to_le_bytes(raw.len() as u16);
    let bytes = before + text_field(tag, text) + after;
    let at = before.len() as int;
    assert(bytes.subrange(at + 1, at + 3) =~= size);
    assert(bytes.subrange(at + 3, at + 3 + raw.len()) =~= raw);
    encode_utf8_valid_utf8(text);
    encode_utf8_decode_utf8(text);
}

/// What was read as a text field is, byte for byte, that text's field.
proof fn lemma_parsed_text_is_field(bytes: Seq<u8>, at: int, tag: u8)
    requires
        0 <= at,
        parse_text(bytes, at, tag) is Some,
    ensures
        ({
            let (text, end) = parse_text(bytes, at, tag).unwrap();
            &&& at + 3 <= end <= bytes.len()
            &&& encode_utf8(text).len() == end - at - 3
            &&& bytes.subrange(at, end) == text_field(tag, text)
        }),
{
    lemma_auto_spec_u16_to_from_le_bytes();
    let (text, end) = parse_text(bytes, at, tag).unwrap();
    decode_utf8_encode_utf8(bytes.subrange(at + 3, end));
}

/// Every record that fits is read back from its encoding.
proof fn lemma_parse_encoding(v: GreenSpaceView)
    requires
        record_fits(v),
    ensures
        parse(encoding(v)) == Some(v),
{
    lemma_auto_spec_u64_to_from_le_bytes();
    lemma_encoding_len(v);
    let bytes = encoding(v);
    let head = header() + id_field(v.id);
    let name = text_field(TAG_NAME, v.name);
    let location = text_field(TAG_LOCATION, v.location);
    let description = text_field(TAG_DESCRIPTION, v.description);
    lemma_text_field_len(TAG_NAME, v.name);
    lemma_text_field_len(TAG_LOCATION, v.location);
    lemma_text_field_len(TAG_DESCRIPTION, v.description);
    assert(bytes.subrange(0, 4) =~= header());
    assert(bytes.subrange(5, 13) =~= spec_u64_to_le_bytes(v.id));
    assert(bytes =~= head + name + (location + description));
    lemma_text_field_parses(head, TAG_NAME, v.name, location + description);
    lemma_text_field_parses(head + name, TAG_LOCATION, v.location, description);
    lemma_text_field_parses(
        head + name + location,
        TAG_DESCRIPTION,
        v.description,
        Seq::<u8>::empty(),
    );
}

/// Whatever is read from `bytes` fits, and `bytes` is its encoding.
proof fn lemma_parsed_is_encoded(bytes: Seq<u8>)
    requires
        parse(bytes) is Some,
    ensures
        is_encoding_of(bytes, parse(bytes).unwrap()),
{
    lemma_auto_spec_u64_to_from_le_bytes();
    let (name, a) = parse_text(bytes, 13, TAG_NAME).unwrap();
    let (location, b) = parse_text(bytes, a, TAG_LOCATION).unwrap();
    let (description, c) = parse_text(bytes, b, TAG_DESCRIPTION).unwrap();
    lemma_parsed_text_is_field(bytes, 13, TAG_NAME);
    lemma_parsed_text_is_field(bytes, a, TAG_LOCATION);
    lemma_parsed_text_is_field(bytes, b, TAG_DESCRIPTION);
    let id_bytes = bytes.subrange(5, 13);
    assert(bytes =~= bytes.subrange(0, 4) + (seq![TAG_ID] + id_bytes) + bytes.subrange(13, a)
        + bytes.subrange(a, b) + bytes.subrange(b, c));
}

/// Reading field by field finds exactly the record that the bytes encode.
proof fn lemma_parse_is_decoding(bytes: Seq<u8>)
    ensures
        parse(bytes) == decoding(bytes),
{
    if parse(bytes) is Some {
        lemma_parsed_is_encoded(bytes);
        let w = choose|w: GreenSpaceView| is_encoding_of(bytes, w);
        lemma_parse_encoding(w);
    } else {
        if exists|w: GreenSpaceView| is_encoding_of(bytes, w) {
            let w = choose|w: GreenSpaceView| is_encoding_of(bytes, w);
            lemma_parse_encoding(w);
        }
    }
}

/// Decoding undoes encoding: the stored form of a record that fits decodes to
/// that record and to no other.
pub proof fn lemma_decode_encode(v: GreenSpaceView)
    requires
        record_fits(v),
    ensures
        decoding(encoding(v)) == Some(v),
{
    lemma_parse_encoding(v);
    lemma_parse_is_decoding(encoding(v));
}

/// Encoding undoes decoding: bytes that decode to a record are exactly that
/// record's stored form, and the record fits.
pub proof fn lemma_encode_decode(bytes: Seq<u8>)
    requires
        decoding(bytes) is Some,
    ensures
        encoding(decoding(bytes).unwrap()) == bytes,
        record_fits(decoding(bytes).unwrap()),
        bytes.len() <= MAX_SIZE,
{
    lemma_encoding_len(decoding(bytes).unwrap());
}

/// No two records that fit share a stored form.
pub proof fn lemma_encoding_injective(a: GreenSpaceView, b: GreenSpaceView)
    requires
        record_fits(a),
        record_fits(b),
        encoding(a) == encoding(b),
    ensures
        a == b,
{
    lemma_parse_encoding(a);
    lemma_parse_encoding(b);
}

/// [`String::from_utf8`] of std: the bytes become a string exactly when they
/// are well-formed UTF-8, and the string then holds the characters they spell.
#[verifier::external_body]
fn string_from_utf8(bytes: Vec<u8>) -> (text: Option<String>)
    ensures
        text is Some <==> valid_utf8(bytes@),
        text matches Some(s) ==> s@ == decode_utf8(bytes@),
{
    String::from_utf8(bytes).ok()
}

/// Tests whether three texts leave the encoded record within [`MAX_SIZE`].
pub fn texts_fit_in_record(name: &str, location: &str, description: &str) -> (ok: bool)
    ensures
        ok == texts_fit(name@, location@, description@),
{
    let room: usize = MAX_SIZE - FIXED_SIZE;
    let name_len: usize = name.as_bytes().len();
    if name_len > room {
        return false;
    }
    let location_len: usize = location.as_bytes().len();
    if location_len > room - name_len {
        return false;
    }
    let description_len: usize = description.as_bytes().len();
    description_len <= room - name_len - location_len
}

/// Appends the field of `text` under the tag `tag` to `out`.
fn push_text_field(out: &mut Vec<u8>, tag: u8, text: &str)
    requires
        encode_utf8(text@).len() <= u16::MAX,
    ensures
        final(out)@ == old(out)@ + text_field(tag, text@),
{
    let raw = text.as_bytes();
    let size = u16_to_le_bytes(raw.len() as u16);
    out.push(tag);
    out.extend_from_slice(size.as_slice());
    out.extend_from_slice(raw);
}

/// Reads the text field with the tag `tag` that begins at `at`.
fn read_text_field(bytes: &[u8], at: usize, tag: u8) -> (field: Option<(String, usize)>)
    requires
        at <= bytes@.len() <= MAX_SIZE,
    ensures
        (match field {
            Some((text, end)) => parse_text(bytes@, at as int, tag) == Some((text@, end as int)),
            None => parse_text(bytes@, at as int, tag) is None,
        }),
{
    if bytes.len() - at < 3 {
        return None;
    }
    if bytes[at] != tag {
        return None;
    }
    let size: usize = u16_from_le_bytes(slice_subrange(bytes, at + 1, at + 3)) as usize;
    if bytes.len() - (at + 3) < size {
        return None;
    }
    let end: usize = at + 3 + size;
    match string_from_utf8(slice_to_vec(slice_subrange(bytes, at + 3, end))) {
        Some(text) => Some((text, end)),
        None => None,
    }
}

impl GreenSpaceUpdatePayload {
    /// Tests whether a record made of these fields can be stored.
    pub fn fits(&self) -> (ok: bool)
        ensures
            ok == payload_fits(self@),
    {
        texts_fit_in_record(self.name.as_str(), self.location.as_str(), self.description.as_str())
    }
}

impl GreenSpace {
    /// Tests whether this record can be stored.
    pub fn fits(&self) -> (ok: bool)
        ensures
            ok == record_fits(self@),
    {
        texts_fit_in_record(self.name.as_str(), self.location.as_str(), self.description.as_str())
    }

    /// The stored form of this record.
    pub fn to_bytes(&self) -> (bytes: Vec<u8>)
        requires
            record_fits(self@),
        ensures
            bytes@ == encoding(self@),
            decoding(bytes@) == Some(self@),
            bytes@.len() <= MAX_SIZE,
    {
        let mut out: Vec<u8> = Vec::new();
        out.push(0x47u8);
        out.push(0x53u8);
        out.push(0x52u8);
        out.push(0x01u8);
        out.push(TAG_ID);
        let id_bytes = u64_to_le_bytes(self.id);
        out.extend_from_slice(id_bytes.as_slice());
        push_text_field(&mut out, TAG_NAME, self.name.as_str());
        push_text_field(&mut out, TAG_LOCATION, self.location.as_str());
        push_text_field(&mut out, TAG_DESCRIPTION, self.description.as_str());
        proof {
            lemma_decode_encode(self@);
            lemma_encoding_len(self@);
        }
        out
    }

    /// Reads a record from its stored form; `None` when `bytes` is the stored
    /// form of no record.
    pub fn try_from_bytes(bytes: &[u8]) -> (record: Option<GreenSpace>)
        ensures
            (match record {
                Some(r) => decoding(bytes@) == Some(r@),
                None => decoding(bytes@) is None,
            }),
    {
        proof {
            lemma_parse_is_decoding(bytes@);
        }
        if bytes.len() > MAX_SIZE || bytes.len() < 13 {
            return None;
        }
        if bytes[0] != 0x47u8 || bytes[1] != 0x53u8 || bytes[2] != 0x52u8 || bytes[3] != 0x01u8 {
            return None;
        }
        assert(bytes@.subrange(0, 4) =~= header());
        if bytes[4] != TAG_ID {
            return None;
        }
        let id = u64_from_le_bytes(slice_subrange(bytes, 5, 13));
        let (name, a) = match read_text_field(bytes, 13, TAG_NAME) {
            Some(field) => field,
            None => { return None; },
        };
        let (location, b) = match read_text_field(bytes, a, TAG_LOCATION) {
            Some(field) => field,
            None => { return None; },
        };
        let (description, c) = match read_text_field(bytes, b, TAG_DESCRIPTION) {
            Some(field) => field,
            None => { return None; },
        };
        if c != bytes.len() {
            return None;
        }
        Some(GreenSpace { id, name, location, description })
    }

    /// Reads a record from bytes that are known to be a stored form.
    pub fn from_bytes(bytes: Vec<u8>) -> (record: GreenSpace)
        requires
            decoding(bytes@) is Some,
        ensures
            decoding(bytes@) == Some(record@),
    {
        GreenSpace::try_from_bytes(bytes.as_slice()).unwrap()
    }
}

} // verus!
