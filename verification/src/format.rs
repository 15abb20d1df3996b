//! The binary layout of a container, as a function from the model to bytes.
//!
//! A container is written as its version followed by its five texts, in the
//! order of the fields. An integer is written in a variable-length form:
//! a value up to 250 is one byte; a larger one is a marker byte (251, 252 or
//! 253) followed by the value in 2, 4 or 8 bytes, least significant first,
//! in the narrowest of these widths that holds it. A text is the number of
//! bytes of its UTF-8 form, written as such an integer, followed by those
//! bytes. Nothing precedes the version and nothing follows the last text.

use vstd::prelude::*;
use vstd::bytes::*;
use vstd::utf8::*;
use crate::container::{AfeFileView, FORMAT_VERSION};
use crate::error::AfeError;

verus! {

/// An integer in its variable-length form.
pub open spec fn varint(n: u64) -> Seq<u8> {
    if n <= 250 {
        seq![n as u8]
    } else if n <= 0xFFFF {
        seq![251u8] + spec_u16_to_le_bytes(n as u16)
    } else if n <= 0xFFFF_FFFF {
        seq![252u8] + spec_u32_to_le_bytes(n as u32)
    } else {
        seq![253u8] + spec_u64_to_le_bytes(n)
    }
}

/// Whether the UTF-8 form of a text is short enough for its length to be
/// written. Every string in memory is.
pub open spec fn text_fits(chars: Seq<char>) -> bool {
    encode_utf8(chars).len() <= u64::MAX
}

/// A text: the length of its UTF-8 form, then that form.
pub open spec fn text(chars: Seq<char>) -> Seq<u8> {
    varint(encode_utf8(chars).len() as u64) + encode_utf8(chars)
}

impl AfeFileView {
    /// Whether each of the five texts can be written.
    pub open spec fn encodable(self) -> bool {
        &&& text_fits(self.app_name)
        &&& text_fits(self.app_version)
        &&& text_fits(self.lua_script)
        &&& text_fits(self.permissions)
        &&& text_fits(self.using)
    }
}

/// The bytes of a container.
pub open spec fn spec_encode(c: AfeFileView) -> Seq<u8> {
    varint(c.version as u64) + text(c.app_name) + text(c.app_version) + text(c.lua_script) + text(
        c.permissions,
    ) + text(c.using)
}

/// Whether `bytes` is the encoding of `c`, and `c` a container of the
/// version that this library reads.
pub open spec fn is_encoding_of(bytes: Seq<u8>, c: AfeFileView) -> bool {
    &&& c.version == FORMAT_VERSION
    &&& c.encodable()
    &&& spec_encode(c) == bytes
}

/// What decoding `bytes` gives: the container of the current version whose
/// encoding they are, where there is one. Bytes that are cut short, that
/// carry anything after the last text, that write an integer in a wider
/// form than it needs, that hold a text which is not UTF-8, or that declare
/// another version are the encoding of no such container.
pub open spec fn spec_decode(bytes: Seq<u8>) -> Result<AfeFileView, AfeError> {
    if exists|c: AfeFileView| is_encoding_of(bytes, c) {
        Ok(choose|c: AfeFileView| is_encoding_of(bytes, c))
    } else {
        Err(AfeError::Decoding)
    }
}

/// Reads an integer from the front of `s`: its value and the number of bytes
/// it takes. `None` where `s` does not begin with an integer in its
/// narrowest form.
pub open spec fn parse_varint(s: Seq<u8>) -> Option<(u64, int)> {
    if s.len() == 0 {
        None
    } else if s[0] <= 250 {
        Some((s[0] as u64, 1))
    } else if s[0] == 251 {
        if s.len() >= 3 && spec_u16_from_le_bytes(s.subrange(1, 3)) > 250 {
            Some((spec_u16_from_le_bytes(s.subrange(1, 3)) as u64, 3))
        } else {
            None
        }
    } else if s[0] == 252 {
        if s.len() >= 5 && spec_u32_from_le_bytes(s.subrange(1, 5)) > 0xFFFF {
            Some((spec_u32_from_le_bytes(s.subrange(1, 5)) as u64, 5))
        } else {
            None
        }
    } else if s[0] == 253 {
        if s.len() >= 9 && spec_u64_from_le_bytes(s.subrange(1, 9)) > 0xFFFF_FFFF {
            Some((spec_u64_from_le_bytes(s.subrange(1, 9)), 9))
        } else {
            None
        }
    } else {
        None
    }
}

/// Reads a text from position `pos` of `s`: its characters and the position
/// after it.
pub open spec fn parse_text(s: Seq<u8>, pos: int) -> Option<(Seq<char>, int)> {
    if 0 <= pos <= s.len() {
        match parse_varint(s.skip(pos)) {
            Some((n, k)) => {
                let start = pos + k;
                let end = start + n;
                if end <= s.len() && valid_utf8(s.subrange(start, end)) {
                    Some((decode_utf8(s.subrange(start, end)), end))
                } else {
                    None
                }
            },
            None => None,
        }
    } else {
        None
    }
}

/// Reads the five texts of a container from position `pos` of `s` to its
/// end, for a container of the given version.
pub open spec fn parse_fields(s: Seq<u8>, pos: int, version: u32) -> Option<AfeFileView> {
    match parse_text(s, pos) {
        Some((app_name, at_version)) => match parse_text(s, at_version) {
            Some((app_version, at_script)) => match parse_text(s, at_script) {
                Some((lua_script, at_permissions)) => match parse_text(s, at_permissions) {
                    Some((permissions, at_using)) => match parse_text(s, at_using) {
                        Some((using, at_end)) => if at_end == s.len() {
                            Some(
                                AfeFileView {
                                    version,
                                    app_name,
                                    app_version,
                                    lua_script,
                                    permissions,
                                    using,
                                },
                            )
                        } else {
                            None
                        },
                        None => None,
                    },
                    None => None,
                },
                None => None,
            },
            None => None,
        },
        None => None,
    }
}

/// Reads a container from `s`, front to back: the version first, then what
/// that version holds.
pub open spec fn parse_container(s: Seq<u8>) -> Option<AfeFileView> {
    match parse_varint(s) {
        Some((version, k)) => if version == FORMAT_VERSION as u64 {
            parse_fields(s, k, FORMAT_VERSION)
        } else {
            None
        },
        None => None,
    }
}

/// An integer takes between one and nine bytes.
pub proof fn lemma_varint_len(n: u64)
    ensures
        varint(n).len() == (if n <= 250 {
            1int
        } else if n <= 0xFFFF {
            3int
        } else if n <= 0xFFFF_FFFF {
            5int
        } else {
            9int
        }),
{
    lemma_auto_spec_u16_to_from_le_bytes();
    lemma_auto_spec_u32_to_from_le_bytes();
    lemma_auto_spec_u64_to_from_le_bytes();
}

/// Reading what was written: an integer followed by anything reads back as
/// that integer.
pub proof fn lemma_parse_varint_of_varint(n: u64, rest: Seq<u8>)
    ensures
        parse_varint(varint(n) + rest) == Some((n, varint(n).len() as int)),
{
    lemma_auto_spec_u16_to_from_le_bytes();
    lemma_auto_spec_u32_to_from_le_bytes();
    lemma_auto_spec_u64_to_from_le_bytes();
    let s = varint(n) + rest;
    if n <= 250 {
    } else if n <= 0xFFFF {
        assert(s.subrange(1, 3) =~= spec_u16_to_le_bytes(n as u16));
    } else if n <= 0xFFFF_FFFF {
        assert(s.subrange(1, 5) =~= spec_u32_to_le_bytes(n as u32));
    } else {
        assert(s.subrange(1, 9) =~= spec_u64_to_le_bytes(n));
    }
}

/// Writing what was read: where an integer is read from the front of `s`,
/// `s` begins with that integer as written.
pub proof fn lemma_varint_of_parse_varint(s: Seq<u8>)
    ensures
        parse_varint(s) matches Some((n, k)) ==> 1 <= k <= s.len() && s.subrange(0, k) == varint(
            n,
        ),
{
    lemma_auto_spec_u16_to_from_le_bytes();
    lemma_auto_spec_u32_to_from_le_bytes();
    lemma_auto_spec_u64_to_from_le_bytes();
    if let Some((n, k)) = parse_varint(s) {
        if s[0] <= 250 {
            assert(s.subrange(0, 1) =~= seq![s[0]]);
        } else if s[0] == 251 {
            let tail = s.subrange(1, 3);
            assert(spec_u16_to_le_bytes(spec_u16_from_le_bytes(tail)) == tail);
            assert(s.subrange(0, 3) =~= seq![251u8] + tail);
        } else if s[0] == 252 {
            let tail = s.subrange(1, 5);
            assert(spec_u32_to_le_bytes(spec_u32_from_le_bytes(tail)) == tail);
            assert(s.subrange(0, 5) =~= seq![252u8] + tail);
        } else {
            let tail = s.subrange(1, 9);
            assert(spec_u64_to_le_bytes(spec_u64_from_le_bytes(tail)) == tail);
            assert(s.subrange(0, 9) =~= seq![253u8] + tail);
        }
    }
}

/// Reading what was written: a text that stands at position `before.len()`
/// reads back as that text, whatever precedes and follows it.
pub proof fn lemma_parse_text_of_text(before: Seq<u8>, chars: Seq<char>, after: Seq<u8>)
    requires
        text_fits(chars),
    ensures
        parse_text(before + text(chars) + after, before.len() as int) == Some(
            (chars, (before.len() + text(chars).len()) as int),
        ),
{
    let body = encode_utf8(chars);
    let n = body.len() as u64;
    let s = before + text(chars) + after;
    let pos = before.len() as int;
    let k = varint(n).len() as int;
    lemma_varint_len(n);
    assert(s.skip(pos) =~= varint(n) + (body + after));
    lemma_parse_varint_of_varint(n, body + after);
    assert(s.subrange(pos + k, pos + k + n) =~= body);
    encode_utf8_valid_utf8(chars);
    encode_utf8_decode_utf8(chars);
}

/// Writing what was read: where a text is read at `pos`, the bytes from
/// `pos` to the position after it are that text as written.
pub proof fn lemma_text_of_parse_text(s: Seq<u8>, pos: int)
    ensures
        parse_text(s, pos) matches Some((chars, end)) ==> {
            &&& 0 <= pos < end <= s.len()
            &&& text_fits(chars)
            &&& s.subrange(pos, end) == text(chars)
        },
{
    if let Some((chars, end)) = parse_text(s, pos) {
        let (n, k) = parse_varint(s.skip(pos)).unwrap();
        lemma_varint_of_parse_varint(s.skip(pos));
        let body = s.subrange(pos + k, end);
        decode_utf8_encode_utf8(body);
        assert(s.skip(pos).subrange(0, k) =~= s.subrange(pos, pos + k));
        assert(s.subrange(pos, end) =~= s.subrange(pos, pos + k) + body);
    }
}

/// Reading what was written: the encoding of a container reads back as that
/// container, field by field.
pub proof fn lemma_parse_fields_of_encode(c: AfeFileView)
    requires
        c.encodable(),
    ensures
        parse_varint(spec_encode(c)) == Some((c.version as u64, varint(c.version as u64).len() as int)),
        parse_fields(spec_encode(c), varint(c.version as u64).len() as int, c.version) == Some(c),
{
    let s = spec_encode(c);
    let v = varint(c.version as u64);
    let t1 = text(c.app_name);
    let t2 = text(c.app_version);
    let t3 = text(c.lua_script);
    let t4 = text(c.permissions);
    let t5 = text(c.using);
    let none = Seq::<u8>::empty();
    assert(s =~= v + (t1 + t2 + t3 + t4 + t5));
    lemma_parse_varint_of_varint(c.version as u64, t1 + t2 + t3 + t4 + t5);
    assert(s =~= v + t1 + (t2 + t3 + t4 + t5));
    lemma_parse_text_of_text(v, c.app_name, t2 + t3 + t4 + t5);
    assert(s =~= (v + t1) + t2 + (t3 + t4 + t5));
    lemma_parse_text_of_text(v + t1, c.app_version, t3 + t4 + t5);
    assert(s =~= (v + t1 + t2) + t3 + (t4 + t5));
    lemma_parse_text_of_text(v + t1 + t2, c.lua_script, t4 + t5);
    assert(s =~= (v + t1 + t2 + t3) + t4 + t5);
    lemma_parse_text_of_text(v + t1 + t2 + t3, c.permissions, t5);
    assert(s =~= (v + t1 + t2 + t3 + t4) + t5 + none);
    lemma_parse_text_of_text(v + t1 + t2 + t3 + t4, c.using, none);
}

/// Writing what was read: where five texts are read from `pos` to the end of
/// `s`, and an integer `version` is written in the bytes before `pos`, `s`
/// is the encoding of the container that was read.
pub proof fn lemma_encode_of_parse_fields(s: Seq<u8>, pos: int, version: u32)
    requires
        0 <= pos <= s.len(),
        s.subrange(0, pos) == varint(version as u64),
    ensures
        parse_fields(s, pos, version) matches Some(c) ==> {
            &&& c.version == version
            &&& c.encodable()
            &&& spec_encode(c) == s
        },
{
    if let Some(c) = parse_fields(s, pos, version) {
        let (_, at_version) = parse_text(s, pos).unwrap();
        let (_, at_script) = parse_text(s, at_version).unwrap();
        let (_, at_permissions) = parse_text(s, at_script).unwrap();
        let (_, at_using) = parse_text(s, at_permissions).unwrap();
        let (_, at_end) = parse_text(s, at_using).unwrap();
        lemma_text_of_parse_text(s, pos);
        lemma_text_of_parse_text(s, at_version);
        lemma_text_of_parse_text(s, at_script);
        lemma_text_of_parse_text(s, at_permissions);
        lemma_text_of_parse_text(s, at_using);
        assert(s =~= s.subrange(0, pos) + s.subrange(pos, at_version) + s.subrange(at_version, at_script) + s.subrange(
            at_script,
            at_permissions,
        ) + s.subrange(at_permissions, at_using) + s.subrange(at_using, at_end));
    }
}

/// No two containers share an encoding.
pub proof fn lemma_encoding_unique(c: AfeFileView, d: AfeFileView)
    requires
        c.encodable(),
        d.encodable(),
        spec_encode(c) == spec_encode(d),
    ensures
        c == d,
{
    lemma_parse_fields_of_encode(c);
    lemma_parse_fields_of_encode(d);
}

/// `spec_decode` can be computed front to back: it is what reading the
/// bytes in order gives.
pub proof fn lemma_spec_decode_is_parse(bytes: Seq<u8>)
    ensures
        spec_decode(bytes) == (match parse_container(bytes) {
            Some(c) => Ok::<AfeFileView, AfeError>(c),
            None => Err::<AfeFileView, AfeError>(AfeError::Decoding),
        }),
{
    match parse_container(bytes) {
        Some(c) => {
            let (_, k) = parse_varint(bytes).unwrap();
            lemma_varint_of_parse_varint(bytes);
            lemma_encode_of_parse_fields(bytes, k, FORMAT_VERSION);
            assert(is_encoding_of(bytes, c));
            let d = choose|d: AfeFileView| is_encoding_of(bytes, d);
            lemma_encoding_unique(c, d);
        },
        None => {
            if exists|c: AfeFileView| is_encoding_of(bytes, c) {
                let c = choose|c: AfeFileView| is_encoding_of(bytes, c);
                lemma_parse_fields_of_encode(c);
            }
        },
    }
}

/// Round trip: decoding the encoding of a container of the current version
/// gives that container back, equal in every field.
pub proof fn lemma_decode_of_encode(c: AfeFileView)
    requires
        c.version == FORMAT_VERSION,
        c.encodable(),
    ensures
        spec_decode(spec_encode(c)) == Ok::<AfeFileView, AfeError>(c),
{
    let bytes = spec_encode(c);
    assert(is_encoding_of(bytes, c));
    let d = choose|d: AfeFileView| is_encoding_of(bytes, d);
    lemma_encoding_unique(c, d);
}

/// Decoding accepts canonical bytes only: what decodes to a container is the
/// encoding of that container, byte for byte.
pub proof fn lemma_encode_of_decode(bytes: Seq<u8>)
    ensures
        spec_decode(bytes) matches Ok(c) ==> c.version == FORMAT_VERSION && spec_encode(c) == bytes,
{
}

} // verus!
