//! Encoding a container to bytes and decoding it again.

use vstd::prelude::*;
use vstd::bytes::*;
use vstd::slice::*;
use vstd::utf8::*;
use crate::container::{AfeFile, FORMAT_VERSION};
use crate::error::AfeError;
use crate::format::{
    lemma_spec_decode_is_parse, lemma_text_of_parse_text, lemma_varint_len,
    lemma_varint_of_parse_varint, parse_fields, parse_text, parse_varint, spec_decode,
    spec_encode, text, text_fits, varint,
};
use crate::trusted::{bincode_encode, str_from_utf8};

verus! {

/// The number of bytes that an integer takes.
fn varint_len(n: u64) -> (k: usize)
    ensures
        k == varint(n).len(),
{
    proof {
        lemma_varint_len(n);
    }
    if n <= 250 {
        1
    } else if n <= 0xFFFF {
        3
    } else if n <= 0xFFFF_FFFF {
        5
    } else {
        9
    }
}

/// The number of bytes that a text takes, or `None` where that number
/// leaves `usize`.
fn text_len(s: &str) -> (r: Option<usize>)
    ensures
        text_fits(s@),
        match r {
            Some(len) => len == text(s@).len(),
            None => text(s@).len() > usize::MAX,
        },
{
    let n: usize = s.as_bytes().len();
    varint_len(n as u64).checked_add(n)
}

/// The sum of two lengths, where both are known and the sum stays in
/// `usize`.
fn add_len(a: Option<usize>, b: Option<usize>) -> (r: Option<usize>)
    ensures
        match r {
            Some(sum) => a is Some && b is Some && sum == a->0 + b->0,
            None => a is None || b is None || a->0 + b->0 > usize::MAX,
        },
{
    match (a, b) {
        (Some(x), Some(y)) => x.checked_add(y),
        _ => None,
    }
}

/// Reads an integer at position `pos`: its value and the position after it.
fn read_varint(bytes: &[u8], pos: usize) -> (r: Option<(u64, usize)>)
    requires
        pos <= bytes@.len(),
    ensures
        match r {
            Some((n, next)) => parse_varint(bytes@.skip(pos as int)) == Some((n, next - pos)),
            None => parse_varint(bytes@.skip(pos as int)) is None,
        },
{
    let len: usize = bytes.len();
    let ghost rest = bytes@.skip(pos as int);
    if pos >= len {
        return None;
    }
    let left: usize = len - pos;
    let tag: u8 = bytes[pos];
    assert(rest[0] == tag);
    if tag <= 250 {
        Some((tag as u64, pos + 1))
    } else if tag == 251 {
        if left < 3 {
            return None;
        }
        let chunk = slice_subrange(bytes, pos + 1, pos + 3);
        assert(chunk@ =~= rest.subrange(1, 3));
        let v: u16 = u16_from_le_bytes(chunk);
        if v > 250 {
            Some((v as u64, pos + 3))
        } else {
            None
        }
    } else if tag == 252 {
        if left < 5 {
            return None;
        }
        let chunk = slice_subrange(bytes, pos + 1, pos + 5);
        assert(chunk@ =~= rest.subrange(1, 5));
        let v: u32 = u32_from_le_bytes(chunk);
        if v > 0xFFFF {
            Some((v as u64, pos + 5))
        } else {
            None
        }
    } else if tag == 253 {
        if left < 9 {
            return None;
        }
        let chunk = slice_subrange(bytes, pos + 1, pos + 9);
        assert(chunk@ =~= rest.subrange(1, 9));
        let v: u64 = u64_from_le_bytes(chunk);
        if v > 0xFFFF_FFFF {
            Some((v, pos + 9))
        } else {
            None
        }
    } else {
        None
    }
}

/// Reads a text at position `pos`: the text and the position after it.
fn read_text(bytes: &[u8], pos: usize) -> (r: Option<(String, usize)>)
    requires
        pos <= bytes@.len(),
    ensures
        match r {
            Some((s, next)) => parse_text(bytes@, pos as int) == Some((s@, next as int)),
            None => parse_text(bytes@, pos as int) is None,
        },
{
    let (n, start) = match read_varint(bytes, pos) {
        Some(found) => found,
        None => { return None; },
    };
    proof {
        lemma_varint_of_parse_varint(bytes@.skip(pos as int));
    }
    let left: usize = bytes.len() - start;
    if n > left as u64 {
        return None;
    }
    let end: usize = start + n as usize;
    let chunk = slice_subrange(bytes, start, end);
    match str_from_utf8(chunk) {
        Some(s) => {
            proof {
                encode_utf8_decode_utf8(s@);
            }
            Some((s.to_string(), end))
        },
        None => None,
    }
}

/// Reads the five texts of a container of the current version, from `pos`
/// to the end of `bytes`.
fn read_fields(bytes: &[u8], pos: usize) -> (r: Option<AfeFile>)
    requires
        pos <= bytes@.len(),
    ensures
        match r {
            Some(c) => parse_fields(bytes@, pos as int, FORMAT_VERSION) == Some(c@),
            None => parse_fields(bytes@, pos as int, FORMAT_VERSION) is None,
        },
{
    proof {
        lemma_text_of_parse_text(bytes@, pos as int);
    }
    let (app_name, at_version) = match read_text(bytes, pos) {
        Some(found) => found,
        None => { return None; },
    };
    proof {
        lemma_text_of_parse_text(bytes@, at_version as int);
    }
    let (app_version, at_script) = match read_text(bytes, at_version) {
        Some(found) => found,
        None => { return None; },
    };
    proof {
        lemma_text_of_parse_text(bytes@, at_script as int);
    }
    let (lua_script, at_permissions) = match read_text(bytes, at_script) {
        Some(found) => found,
        None => { return None; },
    };
    proof {
        lemma_text_of_parse_text(bytes@, at_permissions as int);
    }
    let (permissions, at_using) = match read_text(bytes, at_permissions) {
        Some(found) => found,
        None => { return None; },
    };
    proof {
        lemma_text_of_parse_text(bytes@, at_using as int);
    }
    let (using, at_end) = match read_text(bytes, at_using) {
        Some(found) => found,
        None => { return None; },
    };
    if at_end != bytes.len() {
        return None;
    }
    Some(AfeFile { version: FORMAT_VERSION, app_name, app_version, lua_script, permissions, using })
}

impl AfeFile {
    /// The number of bytes of the encoding, or `None` where that number
    /// leaves `usize`.
    pub fn encoded_len(&self) -> (r: Option<usize>)
        ensures
            self@.encodable(),
            match r {
                Some(n) => n == spec_encode(self@).len(),
                None => spec_encode(self@).len() > usize::MAX,
            },
    {
        let version = Some(varint_len(self.version as u64));
        let app_name = text_len(self.app_name.as_str());
        let app_version = text_len(self.app_version.as_str());
        let lua_script = text_len(self.lua_script.as_str());
        let permissions = text_len(self.permissions.as_str());
        let using = text_len(self.using.as_str());
        add_len(
            add_len(add_len(add_len(add_len(version, app_name), app_version), lua_script), permissions),
            using,
        )
    }

    /// Encodes the container. The bytes are self-contained: `decode` gives
    /// the container back from them. Fails only where the encoding would be
    /// longer than `isize::MAX` bytes, which is more than a `Vec` holds.
    pub fn encode(&self) -> (r: Result<Vec<u8>, AfeError>)
        ensures
            self@.encodable(),
            match r {
                Ok(bytes) => bytes@ == spec_encode(self@),
                Err(e) => e == AfeError::Encoding && spec_encode(self@).len() > isize::MAX,
            },
    {
        match self.encoded_len() {
            Some(len) => {
                if len > isize::MAX as usize {
                    return Err(AfeError::Encoding);
                }
                match bincode_encode(self) {
                    Ok(bytes) => Ok(bytes),
                    Err(_) => Err(AfeError::Encoding),
                }
            },
            None => Err(AfeError::Encoding),
        }
    }

    /// Decodes a container from the whole of `bytes`. Succeeds exactly on
    /// the encodings of containers of the current version, and fails with
    /// `AfeError::Decoding` on everything else: bytes that are cut short or
    /// corrupt, that carry trailing data, or that declare another version.
    pub fn decode(bytes: &[u8]) -> (r: Result<AfeFile, AfeError>)
        ensures
            match r {
                Ok(c) => spec_decode(bytes@) == Ok::<_, AfeError>(c@),
                Err(e) => spec_decode(bytes@) == Err::<crate::container::AfeFileView, _>(e),
            },
    {
        proof {
            lemma_spec_decode_is_parse(bytes@);
            lemma_varint_of_parse_varint(bytes@);
            assert(bytes@.skip(0) =~= bytes@);
        }
        let (version, pos) = match read_varint(bytes, 0) {
            Some(found) => found,
            None => { return Err(AfeError::Decoding); },
        };
        if version == FORMAT_VERSION as u64 {
            match read_fields(bytes, pos) {
                Some(c) => Ok(c),
                None => Err(AfeError::Decoding),
            }
        } else {
            Err(AfeError::Decoding)
        }
    }
}

} // verus!
