//! The calls into code that Verus does not read. Each contract below is
//! taken on trust; everything else in the library is proved from them.

use vstd::prelude::*;
use vstd::utf8::*;
use crate::container::AfeFile;
use crate::format::spec_encode;

verus! {

/// The error type of `bincode`'s encoder, carried through unopened.
#[verifier::external_type_specification]
#[verifier::external_body]
pub struct ExEncodeError(bincode::error::EncodeError);

/// `bincode::encode_to_vec` under `bincode::config::standard()`, applied to
/// the six fields of a container as a tuple, in the order of the fields.
///
/// Claimed of it: the call succeeds, and the bytes are `spec_encode` of the
/// container. That configuration writes integers in the variable-length
/// form with the wider forms little-endian, a `u32` and a length alike; a
/// `str` as the length of its bytes, taken as a `u64`, then the bytes; a
/// tuple as its members one after another. The writer appends to a `Vec` and
/// reports no failure. The encoder first counts the bytes and reserves a
/// `Vec` of that capacity, which panics beyond `isize::MAX` bytes: hence the
/// bound on the length.
#[verifier::external_body]
pub(crate) fn bincode_encode(file: &AfeFile) -> (r: Result<Vec<u8>, bincode::error::EncodeError>)
    requires
        file@.encodable(),
        spec_encode(file@).len() <= isize::MAX,
    ensures
        r is Ok,
        r matches Ok(bytes) ==> bytes@ == spec_encode(file@),
{
    bincode::encode_to_vec(
        (
            file.version,
            file.app_name.as_str(),
            file.app_version.as_str(),
            file.lua_script.as_str(),
            file.permissions.as_str(),
            file.using.as_str(),
        ),
        bincode::config::standard(),
    )
}

/// `core::str::from_utf8`, with its error dropped.
///
/// Claimed of it: it accepts exactly the byte strings that are valid UTF-8,
/// and the string it returns has the given bytes as its UTF-8 form.
#[verifier::external_body]
pub(crate) fn str_from_utf8(bytes: &[u8]) -> (r: Option<&str>)
    ensures
        r is Some <==> valid_utf8(bytes@),
        r matches Some(s) ==> encode_utf8(s@) == bytes@,
{
    match core::str::from_utf8(bytes) {
        Ok(s) => Some(s),
        Err(_) => None,
    }
}

} // verus!
