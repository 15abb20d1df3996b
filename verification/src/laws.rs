//! What holds of the library's functions taken together. Each law is stated
//! of every outcome that the contracts of the functions admit.

use vstd::prelude::*;
use crate::builder::AfeBuilder;
use crate::container::{AfeFile, FORMAT_VERSION};
use crate::error::AfeError;
use crate::format::lemma_decode_of_encode;

verus! {

/// Round trip: a container of the current version decodes from its own
/// encoding, and what comes back equals it in every field. `bytes` is what
/// `encode` returned for `file`, and `back` what `decode` returned for
/// those bytes.
pub proof fn lemma_round_trip(
    file: AfeFile,
    bytes: Vec<u8>,
    stored: &[u8],
    back: Result<AfeFile, AfeError>,
)
    requires
        file.version == FORMAT_VERSION,
        call_ensures(AfeFile::encode, (&file,), Ok::<_, AfeError>(bytes)),
        stored@ == bytes@,
        call_ensures(AfeFile::decode, (stored,), back),
    ensures
        back matches Ok(decoded) && decoded@ == file@,
{
    lemma_decode_of_encode(file@);
}

/// Taking a snapshot is pure: two snapshots of one builder in one state,
/// under one tag, are equal in every field.
pub proof fn lemma_build_twice(builder: AfeBuilder, using: String, first: AfeFile, second: AfeFile)
    requires
        call_ensures(AfeBuilder::build, (&builder, using), first),
        call_ensures(AfeBuilder::build, (&builder, using), second),
    ensures
        first@ == second@,
{
}

/// A snapshot is independent of the builder it came from. `snapshot` was
/// taken from `builder`; `later` is the builder in any state it has moved on
/// to since, and `later_snapshot` a snapshot taken from it then. The earlier
/// snapshot still holds the texts that the builder had when it was taken,
/// and the later one those of the later state: neither depends on the other.
pub proof fn lemma_snapshot_independent(
    builder: AfeBuilder,
    using: String,
    snapshot: AfeFile,
    later: AfeBuilder,
    later_using: String,
    later_snapshot: AfeFile,
)
    requires
        call_ensures(AfeBuilder::build, (&builder, using), snapshot),
        call_ensures(AfeBuilder::build, (&later, later_using), later_snapshot),
    ensures
        snapshot@ == builder@.snapshot(using@),
        later_snapshot@ == later@.snapshot(later_using@),
{
}

} // verus!
