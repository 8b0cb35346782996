//! Restore: an archive image handed over as base64 text becomes a restore plan.

use vstd::prelude::*;
use crate::archive::{ReadEntry, RestorePlan, restore_plan_of};
use crate::codec::{ArchiveError, enclosed_are_names, read_view, unpack, zip_image};
use crate::sync::SyncError;

verus! {

/// Name for what the standard base64 alphabet (with padding) decodes a text
/// to, if it is valid.
pub uninterp spec fn base64_decoded(s: Seq<char>) -> Option<Seq<u8>>;

/// Relies on `base64::engine::general_purpose::STANDARD.decode`: the bytes
/// the text encodes, or none when it is not valid base64.
#[verifier::external_body]
fn decode_base64(s: &str) -> (r: Option<Vec<u8>>)
    ensures
        r is Some <==> base64_decoded(s@) is Some,
        r is Some ==> r->0@ == base64_decoded(s@)->0,
{
    base64::Engine::decode(&base64::engine::general_purpose::STANDARD, s).ok()
}

/// The restore plan of an archive image given as base64 text, planned as
/// `plan_unpack` does on the entries zip's reader finds in the decoded
/// bytes. Text that is not valid base64, bytes the reader cannot open, and
/// an entry that cannot be read are `Corrupt`.
pub fn restore_plan_from_base64(data: &str) -> (r: Result<RestorePlan, SyncError>)
    ensures
        base64_decoded(data@) is None ==> r is Err,
        base64_decoded(data@) is Some && zip_image(base64_decoded(data@)->0) is None ==> r is Err,
        r is Err ==> r->Err_0 is Corrupt,
        r is Ok ==> base64_decoded(data@) is Some && exists|es: Seq<ReadEntry>| {
            &&& r->Ok_0@ == restore_plan_of(es)
            &&& zip_image(base64_decoded(data@)->0) == Some(read_view(es))
            &&& enclosed_are_names(es)
        },
{
    let bytes = match decode_base64(data) {
        Some(b) => b,
        None => return Err(SyncError::Corrupt(String::from_str("archive data is not valid base64"))),
    };
    match unpack(bytes) {
        Ok(plan) => Ok(plan),
        Err(ArchiveError::Corrupt(m)) | Err(ArchiveError::Io(m)) => Err(SyncError::Corrupt(m)),
    }
}

} // verus!
