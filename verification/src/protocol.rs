//! The manifest-fetch protocol's decisions: prefer the current
//! structured format, fall back to the legacy listing exactly on "not
//! found", and treat a manifest checksum failure as "try again later"
//! rather than a hard error.  The fetches themselves are the caller's
//! concern; it reports each outcome here and performs what is decided.

use vstd::prelude::*;
use crate::errors::ErrorKind;
use crate::notifications::Notification;

verus! {

/// What a fetch of the current-format manifest came back with.
#[derive(Debug)]
pub enum FetchOutcome {
    /// The document and the hash it was served under.
    Fetched(String, String),
    /// The recorded update hash already matched: nothing newer exists.
    UpToDate,
    /// The URL names nothing.
    NotFound,
    /// The fetched document did not match its advertised hash.
    ChecksumFailed,
    /// Any other transport failure, with its text.
    Failed(String),
}

/// What the update should do next after the current-format fetch.
#[derive(Debug)]
pub enum V2Decision {
    /// Parse and apply this document, recording this hash.
    UseManifest(String, String),
    /// Report no update; the soft-fail cases land here.
    NoUpdate,
    /// Try the legacy listing.
    FallbackToV1,
    /// Propagate the failure.
    Fail(ErrorKind),
}

/// Decides the next step after fetching the current-format manifest:
/// a found document is used; "not found" falls back to the legacy
/// format; a checksum mismatch is reported as "no update yet" (a
/// transient publish race more often than an attack); anything else
/// propagates.
pub fn resolve_v2_outcome(outcome: FetchOutcome, notifications: &mut Vec<Notification>) -> (r:
    V2Decision)
    ensures
        match outcome {
            FetchOutcome::Fetched(doc, hash) => (r matches V2Decision::UseManifest(d, h)
                && d@ == doc@ && h@ == hash@)
                && final(notifications)@ == old(notifications)@,
            FetchOutcome::UpToDate => r is NoUpdate
                && final(notifications)@ == old(notifications)@,
            FetchOutcome::NotFound => r is FallbackToV1
                && final(notifications)@ == old(notifications)@.push(
                    Notification::DownloadingLegacyManifest,
                ),
            FetchOutcome::ChecksumFailed => r is NoUpdate
                && final(notifications)@ == old(notifications)@.push(
                    Notification::ManifestChecksumFailedHack,
                ),
            FetchOutcome::Failed(_) => r is Fail
                && final(notifications)@ == old(notifications)@,
        },
{
    match outcome {
        FetchOutcome::Fetched(doc, hash) => V2Decision::UseManifest(doc, hash),
        FetchOutcome::UpToDate => V2Decision::NoUpdate,
        FetchOutcome::NotFound => {
            notifications.push(Notification::DownloadingLegacyManifest);
            V2Decision::FallbackToV1
        },
        FetchOutcome::ChecksumFailed => {
            notifications.push(Notification::ManifestChecksumFailedHack);
            V2Decision::NoUpdate
        },
        FetchOutcome::Failed(text) => V2Decision::Fail(ErrorKind::DownloadingFile { url: text }),
    }
}

/// Decides what a legacy-listing fetch outcome means: "not found" here
/// is the end of the road — there is no release for the toolchain.  A
/// checksum failure on the listing is, like every manifest checksum
/// failure, a soft "try again later"; and a listing the recorded hash
/// already covers means there is nothing newer.
pub fn resolve_v1_outcome(
    outcome: FetchOutcome,
    manifest_name: &String,
    notifications: &mut Vec<Notification>,
) -> (r: Result<Option<String>, ErrorKind>)
    ensures
        match outcome {
            FetchOutcome::Fetched(doc, hash) => (r matches Ok(d) && d matches Some(t)
                && t@ == doc@) && final(notifications)@ == old(notifications)@,
            FetchOutcome::UpToDate => (r matches Ok(d) && d is None)
                && final(notifications)@ == old(notifications)@,
            FetchOutcome::NotFound => (r matches Err(e)
                && e matches ErrorKind::MissingReleaseForToolchain(n) && n@ == manifest_name@)
                && final(notifications)@ == old(notifications)@,
            FetchOutcome::ChecksumFailed => (r matches Ok(d) && d is None)
                && final(notifications)@ == old(notifications)@.push(
                    Notification::ManifestChecksumFailedHack,
                ),
            FetchOutcome::Failed(_) => (r matches Err(e)
                && e matches ErrorKind::DownloadingFile { .. })
                && final(notifications)@ == old(notifications)@,
        },
{
    match outcome {
        FetchOutcome::Fetched(doc, _hash) => Ok(Some(doc)),
        FetchOutcome::UpToDate => Ok(None),
        FetchOutcome::NotFound => Err(ErrorKind::MissingReleaseForToolchain(
            manifest_name.clone(),
        )),
        FetchOutcome::ChecksumFailed => {
            notifications.push(Notification::ManifestChecksumFailedHack);
            Ok(None)
        },
        FetchOutcome::Failed(text) => Err(ErrorKind::DownloadingFile { url: text }),
    }
}

/// Whether a transfer's status code means success: the `2xx` family, or
/// the zero code file transfers report.
pub fn http_status_ok(code: u32) -> (r: bool)
    ensures
        r == (code == 0 || (200 <= code && code <= 299)),
{
    code == 0 || (200 <= code && code <= 299)
}

/// For an explicit version on the legacy path there never was a
/// listing: the installer archive's location is known outright.
pub fn v1_synthetic_listing(root_url: &String, channel: &String, target: &String) -> (r: Vec<
    String,
>)
    ensures
        r@.len() == 1,
        r@[0]@ == root_url@ + "/rust-"@ + channel@ + "-"@ + target@ + ".tar.gz"@,
{
    let mut url = root_url.clone();
    url.append("/rust-");
    url.append(channel.as_str());
    url.append("-");
    url.append(target.as_str());
    url.append(".tar.gz");
    let mut v: Vec<String> = Vec::new();
    v.push(url);
    v
}

} // verus!
