//! Notifications this crate hands, fire-and-forget, to its progress and
//! logging collaborator, each with a severity the collaborator may use
//! to filter.

use vstd::prelude::*;
use crate::dist::TargetTriple;
use crate::manifest::Component;

verus! {

/// Severities, as the collaborator filters them.  The crate itself
/// emits nothing at the `Error` level: the one error-level report of an
/// installer — a rollback that itself fails — cannot happen here, since
/// rollback over the modelled root is proved to restore it exactly.
/// The level remains for the collaborator's own reports.
#[derive(Debug, Clone, Copy, PartialEq, Eq, Structural)]
pub enum NotificationLevel {
    Verbose,
    Info,
    Warn,
    Error,
}

#[derive(Debug)]
pub enum Notification {
    Extracting,
    ComponentAlreadyInstalled(Component),
    ChecksumValid(String),
    NoUpdateHash(String),
    FileAlreadyDownloaded,
    CachedFileChecksumFailed,
    RollingBack,
    ExtensionNotInstalled(String),
    MissingInstalledComponent(String),
    DownloadingComponent(String, TargetTriple, Option<TargetTriple>),
    InstallingComponent(String, TargetTriple, Option<TargetTriple>),
    RemovingComponent(String, TargetTriple, Option<TargetTriple>),
    DownloadingManifest(String),
    DownloadedManifest(String, Option<String>),
    DownloadingLegacyManifest,
    ManifestChecksumFailedHack,
    ComponentUnavailable(String, Option<TargetTriple>),
    ResumingPartialDownload,
    DownloadContentLengthReceived(u64),
    DownloadDataReceived(usize),
}

/// The severity of each notification.
pub open spec fn level_spec(n: &Notification) -> NotificationLevel {
    match n {
        Notification::ChecksumValid(_) => NotificationLevel::Verbose,
        Notification::NoUpdateHash(_) => NotificationLevel::Verbose,
        Notification::FileAlreadyDownloaded => NotificationLevel::Verbose,
        Notification::DownloadingLegacyManifest => NotificationLevel::Verbose,
        Notification::ResumingPartialDownload => NotificationLevel::Verbose,
        Notification::DownloadContentLengthReceived(_) => NotificationLevel::Verbose,
        Notification::DownloadDataReceived(_) => NotificationLevel::Verbose,
        Notification::Extracting => NotificationLevel::Info,
        Notification::ComponentAlreadyInstalled(_) => NotificationLevel::Info,
        Notification::RollingBack => NotificationLevel::Info,
        Notification::DownloadingComponent(_, _, _) => NotificationLevel::Info,
        Notification::InstallingComponent(_, _, _) => NotificationLevel::Info,
        Notification::RemovingComponent(_, _, _) => NotificationLevel::Info,
        Notification::DownloadingManifest(_) => NotificationLevel::Info,
        Notification::DownloadedManifest(_, _) => NotificationLevel::Info,
        Notification::ManifestChecksumFailedHack => NotificationLevel::Info,
        Notification::CachedFileChecksumFailed => NotificationLevel::Warn,
        Notification::ExtensionNotInstalled(_) => NotificationLevel::Warn,
        Notification::MissingInstalledComponent(_) => NotificationLevel::Warn,
        Notification::ComponentUnavailable(_, _) => NotificationLevel::Warn,
    }
}

/// The message of a component action: named alone when it is for the
/// host's own triple (or none), and with its target otherwise.
pub open spec fn component_action_msg(
    verb: Seq<char>,
    c: Seq<char>,
    host: Seq<char>,
    t: Option<Seq<char>>,
) -> Seq<char> {
    match t {
        Some(tt) => if tt == host {
            verb + " component '"@ + c + "'"@
        } else {
            verb + " component '"@ + c + "' for '"@ + tt + "'"@
        },
        None => verb + " component '"@ + c + "'"@,
    }
}

/// The text of each notification.
pub open spec fn message_spec(n: &Notification) -> Seq<char> {
    match n {
        Notification::Extracting => "extracting..."@,
        Notification::ComponentAlreadyInstalled(c) => "component "@
            + crate::manifest::component_name_spec(c@) + " is up to date"@,
        Notification::ChecksumValid(_) => "checksum passed"@,
        Notification::NoUpdateHash(p) => "no update hash at: '"@ + p@ + "'"@,
        Notification::FileAlreadyDownloaded => "reusing previously downloaded file"@,
        Notification::CachedFileChecksumFailed => "bad checksum for cached download"@,
        Notification::RollingBack => "rolling back changes"@,
        Notification::ExtensionNotInstalled(c) => "extension '"@ + c@ + "' was not installed"@,
        Notification::MissingInstalledComponent(c) => "during uninstall component "@ + c@
            + " was not found"@,
        Notification::DownloadingComponent(c, h, t) => component_action_msg(
            "downloading"@, c@, h@, crate::strutil::opt_view_triple(t),
        ),
        Notification::InstallingComponent(c, h, t) => component_action_msg(
            "installing"@, c@, h@, crate::strutil::opt_view_triple(t),
        ),
        Notification::RemovingComponent(c, h, t) => component_action_msg(
            "removing"@, c@, h@, crate::strutil::opt_view_triple(t),
        ),
        Notification::DownloadingManifest(t) => "syncing channel updates for '"@ + t@ + "'"@,
        Notification::DownloadedManifest(date, Some(version)) => "latest update on "@ + date@
            + ", rust version "@ + version@,
        Notification::DownloadedManifest(date, None) => "latest update on "@ + date@
            + ", no rust version"@,
        Notification::DownloadingLegacyManifest => "manifest not found. trying legacy manifest"@,
        Notification::ManifestChecksumFailedHack =>
            "update not yet available, sorry! try again later"@,
        Notification::ComponentUnavailable(pkg, Some(t)) => "component '"@ + pkg@
            + "' is not available on target '"@ + t@ + "'"@,
        Notification::ComponentUnavailable(pkg, None) => "component '"@ + pkg@
            + "' is not available"@,
        Notification::ResumingPartialDownload => "resuming partial download"@,
        Notification::DownloadContentLengthReceived(_) => "download size received"@,
        Notification::DownloadDataReceived(_) => "download data received"@,
    }
}

fn component_action_message(verb: &str, c: &String, h: &TargetTriple, t: &Option<TargetTriple>)
    -> (r: String)
    ensures
        r@ == component_action_msg(verb@, c@, h@, crate::strutil::opt_view_triple(t)),
{
    let mut s = verb.to_owned();
    match t {
        Some(tt) => {
            if crate::strutil::str_eq_str(tt.0.as_str(), h.0.as_str()) {
                s.append(" component '");
                s.append(c.as_str());
                s.append("'");
            } else {
                s.append(" component '");
                s.append(c.as_str());
                s.append("' for '");
                s.append(tt.0.as_str());
                s.append("'");
            }
        },
        None => {
            s.append(" component '");
            s.append(c.as_str());
            s.append("'");
        },
    }
    s
}

impl Notification {
    /// The human-readable text of the notification.
    pub fn message(&self) -> (r: String)
        ensures
            r@ == message_spec(self),
    {
        match self {
            Notification::Extracting => "extracting...".to_owned(),
            Notification::ComponentAlreadyInstalled(c) => {
                let mut s = "component ".to_owned();
                let name = c.name();
                s.append(name.as_str());
                s.append(" is up to date");
                s
            },
            Notification::ChecksumValid(_) => "checksum passed".to_owned(),
            Notification::NoUpdateHash(p) => {
                let mut s = "no update hash at: '".to_owned();
                s.append(p.as_str());
                s.append("'");
                s
            },
            Notification::FileAlreadyDownloaded => "reusing previously downloaded file".to_owned(),
            Notification::CachedFileChecksumFailed => "bad checksum for cached download".to_owned(),
            Notification::RollingBack => "rolling back changes".to_owned(),
            Notification::ExtensionNotInstalled(c) => {
                let mut s = "extension '".to_owned();
                s.append(c.as_str());
                s.append("' was not installed");
                s
            },
            Notification::MissingInstalledComponent(c) => {
                let mut s = "during uninstall component ".to_owned();
                s.append(c.as_str());
                s.append(" was not found");
                s
            },
            Notification::DownloadingComponent(c, h, t) => {
                component_action_message("downloading", c, h, t)
            },
            Notification::InstallingComponent(c, h, t) => {
                component_action_message("installing", c, h, t)
            },
            Notification::RemovingComponent(c, h, t) => {
                component_action_message("removing", c, h, t)
            },
            Notification::DownloadingManifest(t) => {
                let mut s = "syncing channel updates for '".to_owned();
                s.append(t.as_str());
                s.append("'");
                s
            },
            Notification::DownloadedManifest(date, Some(version)) => {
                let mut s = "latest update on ".to_owned();
                s.append(date.as_str());
                s.append(", rust version ");
                s.append(version.as_str());
                s
            },
            Notification::DownloadedManifest(date, None) => {
                let mut s = "latest update on ".to_owned();
                s.append(date.as_str());
                s.append(", no rust version");
                s
            },
            Notification::DownloadingLegacyManifest => {
                "manifest not found. trying legacy manifest".to_owned()
            },
            Notification::ManifestChecksumFailedHack => {
                "update not yet available, sorry! try again later".to_owned()
            },
            Notification::ComponentUnavailable(pkg, Some(t)) => {
                let mut s = "component '".to_owned();
                s.append(pkg.as_str());
                s.append("' is not available on target '");
                s.append(t.0.as_str());
                s.append("'");
                s
            },
            Notification::ComponentUnavailable(pkg, None) => {
                let mut s = "component '".to_owned();
                s.append(pkg.as_str());
                s.append("' is not available");
                s
            },
            Notification::ResumingPartialDownload => "resuming partial download".to_owned(),
            Notification::DownloadContentLengthReceived(_) => "download size received".to_owned(),
            Notification::DownloadDataReceived(_) => "download data received".to_owned(),
        }
    }

    pub fn level(&self) -> (r: NotificationLevel)
        ensures
            r == level_spec(self),
    {
        match self {
            Notification::ChecksumValid(_)
            | Notification::NoUpdateHash(_)
            | Notification::FileAlreadyDownloaded
            | Notification::DownloadingLegacyManifest
            | Notification::ResumingPartialDownload
            | Notification::DownloadContentLengthReceived(_)
            | Notification::DownloadDataReceived(_) => NotificationLevel::Verbose,
            Notification::Extracting
            | Notification::ComponentAlreadyInstalled(_)
            | Notification::RollingBack
            | Notification::DownloadingComponent(_, _, _)
            | Notification::InstallingComponent(_, _, _)
            | Notification::RemovingComponent(_, _, _)
            | Notification::DownloadingManifest(_)
            | Notification::DownloadedManifest(_, _)
            | Notification::ManifestChecksumFailedHack => NotificationLevel::Info,
            Notification::CachedFileChecksumFailed
            | Notification::ExtensionNotInstalled(_)
            | Notification::MissingInstalledComponent(_)
            | Notification::ComponentUnavailable(_, _) => NotificationLevel::Warn,
        }
    }
}

} // verus!
