//! The error taxonomy of the crate.
//!
//! Transport errors distinguish "not found" (drives the legacy-format
//! fallback) from everything else; integrity errors distinguish a manifest
//! checksum failure (soft) from a component checksum failure (hard);
//! availability errors batch every unavailable component into one value.

use vstd::prelude::*;
use crate::manifest::{Component, ComponentV, component_name_spec, cviews};

verus! {

/// The removal hint for one unavailable component.
pub open spec fn remove_component_msg_spec(c: ComponentV, toolchain: Seq<char>) -> Seq<char> {
    "    rustup component remove --toolchain "@ + toolchain + " "@ + component_name_spec(c)
}

/// The hints for a batch of unavailable components, one per line.
pub open spec fn remove_msgs_from(cs: Seq<ComponentV>, toolchain: Seq<char>, i: int) -> Seq<char>
    decreases cs.len() - i,
{
    if i < 0 || i >= cs.len() {
        Seq::empty()
    } else {
        remove_component_msg_spec(cs[i], toolchain) + "\n"@ + remove_msgs_from(cs, toolchain, i + 1)
    }
}

/// The message of an availability failure: every affected component in
/// one report, with the removal commands that would drop them.
pub open spec fn component_unavailable_msg_spec(cs: Seq<ComponentV>, toolchain: Seq<char>) -> Seq<char> {
    if cs.len() == 1 {
        "component '"@ + component_name_spec(cs[0])
            + "' is unavailable for download for channel '"@ + toolchain
            + "'\nIf you don't need the component, you can remove it with:\n\n"@
            + remove_component_msg_spec(cs[0], toolchain)
    } else {
        "some components unavailable for download for channel '"@ + toolchain
            + "'\nIf you don't need the components, you can remove them with:\n\n"@
            + remove_msgs_from(cs, toolchain, 0)
    }
}

/// The removal hint for one component.
pub fn remove_component_msg(c: &Component, toolchain: &str) -> (r: String)
    ensures
        r@ == remove_component_msg_spec(c@, toolchain@),
{
    let mut s = "    rustup component remove --toolchain ".to_owned();
    s.append(toolchain);
    s.append(" ");
    let name = c.name();
    s.append(name.as_str());
    s
}

/// Renders an availability failure: one component with its hint, or the
/// whole batch with every hint, never one at a time.
pub fn component_unavailable_msg(cs: &Vec<Component>, toolchain: &str) -> (r: String)
    requires
        cs@.len() > 0,
    ensures
        r@ == component_unavailable_msg_spec(cviews(cs@), toolchain@),
{
    let ghost csv = cviews(cs@);
    if cs.len() == 1 {
        let mut s = "component '".to_owned();
        let name = cs[0].name();
        s.append(name.as_str());
        s.append("' is unavailable for download for channel '");
        s.append(toolchain);
        s.append("'\nIf you don't need the component, you can remove it with:\n\n");
        let hint = remove_component_msg(&cs[0], toolchain);
        s.append(hint.as_str());
        proof {
            assert(csv[0] == cs@[0]@);
        }
        s
    } else {
        let mut s = "some components unavailable for download for channel '".to_owned();
        s.append(toolchain);
        s.append("'\nIf you don't need the components, you can remove them with:\n\n");
        let ghost header = s@;
        let mut i: usize = 0;
        while i < cs.len()
            invariant
                i <= cs@.len(),
                csv == cviews(cs@),
                header + remove_msgs_from(csv, toolchain@, 0)
                    == s@ + remove_msgs_from(csv, toolchain@, i as int),
            decreases cs@.len() - i,
        {
            let ghost before = s@;
            let hint = remove_component_msg(&cs[i], toolchain);
            s.append(hint.as_str());
            s.append("\n");
            proof {
                assert(csv[i as int] == cs@[i as int]@);
                assert(s@ =~= before + (remove_component_msg_spec(csv[i as int], toolchain@)
                    + "\n"@));
                assert(before + (remove_component_msg_spec(csv[i as int], toolchain@) + "\n"@
                    + remove_msgs_from(csv, toolchain@, i + 1))
                    =~= (before + (remove_component_msg_spec(csv[i as int], toolchain@) + "\n"@))
                        + remove_msgs_from(csv, toolchain@, i + 1));
                assert(remove_msgs_from(csv, toolchain@, i as int)
                    == remove_component_msg_spec(csv[i as int], toolchain@) + "\n"@
                        + remove_msgs_from(csv, toolchain@, i + 1));
                assert(remove_component_msg_spec(csv[i as int], toolchain@) + "\n"@
                    + remove_msgs_from(csv, toolchain@, i + 1)
                    =~= remove_component_msg_spec(csv[i as int], toolchain@) + ("\n"@
                        + remove_msgs_from(csv, toolchain@, i + 1)));
            }
            i += 1;
        }
        proof {
            assert(remove_msgs_from(csv, toolchain@, csv.len() as int) =~= Seq::<char>::empty());
            assert(s@ + Seq::<char>::empty() =~= s@);
        }
        s
    }
}

#[derive(Debug)]
pub enum ErrorKind {
    /// A toolchain name that matches no channel grammar.
    InvalidToolchainName(String),
    /// An installed-config version this crate does not understand.
    UnsupportedVersion(String),
    /// A downloaded file whose hash does not match the advertised one.
    ChecksumFailed { url: String, expected: String, calculated: String },
    /// A component package whose download failed.
    ComponentDownloadFailed(String),
    /// A component package that does not hold the component it advertises.
    CorruptComponent(String),
    /// An install that would overwrite a file some other component owns.
    ComponentConflict { name: String, path: String },
    /// An uninstall that found a receipt naming a file that is gone.
    ComponentMissingFile { name: String, path: String },
    /// Components requested for install that the manifest reports
    /// unavailable for their target, batched.
    RequestedComponentsUnavailable(Vec<Component>),
    /// A document that could not be parsed.
    Parsing(String),
    /// A manifest that names no package for a component.
    MissingPackageForComponent(String),
    /// No release was found for the toolchain.
    MissingReleaseForToolchain(String),
    /// The server answered a current-format request with the legacy format.
    ObsoleteDistManifest,
    /// The legacy listing offers no binary package for the target.
    BinaryPackageNotProvided(String),
    /// A fetch that found nothing at the URL.
    DownloadNotExists { url: String },
    /// Any other transport failure, with its text.
    DownloadingFile { url: String },
    /// A channel name that carries a target triple.
    TargetTripleInChannelName(String),
    /// A file read that failed in the modelled prefix.
    ReadingFile { name: String, path: String },
}

impl ErrorKind {
    /// The human-readable message of the error.  Batched availability
    /// errors render every affected component, never just the first.
    pub fn message(&self, toolchain: &str) -> (r: String)
        ensures
            match self {
                ErrorKind::InvalidToolchainName(t) => r@ == "invalid toolchain name: '"@ + t@
                    + "'"@,
                ErrorKind::UnsupportedVersion(v) => r@ == "manifest version '"@ + v@
                    + "' is not supported"@,
                ErrorKind::ChecksumFailed { url: _, expected, calculated } => r@ ==
                    "checksum failed, expected: '"@ + expected@ + "', calculated: '"@
                    + calculated@ + "'"@,
                ErrorKind::ComponentDownloadFailed(c) => r@ == "component download failed for "@
                    + c@,
                ErrorKind::CorruptComponent(c) => r@ == "component manifest for '"@ + c@
                    + "' is corrupt"@,
                ErrorKind::RequestedComponentsUnavailable(cs) => cs@.len() > 0
                    ==> r@ == component_unavailable_msg_spec(cviews(cs@), toolchain@),
                ErrorKind::MissingPackageForComponent(n) => r@ ==
                    "server sent a broken manifest: missing package for component "@ + n@,
                ErrorKind::MissingReleaseForToolchain(n) => r@ == "no release found for '"@ + n@
                    + "'"@,
                ErrorKind::ObsoleteDistManifest => r@ ==
                    "the server unexpectedly provided an obsolete version of the distribution manifest"@,
                ErrorKind::BinaryPackageNotProvided(t) => r@ ==
                    "binary package was not provided for '"@ + t@ + "'"@,
                ErrorKind::TargetTripleInChannelName(n) => r@ ==
                    "target triple in channel name '"@ + n@ + "'"@,
                _ => true,
            },
    {
        match self {
            ErrorKind::InvalidToolchainName(t) => {
                let mut s = "invalid toolchain name: '".to_owned();
                s.append(t.as_str());
                s.append("'");
                s
            },
            ErrorKind::UnsupportedVersion(v) => {
                let mut s = "manifest version '".to_owned();
                s.append(v.as_str());
                s.append("' is not supported");
                s
            },
            ErrorKind::ChecksumFailed { url: _, expected, calculated } => {
                let mut s = "checksum failed, expected: '".to_owned();
                s.append(expected.as_str());
                s.append("', calculated: '");
                s.append(calculated.as_str());
                s.append("'");
                s
            },
            ErrorKind::ComponentDownloadFailed(c) => {
                let mut s = "component download failed for ".to_owned();
                s.append(c.as_str());
                s
            },
            ErrorKind::CorruptComponent(c) => {
                let mut s = "component manifest for '".to_owned();
                s.append(c.as_str());
                s.append("' is corrupt");
                s
            },
            ErrorKind::RequestedComponentsUnavailable(cs) => {
                if cs.len() > 0 {
                    component_unavailable_msg(cs, toolchain)
                } else {
                    "some requested components are unavailable to download".to_owned()
                }
            },
            ErrorKind::MissingPackageForComponent(n) => {
                let mut s = "server sent a broken manifest: missing package for component "
                    .to_owned();
                s.append(n.as_str());
                s
            },
            ErrorKind::MissingReleaseForToolchain(n) => {
                let mut s = "no release found for '".to_owned();
                s.append(n.as_str());
                s.append("'");
                s
            },
            ErrorKind::ObsoleteDistManifest => {
                "the server unexpectedly provided an obsolete version of the distribution manifest"
                    .to_owned()
            },
            ErrorKind::BinaryPackageNotProvided(t) => {
                let mut s = "binary package was not provided for '".to_owned();
                s.append(t.as_str());
                s.append("'");
                s
            },
            ErrorKind::TargetTripleInChannelName(n) => {
                let mut s = "target triple in channel name '".to_owned();
                s.append(n.as_str());
                s.append("'");
                s
            },
            ErrorKind::ComponentConflict { name, path } => {
                let mut s = "failed to install component: '".to_owned();
                s.append(name.as_str());
                s.append("', detected conflict: '");
                s.append(path.as_str());
                s.append("'");
                s
            },
            ErrorKind::ComponentMissingFile { name, path } => {
                let mut s = "failure removing component '".to_owned();
                s.append(name.as_str());
                s.append("', file does not exist: '");
                s.append(path.as_str());
                s.append("'");
                s
            },
            ErrorKind::Parsing(e) => {
                let mut s = "error parsing manifest: ".to_owned();
                s.append(e.as_str());
                s
            },
            ErrorKind::DownloadNotExists { url } => {
                let mut s = "could not download file from '".to_owned();
                s.append(url.as_str());
                s.append("'");
                s
            },
            ErrorKind::DownloadingFile { url } => {
                let mut s = "could not download file: ".to_owned();
                s.append(url.as_str());
                s
            },
            ErrorKind::ReadingFile { name, path } => {
                let mut s = "could not read ".to_owned();
                s.append(name.as_str());
                s.append(" file: '");
                s.append(path.as_str());
                s.append("'");
                s
            },
        }
    }
}

} // verus!
