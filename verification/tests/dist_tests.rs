//! Toolchain-name parsing, resolution and URL construction.

use rustup::dist::{PartialToolchainDesc, PartialTargetTriple, TargetTriple, ToolchainDesc};
use rustup::dist::validate_channel_name;
use rustup::errors::ErrorKind;

fn host() -> PartialTargetTriple {
    PartialTargetTriple::from_str("x86_64-unknown-linux-gnu").unwrap()
}

#[test]
fn update_invalid_toolchain() {
    let err = PartialToolchainDesc::from_str("nosuchtoolchain").unwrap_err();
    let msg = err.message("");
    assert!(msg.contains("invalid toolchain name"));
    assert_eq!(msg, "invalid toolchain name: 'nosuchtoolchain'");
}

#[test]
fn default_invalid_toolchain() {
    let err = ToolchainDesc::from_str("nosuchtoolchain").unwrap_err();
    assert_eq!(err.message(""), "invalid toolchain name: 'nosuchtoolchain'");
}

#[test]
fn default_none() {
    // With no default configured there is no toolchain name to parse at all.
    assert!(ToolchainDesc::from_str("").is_err());
    assert!(PartialToolchainDesc::from_str("").is_err());
}

#[test]
fn undefined_linked_toolchain() {
    assert!(PartialToolchainDesc::from_str("bogus").is_err());
}

#[test]
fn install_by_version_number() {
    let d = PartialToolchainDesc::from_str("1.1.0").unwrap();
    assert_eq!(d.channel, "1.1.0");
    assert!(d.date.is_none());
    let d = PartialToolchainDesc::from_str("1.10.0").unwrap();
    assert_eq!(d.channel, "1.10.0");
}

#[test]
fn custom_invalid_names() {
    // The channel names themselves parse; they are therefore refused as
    // custom toolchain names by the surrounding program.
    for name in ["nightly", "beta", "stable"] {
        let d = PartialToolchainDesc::from_str(name).unwrap();
        assert_eq!(d.channel, name);
        assert!(!d.has_triple());
    }
}

#[test]
fn custom_invalid_names_with_archive_dates() {
    let d = PartialToolchainDesc::from_str("nightly-2015-01-01").unwrap();
    assert_eq!(d.channel, "nightly");
    assert_eq!(d.date.as_deref(), Some("2015-01-01"));
}

#[test]
fn invalid_names_with_link_local() {
    // A name that is only a channel leaves no room for a link target.
    let d = PartialToolchainDesc::from_str("stable").unwrap();
    assert!(!d.has_triple());
    assert!(PartialToolchainDesc::from_str("stable-x86_64-unknown-linux-gnu")
        .unwrap()
        .has_triple());
}

#[test]
fn invalid_names_with_copy_local() {
    let d = PartialToolchainDesc::from_str("beta-2015-01-01").unwrap();
    assert_eq!(d.channel, "beta");
    assert!(!d.has_triple());
}

#[test]
fn partial_descriptor_prints_its_pieces() {
    let d = PartialToolchainDesc::from_str("nightly-2015-01-01-msvc").unwrap();
    assert_eq!(d.to_name(), "nightly-2015-01-01-msvc");
    let d = PartialToolchainDesc::from_str("beta").unwrap();
    assert_eq!(d.to_name(), "beta");
}

#[test]
fn toolchains_are_resolved_early() {
    let d = PartialToolchainDesc::from_str("nightly").unwrap();
    let full = d.resolve(&host()).unwrap();
    assert_eq!(full.to_name(), "nightly-x86_64-unknown-linux-gnu");
}

#[test]
fn multi_host_smoke_test() {
    // An explicitly-named triple survives resolution against another host.
    let d = PartialToolchainDesc::from_str("nightly-i686-unknown-linux-gnu").unwrap();
    let full = d.resolve(&host()).unwrap();
    assert_eq!(full.target.0, "i686-unknown-linux-gnu");
}

#[test]
fn default() {
    let d = PartialToolchainDesc::from_str("nightly").unwrap();
    let full = d.resolve(&host()).unwrap();
    assert_eq!(full.channel, "nightly");
    assert!(full.is_tracking());
}

#[test]
fn list_default_toolchain() {
    let d = ToolchainDesc::from_str("nightly-x86_64-unknown-linux-gnu").unwrap();
    assert_eq!(d.to_name(), "nightly-x86_64-unknown-linux-gnu");
    assert_eq!(d.full_spec(), "nightly-x86_64-unknown-linux-gnu (tracking)");
}

#[test]
fn show_toolchain_none() {
    // No installation root, no descriptor: only the host triple shows.
    let t = TargetTriple::from_str("x86_64-unknown-linux-gnu");
    assert_eq!(t.0, "x86_64-unknown-linux-gnu");
}

#[test]
fn show_toolchain_default() {
    let d = ToolchainDesc::from_str("stable-2015-01-02-x86_64-unknown-linux-gnu").unwrap();
    assert_eq!(d.channel, "stable");
    assert_eq!(d.date.as_deref(), Some("2015-01-02"));
    assert_eq!(d.target.0, "x86_64-unknown-linux-gnu");
    assert_eq!(d.full_spec(), "stable-2015-01-02-x86_64-unknown-linux-gnu");
}

#[test]
fn triple_decomposition_rejects_unknown_segments() {
    assert!(PartialTargetTriple::from_str("sparc-unknown-linux-gnu").is_none());
    assert!(PartialTargetTriple::from_str("x86_64-oops").is_none());
    let t = PartialTargetTriple::from_str("").unwrap();
    assert!(t.arch.is_none() && t.os.is_none() && t.env.is_none());
}

#[test]
fn triple_decomposition_variants() {
    let t = PartialTargetTriple::from_str("x86_64-unknown-linux-gnu").unwrap();
    assert_eq!(t.arch.as_deref(), Some("x86_64"));
    assert_eq!(t.os.as_deref(), Some("unknown-linux"));
    assert_eq!(t.env.as_deref(), Some("gnu"));

    let t = PartialTargetTriple::from_str("msvc").unwrap();
    assert!(t.arch.is_none());
    assert!(t.os.is_none());
    assert_eq!(t.env.as_deref(), Some("msvc"));

    let t = PartialTargetTriple::from_str("armv7-linux-androideabi").unwrap();
    assert_eq!(t.arch.as_deref(), Some("armv7"));
    assert_eq!(t.os.as_deref(), Some("linux"));
    assert_eq!(t.env.as_deref(), Some("androideabi"));
}

#[test]
fn resolve_does_not_inherit_host_env_when_os_given() {
    // Naming an OS without an ABI must not borrow the host's ABI.
    let d = PartialToolchainDesc::from_str("nightly-pc-windows").unwrap();
    let full = d.resolve(&host()).unwrap();
    assert_eq!(full.target.0, "x86_64-pc-windows");
}

#[test]
fn manifest_urls() {
    let d = ToolchainDesc::from_str("nightly-x86_64-unknown-linux-gnu").unwrap();
    assert_eq!(
        d.manifest_v1_url("https://example.com/dist", false),
        "https://example.com/dist/channel-rust-nightly"
    );
    assert_eq!(
        d.manifest_v2_url("https://example.com/dist", false),
        "https://example.com/dist/channel-rust-nightly.toml"
    );
    assert_eq!(
        d.manifest_v1_url("https://example.com/dist", true),
        "https://example.com/dist/staging/channel-rust-nightly"
    );
    let dated = ToolchainDesc::from_str("stable-2015-01-02-x86_64-unknown-linux-gnu").unwrap();
    assert_eq!(
        dated.manifest_v1_url("https://example.com/dist", false),
        "https://example.com/dist/2015-01-02/channel-rust-stable"
    );
    assert_eq!(dated.manifest_name(), "stable-2015-01-02");
    assert_eq!(dated.package_dir("https://example.com/dist"), "https://example.com/dist/2015-01-02");
    assert_eq!(d.manifest_name(), "nightly");
}

#[test]
fn validate_channel_name_rejects_triples() {
    assert!(validate_channel_name("nightly").is_ok());
    assert!(validate_channel_name("nightly-2015-01-01").is_ok());
    let err = validate_channel_name("nightly-x86_64-unknown-linux-gnu").unwrap_err();
    match err {
        ErrorKind::TargetTripleInChannelName(n) => {
            assert_eq!(n, "nightly-x86_64-unknown-linux-gnu")
        },
        _ => panic!("wrong error"),
    }
}

#[test]
fn host_triple_detection_table() {
    let t = TargetTriple::from_host("Linux", "x86_64").unwrap();
    assert_eq!(t.0, "x86_64-unknown-linux-gnu");
    let t = TargetTriple::from_host("Darwin", "x86_64").unwrap();
    assert_eq!(t.0, "x86_64-apple-darwin");
    assert!(TargetTriple::from_host("Plan9", "x86_64").is_none());
    let build = TargetTriple::from_str("x86_64-unknown-linux-gnu");
    let picked = TargetTriple::from_host_or_build(None, build);
    assert_eq!(picked.0, "x86_64-unknown-linux-gnu");
}

#[test]
fn v1_listing_package_url() {
    let listing = rustup::dist::Manifest {
        lines: vec![
            "rust-nightly-x86_64-unknown-linux-gnu.tar.gz".to_string(),
            "rustc-nightly-i686-unknown-linux-gnu.tar.gz".to_string(),
        ],
        root: "https://example.com/dist/2015-01-01".to_string(),
    };
    let url = listing.package_url("rust", "x86_64-unknown-linux-gnu", ".tar.gz").unwrap();
    assert_eq!(
        url,
        "https://example.com/dist/2015-01-01/rust-nightly-x86_64-unknown-linux-gnu.tar.gz"
    );
    assert!(listing.package_url("cargo", "x86_64-unknown-linux-gnu", ".tar.gz").is_none());
}
