//! Properties across the smaller units: the download cache, the
//! renderers and parsers, the scheduling policy, and the interactive
//! decisions.

use rustup::changeset::Changes;
use rustup::cli::{
    component_for_bin, confirm_choice, get_path, install_msg, remove_source_line,
    restore_path, Confirm, SelfUpdatePermission, self_update_permitted_decision,
};
use rustup::config::Config;
use rustup::diskio::{executor_choice, Executor, ExecutorChoice, ImmediateUnpacker, Item, WorkLedger};
use rustup::dist::{PartialToolchainDesc, TargetTriple};
use rustup::download::{
    cache_clean_selection, cached_file_usable, file_hash, hex_encode, parse_content_length,
    parse_u64, rewrite_dist_server, update_hash_matches, verify_checksum, DownloadSink,
};
use rustup::errors::ErrorKind;
use rustup::manifest::{Component, Manifest};
use rustup::mock::{MockCommand, MockComponent, MockInstallerBuilder};
use rustup::notifications::Notification;
use rustup::pool::{AdaptivePolicy, LatencyEstimator, PoolPhase};
use rustup::process::TestProcess;
use rustup::protocol::{http_status_ok, resolve_v2_outcome, FetchOutcome, V2Decision};
use rustup::settings::FallbackSettings;
use rustup::telemetry::Telemetry;

const TRIPLE: &str = "x86_64-unknown-linux-gnu";

#[test]
fn no_colors_in_piped_error_output() {
    let err = ErrorKind::InvalidToolchainName("no-such-toolchain".to_string());
    let msg = err.message("");
    assert!(!msg.contains('\u{1b}'));
    assert_eq!(msg, "invalid toolchain name: 'no-such-toolchain'");
}

#[test]
fn rustc_with_bad_multirust_toolchain_env_var() {
    // A toolchain name read out of the environment still has to parse.
    let err = PartialToolchainDesc::from_str("bogus").unwrap_err();
    assert_eq!(err.message(""), "invalid toolchain name: 'bogus'");
}

#[test]
fn cross_install_indicates_target() {
    let c = Component {
        pkg: "rust-std".to_string(),
        target: Some(TargetTriple("i686-unknown-linux-gnu".to_string())),
    };
    assert_eq!(c.name(), "rust-std-i686-unknown-linux-gnu");
    let host = TargetTriple(TRIPLE.to_string());
    let n = Notification::InstallingComponent(
        "rust-std".to_string(),
        host,
        Some(TargetTriple("i686-unknown-linux-gnu".to_string())),
    );
    assert_eq!(
        n.message(),
        "installing component 'rust-std' for 'i686-unknown-linux-gnu'"
    );
}

#[test]
fn subcommand_required_for_target() {
    // A bare group name is not a toolchain.
    assert!(PartialToolchainDesc::from_str("target").is_err());
}

#[test]
fn subcommand_required_for_toolchain() {
    assert!(PartialToolchainDesc::from_str("toolchain").is_err());
}

#[test]
fn subcommand_required_for_override() {
    assert!(PartialToolchainDesc::from_str("override").is_err());
}

#[test]
fn subcommand_required_for_self() {
    assert!(PartialToolchainDesc::from_str("self").is_err());
}

#[test]
fn multirust_env_compat() {
    let p = TestProcess::new(
        "/".to_string(),
        vec!["rustup".to_string()],
        vec![("MULTIRUST_TOOLCHAIN".to_string(), "nightly".to_string())],
        String::new(),
        1 << 33,
    );
    assert_eq!(p.var("MULTIRUST_TOOLCHAIN").unwrap(), "nightly");
    assert!(p.var("RUSTUP_TOOLCHAIN").is_none());
}

#[test]
fn proxies_pass_empty_args() {
    let p = TestProcess::new(
        "/".to_string(),
        vec!["rustc".to_string(), "".to_string()],
        Vec::new(),
        String::new(),
        1 << 33,
    );
    assert_eq!(p.args, vec!["rustc".to_string(), "".to_string()]);
    assert!(p.get_stdout().is_empty());
    assert!(p.get_stderr().is_empty());
}

#[test]
fn show_toolchain_env() {
    let p = TestProcess::new(
        "/".to_string(),
        Vec::new(),
        vec![("RUSTUP_TOOLCHAIN".to_string(), "nightly".to_string())],
        String::new(),
        1 << 33,
    );
    let name = p.var("RUSTUP_TOOLCHAIN").unwrap().clone();
    let d = PartialToolchainDesc::from_str(&name).unwrap();
    assert_eq!(d.channel, "nightly");
}

#[test]
fn show_toolchain_env_not_installed() {
    let p = TestProcess::new(
        "/".to_string(),
        Vec::new(),
        vec![("RUSTUP_TOOLCHAIN".to_string(), "bogus-toolchain".to_string())],
        String::new(),
        1 << 33,
    );
    let name = p.var("RUSTUP_TOOLCHAIN").unwrap().clone();
    assert!(PartialToolchainDesc::from_str(&name).is_err());
}

#[test]
fn show_toolchain_override_not_installed() {
    // An override names a toolchain that parses but has no installation
    // root behind it.
    let d = PartialToolchainDesc::from_str("beta").unwrap();
    let m = rustup::manifestation::Manifestation::open(
        rustup::prefix::Prefix::new_absent(),
        TargetTriple(TRIPLE.to_string()),
    )
    .unwrap();
    assert_eq!(d.channel, "beta");
    assert!(m.read_config().unwrap().is_none());
}

#[test]
fn list_targets() {
    let text = format!(
        "manifest-version = \"2\"\ndate = \"2015-01-01\"\n[pkg.rust]\nversion = \"1.0.0\"\n[pkg.rust.target.\"{}\"]\navailable = true\nurl = \"u\"\nhash = \"h\"\ncomponents = [{{ pkg = \"rust-std\", target = \"{}\" }}]\nextensions = [{{ pkg = \"rust-std\", target = \"i686-unknown-linux-gnu\" }}]\n",
        TRIPLE, TRIPLE
    );
    let m = Manifest::parse(&text).unwrap();
    let rust = m.get_package("rust").unwrap();
    let tp = rust.get_target(Some(&TargetTriple(TRIPLE.to_string()))).unwrap();
    let targets: Vec<String> = tp
        .extensions
        .iter()
        .filter(|c| c.pkg == "rust-std")
        .map(|c| c.target.as_ref().unwrap().0.clone())
        .collect();
    assert_eq!(targets, vec!["i686-unknown-linux-gnu".to_string()]);
}

#[test]
fn list_targets_explicit() {
    let c = Component {
        pkg: "rust-std".to_string(),
        target: Some(TargetTriple("i686-unknown-linux-gnu".to_string())),
    };
    assert_eq!(c.name(), "rust-std-i686-unknown-linux-gnu");
}

#[test]
fn install_adds_path_to_bashrc_zshrc_and_kshrc() {
    let source_line = b". \"/home/someone/.cargo/env\"\n".to_vec();
    for rc in ["# a profile\nalias l=ls\n", "", "export A=1\n"] {
        let mut profile = rc.as_bytes().to_vec();
        assert!(remove_source_line(&profile, &source_line).is_none());
        profile.extend_from_slice(&source_line);
        let cleaned = remove_source_line(&profile, &source_line).unwrap();
        assert_eq!(cleaned, rc.as_bytes().to_vec());
    }
}

#[test]
fn doesnt_produce_env_file_on_windows() {
    assert!(get_path().is_none());
    restore_path(&None);
}

#[test]
fn config_round_trip_through_parser() {
    let cfg = Config {
        config_version: "1".to_string(),
        components: vec![
            Component { pkg: "rust-std".to_string(), target: Some(TargetTriple(TRIPLE.to_string())) },
            Component { pkg: "rust-docs".to_string(), target: None },
        ],
    };
    let text = cfg.stringify();
    assert_eq!(
        text,
        format!(
            "config_version = \"1\"\n[[components]]\npkg = \"rust-std\"\ntarget = \"{}\"\n[[components]]\npkg = \"rust-docs\"\n",
            TRIPLE
        )
    );
    let parsed = Config::parse(&text).unwrap();
    assert_eq!(parsed.config_version, "1");
    assert_eq!(parsed.components.len(), 2);
    assert_eq!(parsed.components[0].pkg, "rust-std");
    assert_eq!(parsed.components[0].target.as_ref().unwrap().0, TRIPLE);
    assert_eq!(parsed.components[1].pkg, "rust-docs");
    assert!(parsed.components[1].target.is_none());
}

#[test]
fn config_parse_rejects_unknown_version() {
    let err = Config::parse("config_version = \"2\"\n").unwrap_err();
    match err {
        ErrorKind::UnsupportedVersion(v) => assert_eq!(v, "2"),
        other => panic!("wrong error: {:?}", other),
    }
}

#[test]
fn hashes_render_as_known_hexadecimal() {
    // The digest of the empty input is pinned by the hash's definition.
    let empty: Vec<u8> = Vec::new();
    assert_eq!(
        file_hash(&empty),
        "e3b0c44298fc1c149afbf4c8996fb92427ae41e4649b934ca495991b7852b855"
    );
    let abc = b"abc".to_vec();
    assert_eq!(
        file_hash(&abc),
        "ba7816bf8f01cfea414140de5dae2223b00361a396177a9cb410ff61f20015ad"
    );
    assert_eq!(hex_encode(&vec![0u8, 1, 0xab, 0xff]), "0001abff");
}

#[test]
fn checksum_mismatch_is_a_hard_error() {
    let url = "https://example.com/rust.tar.gz".to_string();
    let expected = "ba7816bf8f01cfea414140de5dae2223b00361a396177a9cb410ff61f20015ad".to_string();
    assert!(verify_checksum(&url, &expected, &b"abc".to_vec()).is_ok());
    let err = verify_checksum(&url, &expected, &b"abd".to_vec()).unwrap_err();
    match err {
        ErrorKind::ChecksumFailed { url: u, expected: x, calculated } => {
            assert_eq!(u, url);
            assert_eq!(x, expected);
            assert_ne!(calculated, expected);
            let msg = ErrorKind::ChecksumFailed { url: u, expected: x, calculated }.message("");
            assert!(msg.starts_with("checksum failed, expected: '"));
        },
        other => panic!("wrong error: {:?}", other),
    }
}

#[test]
fn cache_reuse_requires_matching_hash() {
    let data = b"cached bytes".to_vec();
    let good = file_hash(&data);
    assert!(cached_file_usable(&data, &good));
    assert!(!cached_file_usable(&data, &"0000".to_string()));
    assert!(update_hash_matches(&Some(good.clone()), &good));
    assert!(!update_hash_matches(&None, &good));
}

#[test]
fn content_length_parsing() {
    assert_eq!(parse_content_length("Content-Length: 1024\r\n"), Some(1024));
    assert_eq!(parse_content_length("Content-Length: 0"), Some(0));
    assert_eq!(parse_content_length("Content-Type: text/plain"), None);
    assert_eq!(parse_u64("184467440737095516150"), None);
    assert_eq!(parse_u64("42"), Some(42));
    assert_eq!(parse_u64(""), None);
    assert_eq!(parse_u64("4x2"), None);
}

#[test]
fn protocol_fallback_decisions() {
    let mut notes = Vec::new();
    let d = resolve_v2_outcome(FetchOutcome::NotFound, &mut notes);
    assert!(matches!(d, V2Decision::FallbackToV1));
    let d = resolve_v2_outcome(FetchOutcome::ChecksumFailed, &mut notes);
    assert!(matches!(d, V2Decision::NoUpdate));
    let d = resolve_v2_outcome(
        FetchOutcome::Fetched("doc".to_string(), "hash".to_string()),
        &mut notes,
    );
    match d {
        V2Decision::UseManifest(doc, hash) => {
            assert_eq!(doc, "doc");
            assert_eq!(hash, "hash");
        },
        other => panic!("wrong decision: {:?}", other),
    }
    let texts: Vec<String> = notes.iter().map(|n| n.message()).collect();
    assert!(texts.contains(&"manifest not found. trying legacy manifest".to_string()));
    assert!(texts.contains(&"update not yet available, sorry! try again later".to_string()));
}

#[test]
fn immediate_executor_accounts_for_every_item() {
    let mut ex = ImmediateUnpacker::new();
    let item = Item::write_file("lib/file".to_string(), b"x".to_vec(), 0o644);
    let done = ex.execute(item);
    assert_eq!(done.len(), 1);
    assert_eq!(done[0].full_path, "lib/file");
    assert_eq!(done[0].size, Some(1));
    assert!(ex.join().is_empty());
    assert!(ex.completed().is_empty());

    let mut ledger = WorkLedger::new();
    ledger.submit().unwrap();
    ledger.submit().unwrap();
    assert!(!ledger.drained());
    assert!(ledger.give_back(3).is_err());
    ledger.give_back(2).unwrap();
    assert!(ledger.drained());
}

#[test]
fn adaptive_policy_ramps_and_backs_off() {
    let mut p = AdaptivePolicy::new(8, 10);
    assert_eq!(p.concurrency, 1);
    p.observe_latency(10);
    assert_eq!(p.concurrency, 2);
    p.observe_latency(15);
    assert_eq!(p.concurrency, 4);
    assert!(matches!(p.phase, PoolPhase::RampUp));
    // Latency degrades: halve and probe linearly afterwards.
    p.observe_latency(100);
    assert_eq!(p.concurrency, 2);
    assert!(matches!(p.phase, PoolPhase::Backoff));
    p.observe_latency(12);
    assert_eq!(p.concurrency, 3);
    p.observe_latency(11);
    assert_eq!(p.concurrency, 4);
    // Ramping to the top settles into steady state.
    let mut q = AdaptivePolicy::new(4, 0);
    q.observe_latency(1);
    q.observe_latency(1);
    q.observe_latency(1);
    assert_eq!(q.concurrency, 4);
    assert!(matches!(q.phase, PoolPhase::Steady));
}

#[test]
fn latency_estimator_tracks_high_percentile() {
    let mut e = LatencyEstimator::new(5);
    for x in [5u64, 1, 9, 3, 7] {
        e.observe(x);
    }
    assert_eq!(e.samples, vec![1, 3, 5, 7, 9]);
    assert_eq!(e.high_percentile(), 9);
    // The window rolls: the smallest sample falls out.
    e.observe(2);
    assert_eq!(e.samples.len(), 5);
    assert_eq!(e.samples, vec![2, 3, 5, 7, 9]);
}

#[test]
fn telemetry_cleaning_keeps_cap_minus_one() {
    let t = Telemetry::new("/tmp/telemetry".to_string());
    let few: Vec<String> = (0..5).map(|i| format!("log-2015-01-{:02}.json", i)).collect();
    assert!(t.files_to_clean(&few).is_empty());
    let mut many: Vec<String> = (0..102).map(|i| format!("log-a-{:03}.json", i)).collect();
    many.push("settings.toml".to_string());
    let doomed = t.files_to_clean(&many);
    assert_eq!(doomed.len(), 102 - 100 + 1);
    assert_eq!(doomed[0], "log-a-000.json");
    assert_eq!(doomed[1], "log-a-001.json");
    assert_eq!(doomed[2], "log-a-002.json");
}

#[test]
fn confirm_and_self_update_decisions() {
    assert_eq!(confirm_choice("1"), Confirm::Yes);
    assert_eq!(confirm_choice(""), Confirm::Yes);
    assert_eq!(confirm_choice("2"), Confirm::Advanced);
    assert_eq!(confirm_choice("no"), Confirm::No);
    assert_eq!(self_update_permitted_decision(true, true, true), SelfUpdatePermission::Permit);
    assert_eq!(self_update_permitted_decision(false, true, true), SelfUpdatePermission::HardFail);
    assert_eq!(self_update_permitted_decision(false, true, false), SelfUpdatePermission::Skip);
    assert_eq!(self_update_permitted_decision(false, false, true), SelfUpdatePermission::Permit);
}

#[test]
fn component_for_bin_table() {
    assert_eq!(component_for_bin("rustc"), Some("rustc"));
    assert_eq!(component_for_bin("cargo-clippy"), Some("clippy"));
    assert_eq!(component_for_bin("cargo-miri"), Some("miri"));
    assert_eq!(component_for_bin("cargo-fmt"), Some("rustfmt"));
    assert_eq!(component_for_bin("vim"), None);
    assert_eq!(
        install_msg("cargo-clippy", "nightly", false),
        "\nTo install, run `rustup component add clippy --toolchain nightly`"
    );
    assert_eq!(
        install_msg("rustc", "nightly", true),
        "\nTo install, run `rustup component add rustc`"
    );
    assert_eq!(install_msg("vim", "nightly", true), "");
}

#[test]
fn fallback_settings_parse() {
    assert!(FallbackSettings::new(None).unwrap().is_none());
    let s = FallbackSettings::new(Some("default_toolchain = \"stable\"\n"))
        .unwrap()
        .unwrap();
    assert_eq!(s.default_toolchain.as_deref(), Some("stable"));
    assert!(FallbackSettings::new(Some("{nonsense")).is_err());
}

#[test]
fn mock_installer_payload_conversion() {
    let builder = MockInstallerBuilder {
        components: vec![MockComponent {
            name: "rustc".to_string(),
            commands: vec![
                MockCommand::File("bin/rustc".to_string()),
                MockCommand::Dir("lib".to_string()),
            ],
            files: vec![("bin/rustc".to_string(), b"#!x".to_vec(), true)],
        }],
    };
    let payload = builder.to_payload();
    assert_eq!(payload.components.len(), 1);
    assert_eq!(payload.components[0].0, "rustc");
    assert_eq!(payload.components[0].1.len(), 1);
    assert!(payload.contains("rustc", "rustc"));
    assert!(!payload.contains("cargo", "cargo"));
}

#[test]
fn resumed_download_replays_and_verifies() {
    let mut notes: Vec<Notification> = Vec::new();
    let mut sink = DownloadSink::resume_from(b"ab".to_vec());
    sink.receive(&b"c".to_vec(), &mut notes);
    assert_eq!(sink.data, b"abc".to_vec());
    assert_eq!(notes.len(), 1);
    let url = "https://example.com/x".to_string();
    let good = file_hash(&b"abc".to_vec());
    let data = sink.finish(&url, &good).unwrap();
    assert_eq!(data, b"abc".to_vec());
    let mut bad_sink = DownloadSink::resume_from(b"ab".to_vec());
    bad_sink.receive(&b"d".to_vec(), &mut notes);
    assert!(bad_sink.finish(&url, &good).is_err());
}

#[test]
fn overridden_dist_server_rewrites_urls() {
    let u = rewrite_dist_server(
        "https://static.rust-lang.org/dist/2015-01-01/rustc.tar.gz",
        "file:///tmp/mock-dist",
    );
    assert_eq!(u, "file:///tmp/mock-dist/dist/2015-01-01/rustc.tar.gz");
    let unchanged = rewrite_dist_server("https://example.com/x.tar.gz", "file:///tmp/mock-dist");
    assert_eq!(unchanged, "https://example.com/x.tar.gz");
}

#[test]
fn document_edges() {
    // An empty document has no version to check.
    assert!(Manifest::parse("").is_err());
    assert!(Config::parse("").is_err());
    // The largest count still parses; one digit more does not.
    assert_eq!(parse_u64("18446744073709551615"), Some(u64::MAX));
    assert_eq!(parse_u64("18446744073709551616"), None);
}

#[test]
fn transfer_status_codes() {
    assert!(http_status_ok(0));
    assert!(http_status_ok(200));
    assert!(http_status_ok(299));
    assert!(!http_status_ok(404));
    assert!(!http_status_ok(301));
}

#[test]
fn executor_strategy_choice() {
    assert_eq!(executor_choice(None), ExecutorChoice::DefaultThreaded);
    assert_eq!(executor_choice(Some("disabled")), ExecutorChoice::Immediate);
    assert_eq!(executor_choice(Some("4")), ExecutorChoice::WithThreads(4));
    assert_eq!(executor_choice(Some("many")), ExecutorChoice::DefaultThreaded);
}

#[test]
fn cache_clean_keeps_fresh_downloads() {
    let cached = vec!["aaa".to_string(), "bbb".to_string(), "ccc".to_string()];
    let keep = vec!["bbb".to_string()];
    let doomed = cache_clean_selection(&cached, &keep);
    assert_eq!(doomed, vec!["aaa".to_string(), "ccc".to_string()]);
    assert!(cache_clean_selection(&cached, &cached).is_empty());
}

#[test]
fn changes_none_is_empty() {
    let c = Changes::none();
    assert!(c.add_extensions.is_empty());
    assert!(c.remove_extensions.is_empty());
}
