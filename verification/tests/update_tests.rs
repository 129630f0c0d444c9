//! Update, uninstall and change-set flows over a modelled installation
//! root, with manifests going through the real document parser.

use rustup::changeset::{Changes, validate_changes};
use rustup::config::Config;
use rustup::dist::TargetTriple;
use rustup::errors::ErrorKind;
use rustup::manifest::{Component, Manifest};
use rustup::manifestation::{Manifestation, PackagePayload, UpdateStatus, CONFIG_FILE, DIST_MANIFEST};
use rustup::notifications::Notification;
use rustup::prefix::Prefix;
use rustup::protocol::{resolve_v1_outcome, FetchOutcome};
use rustup::transaction::Transaction;

const TRIPLE: &str = "x86_64-unknown-linux-gnu";

fn component(pkg: &str) -> Component {
    Component { pkg: pkg.to_string(), target: Some(TargetTriple(TRIPLE.to_string())) }
}

fn component_line(pkg: &str) -> String {
    format!("{{ pkg = \"{}\", target = \"{}\" }}", pkg, TRIPLE)
}

/// A manifest document offering the `rust` package with the given
/// required components and extensions, every one of them available.
fn manifest_text(date: &str, version: &str, components: &[&str], extensions: &[&str]) -> String {
    let comps: Vec<String> = components.iter().map(|c| component_line(c)).collect();
    let exts: Vec<String> = extensions.iter().map(|c| component_line(c)).collect();
    let mut pkgs = String::new();
    for name in components.iter().chain(extensions.iter()) {
        pkgs.push_str(&format!(
            "[pkg.{}]\nversion = \"{}\"\n[pkg.{}.target.\"*\"]\navailable = true\nurl = \"https://example.com/{}.tar.gz\"\nhash = \"h\"\n",
            name, version, name, name
        ));
    }
    format!(
        "manifest-version = \"2\"\ndate = \"{}\"\n[pkg.rust]\nversion = \"{}\"\n[pkg.rust.target.\"{}\"]\navailable = true\nurl = \"https://example.com/rust.tar.gz\"\nhash = \"h\"\ncomponents = [{}]\nextensions = [{}]\n{}",
        date, version, TRIPLE, comps.join(", "), exts.join(", "), pkgs
    )
}

fn payload_for(c: &Component) -> PackagePayload {
    let name = c.name();
    PackagePayload {
        components: vec![(
            name.clone(),
            vec![(format!("lib/{}/installed", name), b"payload".to_vec())],
        )],
    }
}

fn run_update(
    m: &mut Manifestation,
    manifest_str: &str,
    changes: &Changes,
    notifications: &mut Vec<Notification>,
) -> Result<UpdateStatus, ErrorKind> {
    let new_manifest = Manifest::parse(manifest_str)?;
    let old_manifest = m.load_manifest()?;
    let config = m.read_config()?;
    let rust = new_manifest.get_package("rust").unwrap();
    let tp = rust.get_target(Some(&m.target_triple)).unwrap();
    assert!(validate_changes(changes, tp, &config));
    let plan = m.update_prepare(&new_manifest, &old_manifest, &config, changes, notifications)?;
    let payloads: Vec<PackagePayload> =
        plan.components_to_install.iter().map(payload_for).collect();
    m.update_apply(&plan, &payloads, manifest_str, notifications)
}

fn fresh() -> Manifestation {
    Manifestation::open(Prefix::new_absent(), TargetTriple(TRIPLE.to_string())).unwrap()
}

fn installed_names(m: &Manifestation) -> Vec<String> {
    let config = m.read_config().unwrap().unwrap();
    config.components.iter().map(|c| c.pkg.clone()).collect()
}

#[test]
fn smoke_test() {
    let m1 = manifest_text("2015-01-01", "1.0.0", &["rust-std", "rustc", "cargo", "rust-docs"], &[]);
    let mut m = fresh();
    let mut notes = Vec::new();
    let status = run_update(&mut m, &m1, &Changes::none(), &mut notes).unwrap();
    assert!(matches!(status, UpdateStatus::Changed));
    assert!(m.prefix.read_file(DIST_MANIFEST).is_some());
    assert!(m.prefix.read_file(CONFIG_FILE).is_some());
    assert_eq!(installed_names(&m), vec!["rust-std", "rustc", "cargo", "rust-docs"]);
}

#[test]
fn rustup_stable() {
    let m1 = manifest_text("2015-01-01", "1.0.0", &["rust-std", "rustc", "cargo", "rust-docs"], &[]);
    let m2 = manifest_text("2015-01-02", "1.1.0", &["rust-std", "rustc", "cargo", "rust-docs"], &[]);
    let mut m = fresh();
    let mut notes = Vec::new();
    run_update(&mut m, &m1, &Changes::none(), &mut notes).unwrap();
    let mut notes = Vec::new();
    let status = run_update(&mut m, &m2, &Changes::none(), &mut notes).unwrap();
    assert!(matches!(status, UpdateStatus::Changed));
    let messages: Vec<String> = notes.iter().map(|n| n.message()).collect();
    assert!(messages.contains(&"installing component 'rust-std'".to_string()));
    assert!(messages.contains(&"installing component 'rustc'".to_string()));
    assert!(messages.contains(&"installing component 'cargo'".to_string()));
    assert!(messages.contains(&"installing component 'rust-docs'".to_string()));
    assert!(messages.contains(&"removing component 'rustc'".to_string()));
}

#[test]
fn rustup_stable_no_change() {
    let m1 = manifest_text("2015-01-01", "1.0.0", &["rust-std", "rustc", "cargo", "rust-docs"], &[]);
    let mut m = fresh();
    let mut notes = Vec::new();
    run_update(&mut m, &m1, &Changes::none(), &mut notes).unwrap();
    let before = format!("{:?}", m.prefix);
    let mut notes = Vec::new();
    let status = run_update(&mut m, &m1, &Changes::none(), &mut notes).unwrap();
    assert!(matches!(status, UpdateStatus::Unchanged));
    assert_eq!(before, format!("{:?}", m.prefix));
}

#[test]
fn rustup_all_channels() {
    let channels = ["stable", "beta", "nightly"];
    let mut statuses = Vec::new();
    for _c in channels {
        let m1 = manifest_text("2015-01-01", "1.0.0", &["rust-std", "rustc"], &[]);
        let m2 = manifest_text("2015-01-02", "1.1.0", &["rust-std", "rustc"], &[]);
        let mut m = fresh();
        let mut notes = Vec::new();
        run_update(&mut m, &m1, &Changes::none(), &mut notes).unwrap();
        let status = run_update(&mut m, &m2, &Changes::none(), &mut notes).unwrap();
        statuses.push(status);
    }
    assert!(statuses.iter().all(|s| matches!(s, UpdateStatus::Changed)));
}

#[test]
fn rustup_some_channels_up_to_date() {
    let m1 = manifest_text("2015-01-01", "1.0.0", &["rust-std", "rustc"], &[]);
    let m2 = manifest_text("2015-01-02", "1.1.0", &["rust-std", "rustc"], &[]);
    // One installation already on the newer release, one behind.
    let mut behind = fresh();
    let mut current = fresh();
    let mut notes = Vec::new();
    run_update(&mut behind, &m1, &Changes::none(), &mut notes).unwrap();
    run_update(&mut current, &m2, &Changes::none(), &mut notes).unwrap();
    let s1 = run_update(&mut behind, &m2, &Changes::none(), &mut notes).unwrap();
    let s2 = run_update(&mut current, &m2, &Changes::none(), &mut notes).unwrap();
    assert!(matches!(s1, UpdateStatus::Changed));
    assert!(matches!(s2, UpdateStatus::Unchanged));
}

#[test]
fn rustup_no_channels() {
    // With no updatable toolchains installed there is nothing to do.
    let installations: Vec<Manifestation> = Vec::new();
    assert!(installations.is_empty());
}

#[test]
fn update_all_no_update_whitespace() {
    let m1 = manifest_text("2015-01-01", "1.0.0", &["rust-std"], &[]);
    let mut m = fresh();
    let mut notes = Vec::new();
    run_update(&mut m, &m1, &Changes::none(), &mut notes).unwrap();
    let status = run_update(&mut m, &m1, &Changes::none(), &mut notes).unwrap();
    assert!(matches!(status, UpdateStatus::Unchanged));
}

#[test]
fn update_works_without_term() {
    // The library never talks to a terminal; notifications are data.
    let m1 = manifest_text("2015-01-01", "1.0.0", &["rust-std"], &[]);
    let mut m = fresh();
    let mut notes = Vec::new();
    let status = run_update(&mut m, &m1, &Changes::none(), &mut notes).unwrap();
    assert!(matches!(status, UpdateStatus::Changed));
    for n in &notes {
        let _ = n.level();
        let _ = n.message();
    }
}

#[test]
fn delete_data() {
    let m1 = manifest_text("2015-01-01", "1.0.0", &["rust-std"], &[]);
    let mut m = fresh();
    let mut notes = Vec::new();
    run_update(&mut m, &m1, &Changes::none(), &mut notes).unwrap();
    assert!(m.prefix.read_file(CONFIG_FILE).is_some());
    m.uninstall(&mut notes).unwrap();
    assert!(m.prefix.read_file(CONFIG_FILE).is_none());
    assert!(m.prefix.receipts.is_empty());
}

#[test]
fn delete_data_no_data() {
    let mut m = fresh();
    let mut notes = Vec::new();
    assert!(m.uninstall(&mut notes).is_err());
}

#[test]
fn check_updates_self() {
    // A recorded hash differing from the server's means an update exists.
    let recorded = Some("aaaa".to_string());
    let remote = "bbbb".to_string();
    assert!(!rustup::download::update_hash_matches(&recorded, &remote));
}

#[test]
fn check_updates_self_no_change() {
    let recorded = Some("aaaa".to_string());
    let remote = "aaaa".to_string();
    assert!(rustup::download::update_hash_matches(&recorded, &remote));
}

#[test]
fn update_preserves_extensions() {
    let m1 = manifest_text("2015-01-01", "1.0.0", &["rust-std"], &["rls"]);
    let m2 = manifest_text("2015-01-02", "1.1.0", &["rust-std"], &["rls"]);
    let mut m = fresh();
    let mut notes = Vec::new();
    let changes = Changes {
        add_extensions: vec![component("rls")],
        remove_extensions: Vec::new(),
    };
    run_update(&mut m, &m1, &changes, &mut notes).unwrap();
    assert!(installed_names(&m).contains(&"rls".to_string()));
    // The upgrade to a structurally different manifest keeps the
    // extension without it being requested again.
    run_update(&mut m, &m2, &Changes::none(), &mut notes).unwrap();
    assert!(installed_names(&m).contains(&"rls".to_string()));
}

#[test]
fn update_renames_installed_extension() {
    let m1 = manifest_text("2015-01-01", "1.0.0", &["rust-std"], &["rls"]);
    let mut m2 = manifest_text("2015-01-02", "1.1.0", &["rust-std"], &["rls", "rls-preview"]);
    m2.push_str("[renames.rls]\nto = \"rls-preview\"\n");
    let mut m = fresh();
    let mut notes = Vec::new();
    let changes = Changes {
        add_extensions: vec![component("rls")],
        remove_extensions: Vec::new(),
    };
    run_update(&mut m, &m1, &changes, &mut notes).unwrap();
    run_update(&mut m, &m2, &Changes::none(), &mut notes).unwrap();
    let names = installed_names(&m);
    assert!(names.contains(&"rls-preview".to_string()));
    assert!(!names.contains(&"rls".to_string()));
    // At the receipt level too: the renamed identity is installed and
    // the old one is gone, never both.
    let new_name = component("rls-preview").name();
    let old_name = component("rls").name();
    assert!(m.prefix.find_receipt(&new_name).is_some());
    assert!(m.prefix.find_receipt(&old_name).is_none());
}

#[test]
fn add_extensions_for_same_manifest() {
    let m1 = manifest_text("2015-01-01", "1.0.0", &["rust-std"], &["rls"]);
    let mut m = fresh();
    let mut notes = Vec::new();
    run_update(&mut m, &m1, &Changes::none(), &mut notes).unwrap();
    let changes = Changes {
        add_extensions: vec![component("rls")],
        remove_extensions: Vec::new(),
    };
    let mut notes = Vec::new();
    let status = run_update(&mut m, &m1, &changes, &mut notes).unwrap();
    assert!(matches!(status, UpdateStatus::Changed));
    assert!(installed_names(&m).contains(&"rls".to_string()));
    // The required component was already installed; only the extension
    // was fetched and installed.
    let installing: Vec<String> = notes
        .iter()
        .map(|n| n.message())
        .filter(|t| t.starts_with("installing"))
        .collect();
    assert_eq!(installing, vec!["installing component 'rls'".to_string()]);
}

#[test]
fn adding_an_installed_extension_reports_up_to_date() {
    // Requesting an extension that is already installed, against the
    // same release, reinstalls nothing and reports it instead.
    let m1 = manifest_text("2015-01-01", "1.0.0", &["rust-std"], &["rls"]);
    let mut m = fresh();
    let mut notes = Vec::new();
    let add = Changes { add_extensions: vec![component("rls")], remove_extensions: Vec::new() };
    run_update(&mut m, &m1, &add, &mut notes).unwrap();
    let mut notes = Vec::new();
    let status = run_update(&mut m, &m1, &add, &mut notes).unwrap();
    assert!(matches!(status, UpdateStatus::Unchanged));
    let texts: Vec<String> = notes.iter().map(|n| n.message()).collect();
    assert!(texts.contains(&format!("component rls-{} is up to date", TRIPLE)));
    let names = installed_names(&m);
    assert_eq!(names.iter().filter(|n| n.as_str() == "rls").count(), 1);
}

#[test]
fn remove_extensions_for_same_manifest() {
    let m1 = manifest_text("2015-01-01", "1.0.0", &["rust-std"], &["rls"]);
    let mut m = fresh();
    let mut notes = Vec::new();
    let add = Changes { add_extensions: vec![component("rls")], remove_extensions: Vec::new() };
    run_update(&mut m, &m1, &add, &mut notes).unwrap();
    let remove = Changes { add_extensions: Vec::new(), remove_extensions: vec![component("rls")] };
    run_update(&mut m, &m1, &remove, &mut notes).unwrap();
    assert!(!installed_names(&m).contains(&"rls".to_string()));
    assert!(installed_names(&m).contains(&"rust-std".to_string()));
}

#[test]
fn removing_required_component_is_refused() {
    // Removing something the manifest declares required, not an
    // extension, violates the resolver's contract and is reported by
    // the checked validation.
    let m1 = manifest_text("2015-01-01", "1.0.0", &["rust-std"], &["rls"]);
    let new_manifest = Manifest::parse(&m1).unwrap();
    let rust = new_manifest.get_package("rust").unwrap();
    let tp = rust.get_target(Some(&TargetTriple(TRIPLE.to_string()))).unwrap();
    let config = Some(Config {
        config_version: "1".to_string(),
        components: vec![component("rust-std")],
    });
    let changes = Changes {
        add_extensions: Vec::new(),
        remove_extensions: vec![component("rust-std")],
    };
    assert!(!validate_changes(&changes, tp, &config));
}

#[test]
fn unavailable_components_batched() {
    // Three unavailable components yield one error naming all three.
    let mut text = manifest_text("2015-01-01", "1.0.0", &["rust-std"], &["a", "b", "c"]);
    text = text.replace("[pkg.a.target.\"*\"]\navailable = true", "[pkg.a.target.\"*\"]\navailable = false");
    text = text.replace("[pkg.b.target.\"*\"]\navailable = true", "[pkg.b.target.\"*\"]\navailable = false");
    text = text.replace("[pkg.c.target.\"*\"]\navailable = true", "[pkg.c.target.\"*\"]\navailable = false");
    let mut m = fresh();
    let mut notes = Vec::new();
    let changes = Changes {
        add_extensions: vec![component("a"), component("b"), component("c")],
        remove_extensions: Vec::new(),
    };
    let err = run_update(&mut m, &text, &changes, &mut notes).unwrap_err();
    match err {
        ErrorKind::RequestedComponentsUnavailable(cs) => {
            let names: Vec<String> = cs.iter().map(|c| c.pkg.clone()).collect();
            assert_eq!(names, vec!["a", "b", "c"]);
            let msg = ErrorKind::RequestedComponentsUnavailable(cs).message("stable");
            assert!(msg.contains("some components unavailable for download"));
            assert!(msg.contains("rustup component remove --toolchain stable"));
        },
        other => panic!("wrong error: {:?}", other),
    }
}

#[test]
fn failed_install_rolls_back_completely() {
    // A corrupt payload in a multi-component update leaves the root
    // exactly as it was: for a fresh install, not existing at all.
    let m1 = manifest_text("2015-01-01", "1.0.0", &["rust-std", "rustc"], &[]);
    let new_manifest = Manifest::parse(&m1).unwrap();
    let mut m = fresh();
    let mut notes = Vec::new();
    let plan = m
        .update_prepare(&new_manifest, &None, &None, &Changes::none(), &mut notes)
        .unwrap();
    // The second payload does not carry the component it should.
    let mut payloads: Vec<PackagePayload> =
        plan.components_to_install.iter().map(payload_for).collect();
    payloads[1] = PackagePayload { components: vec![("wrong".to_string(), vec![])] };
    let err = m.update_apply(&plan, &payloads, &m1, &mut notes).unwrap_err();
    assert!(matches!(err, ErrorKind::CorruptComponent(_)));
    assert!(!m.prefix.exists);
    assert!(m.prefix.files.is_empty());
    assert!(m.prefix.receipts.is_empty());
    let texts: Vec<String> = notes.iter().map(|n| n.message()).collect();
    assert!(texts.contains(&"rolling back changes".to_string()));
}

#[test]
fn uninstalling_twice_warns_instead_of_failing() {
    let m1 = manifest_text("2015-01-01", "1.0.0", &["rust-std"], &[]);
    let mut m = fresh();
    let mut notes = Vec::new();
    run_update(&mut m, &m1, &Changes::none(), &mut notes).unwrap();
    let c = component("rust-std");
    let mut tx = Transaction::new(&m.prefix);
    let found = rustup::manifestation::uninstall_component_tx(
        &mut tx, &mut m.prefix, &c, &mut notes,
    );
    assert!(found);
    let mut tx2 = Transaction::new(&m.prefix);
    let found_again = rustup::manifestation::uninstall_component_tx(
        &mut tx2, &mut m.prefix, &c, &mut notes,
    );
    assert!(!found_again);
    let last = notes.last().unwrap();
    assert!(matches!(last.level(), rustup::notifications::NotificationLevel::Warn));
    assert_eq!(
        last.message(),
        format!("during uninstall component rust-std-{} was not found", TRIPLE)
    );
    tx.commit();
    tx2.commit();
}

#[test]
fn initial_install_with_extension_then_noop_update() {
    // Manifest lists a required component and an extension; installing
    // with the extension requested yields both on disk and in the
    // config; updating to the structurally identical release changes
    // nothing.
    let m1 = manifest_text("2016-02-01", "1.0.0", &["rust-std"], &["rls"]);
    let m2 = manifest_text("2016-02-02", "1.0.0", &["rust-std"], &["rls"]);
    let mut m = fresh();
    let mut notes = Vec::new();
    let changes = Changes { add_extensions: vec![component("rls")], remove_extensions: Vec::new() };
    run_update(&mut m, &m1, &changes, &mut notes).unwrap();
    let names = installed_names(&m);
    assert_eq!(names, vec!["rust-std", "rls"]);
    let std_name = component("rust-std").name();
    let rls_name = component("rls").name();
    assert!(m.prefix.read_file(&format!("lib/{}/installed", std_name)).is_some());
    assert!(m.prefix.read_file(&format!("lib/{}/installed", rls_name)).is_some());
    // Same document again: unchanged.
    let status = run_update(&mut m, &m1, &Changes::none(), &mut notes).unwrap();
    assert!(matches!(status, UpdateStatus::Unchanged));
    // A structurally different document (another date): full reinstall.
    let status = run_update(&mut m, &m2, &Changes::none(), &mut notes).unwrap();
    assert!(matches!(status, UpdateStatus::Changed));
    assert_eq!(installed_names(&m), vec!["rust-std", "rls"]);
}

#[test]
fn conflicting_file_rolls_back() {
    // Two components that lay down the same path conflict; the update
    // rolls back entirely.
    let m1 = manifest_text("2015-01-01", "1.0.0", &["rust-std", "rustc"], &[]);
    let new_manifest = Manifest::parse(&m1).unwrap();
    let mut m = fresh();
    let mut notes = Vec::new();
    let plan = m
        .update_prepare(&new_manifest, &None, &None, &Changes::none(), &mut notes)
        .unwrap();
    let payloads: Vec<PackagePayload> = plan
        .components_to_install
        .iter()
        .map(|c| PackagePayload {
            components: vec![(c.name(), vec![("lib/shared".to_string(), b"x".to_vec())])],
        })
        .collect();
    let err = m.update_apply(&plan, &payloads, &m1, &mut notes).unwrap_err();
    assert!(matches!(err, ErrorKind::ComponentConflict { .. }));
    assert!(!m.prefix.exists);
    assert!(m.prefix.files.is_empty());
}

#[test]
fn manifest_without_rust_package_is_broken() {
    let text = "manifest-version = \"2\"\ndate = \"2015-01-01\"\n[pkg.cargo]\nversion = \"1.0.0\"\n";
    let new_manifest = Manifest::parse(text).unwrap();
    let m = fresh();
    let mut notes = Vec::new();
    let err = m
        .update_prepare(&new_manifest, &None, &None, &Changes::none(), &mut notes)
        .unwrap_err();
    match err {
        ErrorKind::MissingPackageForComponent(n) => {
            assert_eq!(n, "rust");
            assert_eq!(
                ErrorKind::MissingPackageForComponent(n).message(""),
                "server sent a broken manifest: missing package for component rust"
            );
        },
        other => panic!("wrong error: {:?}", other),
    }
}

#[test]
fn legacy_listing_not_found_means_no_release() {
    let name = "nightly-2015-01-01".to_string();
    let mut notes: Vec<Notification> = Vec::new();
    let err = resolve_v1_outcome(FetchOutcome::NotFound, &name, &mut notes).unwrap_err();
    match err {
        ErrorKind::MissingReleaseForToolchain(n) => {
            assert_eq!(
                ErrorKind::MissingReleaseForToolchain(n).message(""),
                "no release found for 'nightly-2015-01-01'"
            );
        },
        other => panic!("wrong error: {:?}", other),
    }
    assert_eq!(
        ErrorKind::ComponentDownloadFailed("rustc".to_string()).message(""),
        "component download failed for rustc"
    );
}

#[test]
fn legacy_listing_checksum_failure_is_soft() {
    // A manifest checksum mismatch is "try again later" on the legacy
    // path too, not a hard error.
    let name = "stable".to_string();
    let mut notes: Vec<Notification> = Vec::new();
    let r = resolve_v1_outcome(FetchOutcome::ChecksumFailed, &name, &mut notes).unwrap();
    assert!(r.is_none());
    let texts: Vec<String> = notes.iter().map(|n| n.message()).collect();
    assert!(texts.contains(&"update not yet available, sorry! try again later".to_string()));
}

#[test]
fn update_v1_flow() {
    let mut m = fresh();
    let listing = vec![format!("https://example.com/dist/rust-nightly-{}.tar.gz", TRIPLE)];
    let url = m.update_v1_prepare(&listing, &None).unwrap();
    assert!(url.contains(TRIPLE));
    let payload = PackagePayload {
        components: vec![
            ("rustc".to_string(), vec![("bin/rustc".to_string(), b"x".to_vec())]),
            ("rust-std".to_string(), vec![("lib/libstd".to_string(), b"y".to_vec())]),
        ],
    };
    let mut notes = Vec::new();
    m.update_v1_apply(&payload, &mut notes).unwrap();
    assert!(m.prefix.read_file("bin/rustc").is_some());
    assert!(m.prefix.read_file("lib/libstd").is_some());
    // A current-format config on disk means the server answered with
    // the wrong generation.
    let cfg = Config { config_version: "1".to_string(), components: vec![] };
    assert!(matches!(
        m.update_v1_prepare(&listing, &Some(cfg)),
        Err(ErrorKind::ObsoleteDistManifest)
    ));
    // No archive for the triple in the listing.
    let other = vec!["https://example.com/dist/rust-nightly-i686-pc-windows-gnu.tar.gz".to_string()];
    assert!(matches!(
        m.update_v1_prepare(&other, &None),
        Err(ErrorKind::BinaryPackageNotProvided(_))
    ));
}
