//! Maintains an installation by installing and removing individual
//! components inside a single rollback-capable transaction: resolves the
//! change set, checks availability, uninstalls before installing, writes
//! the new manifest and installed-config records, and commits — or rolls
//! everything back, leaving the root exactly as it was.

use vstd::prelude::*;
use crate::changeset::{
    Changes, build_update_component_lists, changes_valid, config_view, cviews,
    find_unavailable_components, installed_of, unavailable_spec,
};
use crate::config::{Config, config_render};
use crate::dist::TargetTriple;
use crate::errors::ErrorKind;
use crate::manifest::{Component, Manifest, TargetedPackage, component_name_spec};
use crate::notifications::Notification;
use crate::prefix::{Prefix, kv_lookup};
use crate::strutil::{str_bytes, utf8_of};
use crate::transaction::Transaction;

verus! {

pub const DIST_MANIFEST: &'static str = "lib/rustlib/multirust-channel-manifest.toml";

pub const CONFIG_FILE: &'static str = "lib/rustlib/multirust-config.toml";

#[derive(Debug, PartialEq, Eq, Structural)]
pub enum UpdateStatus {
    Changed,
    Unchanged,
}

/// How one component package is fetched: its URL and advertised hash,
/// preferring the more compact encoding when the manifest offers one.
#[derive(Debug)]
pub struct DownloadSpec {
    pub format_xz: bool,
    pub url: String,
    pub hash: String,
}

/// The resolved work of one update: what to uninstall, what to install
/// (with each package's fetch description, aligned index for index), and
/// what the installation will hold afterwards.
#[derive(Debug)]
pub struct UpdatePlan {
    pub components_to_uninstall: Vec<Component>,
    pub components_to_install: Vec<Component>,
    pub final_component_list: Vec<Component>,
    pub downloads: Vec<DownloadSpec>,
}

/// The unpacked contents of one fetched component package: the
/// installable components it carries, each with the files it lays down.
#[derive(Debug)]
pub struct PackagePayload {
    pub components: Vec<(String, Vec<(String, Vec<u8>)>)>,
}

/// The first component of a payload under a name.
pub open spec fn payload_find(
    cs: Seq<(String, Vec<(String, Vec<u8>)>)>,
    name: Seq<char>,
) -> Option<int>
    decreases cs.len(),
{
    if cs.len() == 0 {
        None
    } else if cs[0].0@ == name {
        Some(0)
    } else {
        match payload_find(cs.subrange(1, cs.len() as int), name) {
            Some(i) => Some(i + 1),
            None => None,
        }
    }
}

/// The component an installer takes out of a payload: the full
/// installer name first, the bare package name as a legacy fallback.
pub open spec fn payload_choice(
    cs: Seq<(String, Vec<(String, Vec<u8>)>)>,
    name: Seq<char>,
    short: Seq<char>,
) -> Option<int> {
    match payload_find(cs, name) {
        Some(i) => Some(i),
        None => payload_find(cs, short),
    }
}

/// The payload component an install takes for a component of the plan.
pub open spec fn install_choice(
    cs: Seq<(String, Vec<(String, Vec<u8>)>)>,
    c: crate::manifest::ComponentV,
) -> Option<int> {
    payload_choice(cs, component_name_spec(c), c.pkg)
}

proof fn lemma_payload_find_hit(
    cs: Seq<(String, Vec<(String, Vec<u8>)>)>,
    name: Seq<char>,
    i: int,
)
    requires
        0 <= i < cs.len(),
        forall|j: int| 0 <= j < i ==> cs[j].0@ != name,
        cs[i].0@ == name,
    ensures
        payload_find(cs, name) == Some(i),
    decreases i,
{
    if i > 0 {
        let tail = cs.subrange(1, cs.len() as int);
        assert(tail[i - 1] == cs[i]);
        assert forall|j: int| 0 <= j < i - 1 implies tail[j].0@ != name by {
            assert(tail[j] == cs[j + 1]);
        }
        lemma_payload_find_hit(tail, name, i - 1);
    }
}

proof fn lemma_payload_find_miss(cs: Seq<(String, Vec<(String, Vec<u8>)>)>, name: Seq<char>)
    requires
        forall|j: int| 0 <= j < cs.len() ==> cs[j].0@ != name,
    ensures
        payload_find(cs, name) is None,
    decreases cs.len(),
{
    if cs.len() > 0 {
        let tail = cs.subrange(1, cs.len() as int);
        assert forall|j: int| 0 <= j < tail.len() implies tail[j].0@ != name by {
            assert(tail[j] == cs[j + 1]);
        }
        lemma_payload_find_miss(tail, name);
    }
}

impl PackagePayload {
    /// The index of the first component held under `name`.
    pub fn find_component(&self, name: &str) -> (r: Option<usize>)
        ensures
            match r {
                Some(i) => 0 <= i < self.components@.len()
                    && payload_find(self.components@, name@) == Some(i as int),
                None => payload_find(self.components@, name@) is None,
            },
    {
        let mut i: usize = 0;
        while i < self.components.len()
            invariant
                i <= self.components@.len(),
                forall|j: int| 0 <= j < i ==> self.components@[j].0@ != name@,
            decreases self.components@.len() - i,
        {
            if crate::strutil::string_eq_str(&self.components[i].0, name) {
                proof {
                    lemma_payload_find_hit(self.components@, name@, i as int);
                }
                return Some(i);
            }
            i += 1;
        }
        proof {
            lemma_payload_find_miss(self.components@, name@);
        }
        None
    }

    /// Whether the payload carries the component, under either its full
    /// or its short name.
    pub fn contains(&self, name: &str, short_name: &str) -> (r: bool)
        ensures
            r == (payload_find(self.components@, name@) is Some
                || payload_find(self.components@, short_name@) is Some),
    {
        self.find_component(name).is_some() || self.find_component(short_name).is_some()
    }
}

/// The per-target descriptor the manifest resolves for the `rust`
/// package on a target: a wildcard entry if there is one, else the
/// target's own entry.
pub open spec fn rust_target_of(
    m: crate::manifest::ManifestV,
    t: Seq<char>,
) -> Option<crate::manifest::TargetedPackageV> {
    match crate::manifest::package_lookup(m.packages, "rust"@) {
        Some(p) => match crate::manifest::target_lookup(p.targets, "*"@) {
            Some(tp) => Some(tp),
            None => crate::manifest::target_lookup(p.targets, t),
        },
        None => None,
    }
}

/// An installation being maintained: its root and the triple it serves.
#[derive(Debug)]
pub struct Manifestation {
    pub prefix: Prefix,
    pub target_triple: TargetTriple,
}

impl Manifestation {
    /// Opens an installation root for maintenance.  The root need not
    /// exist yet.
    pub fn open(prefix: Prefix, triple: TargetTriple) -> (r: Result<Manifestation, ErrorKind>)
        ensures
            r matches Ok(m) ==> m.prefix@ == prefix@ && m.target_triple@ == triple@,
            r is Ok,
    {
        Ok(Manifestation { prefix, target_triple: triple })
    }

    /// Reads the installed-config record, present only once a
    /// current-format install has happened.
    pub fn read_config(&self) -> (r: Result<Option<Config>, ErrorKind>)
        ensures
            r matches Ok(c) ==> match c {
                Some(cfg) => cfg.config_version@ == "1"@
                    && kv_lookup(self.prefix@.files, CONFIG_FILE@) is Some,
                None => kv_lookup(self.prefix@.files, CONFIG_FILE@) is None,
            },
            kv_lookup(self.prefix@.files, CONFIG_FILE@) is None ==> (r matches Ok(c) && c is None),
    {
        match self.prefix.read_file(CONFIG_FILE) {
            Some(bytes) => {
                let text = match crate::strutil::bytes_to_string(bytes) {
                    Some(t) => t,
                    None => {
                        return Err(ErrorKind::ReadingFile {
                            name: "dist config".to_owned(),
                            path: CONFIG_FILE.to_owned(),
                        });
                    },
                };
                match Config::parse(text.as_str()) {
                    Ok(cfg) => Ok(Some(cfg)),
                    Err(e) => Err(e),
                }
            },
            None => Ok(None),
        }
    }

    /// Reads the installed release manifest, when one has been written.
    pub fn load_manifest(&self) -> (r: Result<Option<Manifest>, ErrorKind>)
        ensures
            r matches Ok(m) ==> match m {
                Some(_) => kv_lookup(self.prefix@.files, DIST_MANIFEST@) is Some,
                None => kv_lookup(self.prefix@.files, DIST_MANIFEST@) is None,
            },
            kv_lookup(self.prefix@.files, DIST_MANIFEST@) is None ==> (r matches Ok(m) && m is None),
    {
        match self.prefix.read_file(DIST_MANIFEST) {
            Some(bytes) => {
                let text = match crate::strutil::bytes_to_string(bytes) {
                    Some(t) => t,
                    None => {
                        return Err(ErrorKind::ReadingFile {
                            name: "installed manifest".to_owned(),
                            path: DIST_MANIFEST.to_owned(),
                        });
                    },
                };
                match Manifest::parse(text.as_str()) {
                    Ok(m) => Ok(Some(m)),
                    Err(e) => Err(e),
                }
            },
            None => Ok(None),
        }
    }

    /// Resolves the change set of one update and checks availability.
    ///
    /// An empty plan (nothing to uninstall, nothing to install) means
    /// the installation is already up to date.  Components of the
    /// install list that the manifest reports unavailable abort the
    /// whole update with the complete batch of them in one error.
    pub fn update_prepare(
        &self,
        new_manifest: &Manifest,
        old_manifest: &Option<Manifest>,
        config: &Option<Config>,
        changes: &Changes,
        notifications: &mut Vec<Notification>,
    ) -> (r: Result<UpdatePlan, ErrorKind>)
        requires
            rust_target_of(new_manifest@, self.target_triple@) matches Some(tp)
                ==> changes_valid(
                    cviews(changes.add_extensions@),
                    cviews(changes.remove_extensions@),
                    tp.extensions,
                    config_view(config),
                ),
        ensures
            match r {
                Ok(plan) => {
                    let tp = rust_target_of(new_manifest@, self.target_triple@);
                    &&& tp is Some
                    &&& {
                        let adds = cviews(changes.add_extensions@);
                        let removes = cviews(changes.remove_extensions@);
                        let installed = installed_of(config_view(config));
                        let fin = crate::changeset::final_list_spec(
                            tp->0, installed, adds, removes, new_manifest@.renames,
                        );
                        let modification = match old_manifest {
                            Some(om) => om@ == new_manifest@,
                            None => false,
                        };
                        &&& cviews(plan.final_component_list@) == fin
                        &&& if modification {
                            cviews(plan.components_to_uninstall@)
                                == crate::changeset::cv_diff(installed, fin)
                                && cviews(plan.components_to_install@)
                                    == crate::changeset::cv_diff(fin, installed)
                        } else {
                            cviews(plan.components_to_uninstall@) == installed
                                && cviews(plan.components_to_install@) == fin
                        }
                        &&& (plan.components_to_uninstall@.len() > 0
                            || plan.components_to_install@.len() > 0)
                            ==> unavailable_spec(
                                cviews(plan.components_to_install@), new_manifest@,
                            ).len() == 0
                        &&& plan.downloads@.len() == plan.components_to_install@.len()
                    }
                },
                Err(e) => match e {
                    ErrorKind::RequestedComponentsUnavailable(cs) => {
                        let tp = rust_target_of(new_manifest@, self.target_triple@);
                        let adds = cviews(changes.add_extensions@);
                        let removes = cviews(changes.remove_extensions@);
                        let installed = installed_of(config_view(config));
                        &&& tp is Some
                        &&& {
                            let fin = crate::changeset::final_list_spec(
                                tp->0, installed, adds, removes, new_manifest@.renames,
                            );
                            let modification = match old_manifest {
                                Some(om) => om@ == new_manifest@,
                                None => false,
                            };
                            let install = if modification {
                                crate::changeset::cv_diff(fin, installed)
                            } else {
                                fin
                            };
                            cviews(cs@) == unavailable_spec(install, new_manifest@)
                                && cs@.len() > 0
                        }
                    },
                    ErrorKind::MissingPackageForComponent(_) =>
                        rust_target_of(new_manifest@, self.target_triple@) is None,
                    _ => false,
                },
            },
    {
        let rust_package = match new_manifest.get_package("rust") {
            Ok(p) => p,
            Err(e) => {
                proof {
                    assert(rust_target_of(new_manifest@, self.target_triple@) is None);
                }
                return Err(e);
            },
        };
        let rust_target_package: &TargetedPackage = match rust_package.get_target(
            Some(&self.target_triple),
        ) {
            Ok(tp) => tp,
            Err(e) => {
                proof {
                    assert(rust_target_of(new_manifest@, self.target_triple@) is None);
                }
                return Err(ErrorKind::MissingPackageForComponent("rust".to_owned()));
            },
        };
        let (components_to_uninstall, components_to_install, final_component_list) =
            build_update_component_lists(
            new_manifest,
            old_manifest,
            config,
            changes,
            rust_target_package,
            notifications,
        );
        if components_to_uninstall.len() == 0 && components_to_install.len() == 0 {
            return Ok(UpdatePlan {
                components_to_uninstall,
                components_to_install,
                final_component_list,
                downloads: Vec::new(),
            });
        }
        let unavailable = find_unavailable_components(&components_to_install, new_manifest);
        if unavailable.len() > 0 {
            return Err(ErrorKind::RequestedComponentsUnavailable(unavailable));
        }
        let mut downloads: Vec<DownloadSpec> = Vec::new();
        let mut i: usize = 0;
        while i < components_to_install.len()
            invariant
                i <= components_to_install@.len(),
                downloads@.len() == i,
            decreases components_to_install@.len() - i,
        {
            let c = &components_to_install[i];
            let spec_entry = match new_manifest.get_package(c.pkg.as_str()) {
                Ok(pkg) => match pkg.get_target(c.target.as_ref()) {
                    Ok(tp) => {
                        match (&tp.xz_url, &tp.xz_hash) {
                            (Some(xu), Some(xh)) => DownloadSpec {
                                format_xz: true,
                                url: xu.clone(),
                                hash: xh.clone(),
                            },
                            _ => DownloadSpec {
                                format_xz: false,
                                url: tp.url.clone(),
                                hash: tp.hash.clone(),
                            },
                        }
                    },
                    Err(_) => DownloadSpec {
                        format_xz: false,
                        url: String::new(),
                        hash: String::new(),
                    },
                },
                Err(_) => DownloadSpec {
                    format_xz: false,
                    url: String::new(),
                    hash: String::new(),
                },
            };
            downloads.push(spec_entry);
            i += 1;
        }
        Ok(UpdatePlan {
            components_to_uninstall,
            components_to_install,
            final_component_list,
            downloads,
        })
    }

    /// Performs a resolved update inside one transaction: uninstalls
    /// fully before installing, writes the new manifest and the new
    /// installed-config record, and commits.  Any failure rolls the
    /// root back to exactly the state it held before the call.
    #[verifier::loop_isolation(false)]
    pub fn update_apply(
        &mut self,
        plan: &UpdatePlan,
        packages: &Vec<PackagePayload>,
        new_manifest_str: &str,
        notifications: &mut Vec<Notification>,
    ) -> (r: Result<UpdateStatus, ErrorKind>)
        requires
            old(self).prefix.wf(),
            packages@.len() == plan.components_to_install@.len(),
        ensures
            final(self).prefix.wf(),
            final(self).target_triple == old(self).target_triple,
            r matches Err(_) ==> final(self).prefix@ == old(self).prefix@,
            r matches Ok(UpdateStatus::Unchanged) ==> final(self).prefix@
                == old(self).prefix@,
            (r matches Ok(UpdateStatus::Unchanged)) <==> (
                plan.components_to_uninstall@.len() == 0
                    && plan.components_to_install@.len() == 0),
            r matches Err(e) ==> (e matches ErrorKind::CorruptComponent(_)
                || e matches ErrorKind::ComponentConflict { .. }),
            (forall|i: int| 0 <= i < plan.components_to_install@.len()
                ==> install_choice(
                    (#[trigger] packages@[i]).components@,
                    plan.components_to_install@[i]@,
                ) is Some) ==> !(r matches Err(e) && e matches ErrorKind::CorruptComponent(_)),
            r matches Ok(UpdateStatus::Changed) ==> {
                &&& kv_lookup(final(self).prefix@.files, DIST_MANIFEST@)
                    == Some(utf8_of(new_manifest_str@))
                &&& kv_lookup(final(self).prefix@.files, CONFIG_FILE@) == Some(utf8_of(
                    config_render("1"@, cviews(plan.final_component_list@)),
                ))
                &&& final(self).prefix@.exists
                &&& forall|i: int| 0 <= i < plan.components_to_install@.len()
                    ==> kv_lookup(
                        final(self).prefix@.receipts,
                        component_name_spec((#[trigger] plan.components_to_install@[i])@),
                    ) is Some
                &&& forall|i: int| 0 <= i < plan.components_to_uninstall@.len()
                    && (forall|j: int| 0 <= j < plan.components_to_install@.len()
                        ==> component_name_spec((#[trigger] plan.components_to_install@[j])@)
                            != component_name_spec(plan.components_to_uninstall@[i]@))
                    ==> kv_lookup(
                        final(self).prefix@.receipts,
                        component_name_spec((#[trigger] plan.components_to_uninstall@[i])@),
                    ) is None
                &&& forall|i: int| 0 <= i < plan.components_to_install@.len()
                    ==> match install_choice(
                        (#[trigger] packages@[i]).components@,
                        plan.components_to_install@[i]@,
                    ) {
                        Some(ci) => forall|fi: int|
                            0 <= fi < packages@[i].components@[ci].1@.len()
                                ==> ((#[trigger] packages@[i].components@[ci].1@[fi]).0@
                                    != DIST_MANIFEST@
                                    && packages@[i].components@[ci].1@[fi].0@ != CONFIG_FILE@)
                                    ==> kv_lookup(
                                    final(self).prefix@.files,
                                    packages@[i].components@[ci].1@[fi].0@,
                                ) == Some(packages@[i].components@[ci].1@[fi].1@),
                        None => true,
                    }
                &&& kv_lookup(old(self).prefix@.files, CONFIG_FILE@) is None
                    ==> forall|k: Seq<char>| (forall|j: int|
                        0 <= j < plan.components_to_install@.len()
                            ==> k != component_name_spec(
                                (#[trigger] plan.components_to_install@[j])@,
                            )) ==> #[trigger] kv_lookup(final(self).prefix@.receipts, k) is None
            },
    {
        if plan.components_to_uninstall.len() == 0 && plan.components_to_install.len() == 0 {
            return Ok(UpdateStatus::Unchanged);
        }
        let triple = self.target_triple.duplicate();
        let prefix = &mut self.prefix;
        let mut tx = Transaction::new(prefix);
        if !prefix.exists {
            tx.create_root(prefix);
        }

        // An installation written before the config format has receipts
        // but no config record: uninstall all of it first.
        let had_config = prefix.find_file(CONFIG_FILE).is_some();
        proof {
            assert(had_config == (kv_lookup(old(self).prefix@.files, CONFIG_FILE@) is Some));
        }
        if !had_config {
            while prefix.receipts.len() > 0
                invariant
                    tx.inv(prefix@),
                    tx.original@ == old(self).prefix@,
                    prefix.wf(),
                    prefix@.exists,
                decreases prefix@.receipts.len(),
            {
                let name = prefix.receipts[0].0.clone();
                remove_receipt_files(&mut tx, prefix, &name);
            }
            proof {
                assert forall|k: Seq<char>| #[trigger] kv_lookup(prefix@.receipts, k) is None
                    by {}
            }
        }

        // Uninstall components, fully, before any install begins.
        let mut i: usize = 0;
        while i < plan.components_to_uninstall.len()
            invariant
                i <= plan.components_to_uninstall@.len(),
                tx.inv(prefix@),
                tx.original@ == old(self).prefix@,
                prefix.wf(),
                prefix@.exists,
                forall|j: int| 0 <= j < i ==> kv_lookup(
                    prefix@.receipts,
                    component_name_spec((#[trigger] plan.components_to_uninstall@[j])@),
                ) is None,
                !had_config ==> forall|k: Seq<char>|
                    #[trigger] kv_lookup(prefix@.receipts, k) is None,
            decreases plan.components_to_uninstall@.len() - i,
        {
            let component = &plan.components_to_uninstall[i];
            notifications.push(Notification::RemovingComponent(
                component.pkg.clone(),
                triple.duplicate(),
                match &component.target {
                    Some(t) => Some(t.duplicate()),
                    None => None,
                },
            ));
            let ghost pre_receipts = prefix@.receipts;
            let _ = uninstall_component_tx(&mut tx, prefix, component, notifications);
            proof {
                assert forall|j: int| 0 <= j < i + 1 implies kv_lookup(
                    prefix@.receipts,
                    component_name_spec((#[trigger] plan.components_to_uninstall@[j])@),
                ) is None by {
                    let nj = component_name_spec(plan.components_to_uninstall@[j]@);
                    if j < i {
                        if kv_lookup(prefix@.receipts, nj) is Some {
                            assert(kv_lookup(pre_receipts, nj) is Some);
                        }
                    }
                }
                if !had_config {
                    assert forall|k: Seq<char>| #[trigger] kv_lookup(prefix@.receipts, k) is None
                        by {
                        if kv_lookup(prefix@.receipts, k) is Some {
                            assert(kv_lookup(pre_receipts, k) is Some);
                        }
                    }
                }
            }
            i += 1;
        }

        // Install components.
        let mut i: usize = 0;
        while i < plan.components_to_install.len()
            invariant
                i <= plan.components_to_install@.len(),
                packages@.len() == plan.components_to_install@.len(),
                tx.inv(prefix@),
                tx.original@ == old(self).prefix@,
                prefix.wf(),
                prefix@.exists,
                forall|j: int| 0 <= j < i ==> kv_lookup(
                    prefix@.receipts,
                    component_name_spec((#[trigger] plan.components_to_install@[j])@),
                ) is Some,
                forall|j: int| 0 <= j < plan.components_to_uninstall@.len()
                    && (forall|k: int| 0 <= k < plan.components_to_install@.len()
                        ==> component_name_spec((#[trigger] plan.components_to_install@[k])@)
                            != component_name_spec(plan.components_to_uninstall@[j]@))
                    ==> kv_lookup(
                        prefix@.receipts,
                        component_name_spec((#[trigger] plan.components_to_uninstall@[j])@),
                    ) is None,
                forall|j: int| 0 <= j < i ==> match install_choice(
                    (#[trigger] packages@[j]).components@,
                    plan.components_to_install@[j]@,
                ) {
                    Some(cj) => forall|fi: int|
                        0 <= fi < packages@[j].components@[cj].1@.len()
                            ==> kv_lookup(
                            prefix@.files,
                            (#[trigger] packages@[j].components@[cj].1@[fi]).0@,
                        ) == Some(packages@[j].components@[cj].1@[fi].1@),
                    None => true,
                },
                !had_config ==> forall|k: Seq<char>| (forall|j: int| 0 <= j < i
                    ==> k != component_name_spec(
                        (#[trigger] plan.components_to_install@[j])@,
                    )) ==> #[trigger] kv_lookup(prefix@.receipts, k) is None,
            decreases plan.components_to_install@.len() - i,
        {
            let component = &plan.components_to_install[i];
            notifications.push(Notification::InstallingComponent(
                component.pkg.clone(),
                triple.duplicate(),
                match &component.target {
                    Some(t) => Some(t.duplicate()),
                    None => None,
                },
            ));
            let name = component.name();
            let payload = &packages[i];
            let ci = match payload.find_component(name.as_str()) {
                Some(ci) => ci,
                None => match payload.find_component(component.pkg.as_str()) {
                    Some(ci) => ci,
                    None => {
                        proof {
                            assert(install_choice(
                                packages@[i as int].components@,
                                plan.components_to_install@[i as int]@,
                            ) is None);
                        }
                        tx.rollback(prefix);
                        notifications.push(Notification::RollingBack);
                        return Err(ErrorKind::CorruptComponent(component.pkg.clone()));
                    },
                },
            };
            proof {
                assert(install_choice(
                    packages@[i as int].components@,
                    plan.components_to_install@[i as int]@,
                ) == Some(ci as int));
            }
            let ghost pre_receipts = prefix@.receipts;
            let ghost pre_files = prefix@.files;
            match install_payload_component(&mut tx, prefix, &name, payload, ci) {
                Ok(()) => {},
                Err(e) => {
                    tx.rollback(prefix);
                    notifications.push(Notification::RollingBack);
                    return Err(e);
                },
            }
            proof {
                assert(name@ == component_name_spec(plan.components_to_install@[i as int]@));
                let ghost new_files = packages@[i as int].components@[ci as int].1@;
                assert forall|j: int| 0 <= j < i + 1 implies match install_choice(
                    (#[trigger] packages@[j]).components@,
                    plan.components_to_install@[j]@,
                ) {
                    Some(cj) => forall|fi: int|
                        0 <= fi < packages@[j].components@[cj].1@.len()
                            ==> kv_lookup(
                            prefix@.files,
                            (#[trigger] packages@[j].components@[cj].1@[fi]).0@,
                        ) == Some(packages@[j].components@[cj].1@[fi].1@),
                    None => true,
                } by {
                    if j < i {
                        match install_choice(
                            packages@[j].components@,
                            plan.components_to_install@[j]@,
                        ) {
                            Some(cj) => {
                                assert forall|fi: int|
                                    0 <= fi < packages@[j].components@[cj].1@.len()
                                        implies kv_lookup(
                                        prefix@.files,
                                        (#[trigger] packages@[j].components@[cj].1@[fi]).0@,
                                    ) == Some(packages@[j].components@[cj].1@[fi].1@) by {
                                    let p = packages@[j].components@[cj].1@[fi].0@;
                                    assert forall|nf: int| 0 <= nf < new_files.len()
                                        implies p != (#[trigger] new_files[nf]).0@ by {
                                        if p == new_files[nf].0@ {
                                            assert(kv_lookup(pre_files, p) is None);
                                        }
                                    }
                                    assert(kv_lookup(prefix@.files, p)
                                        == kv_lookup(pre_files, p));
                                }
                            },
                            None => {},
                        }
                    }
                }
                if !had_config {
                    assert forall|k: Seq<char>| (forall|j: int| 0 <= j < i + 1
                        ==> k != component_name_spec(
                            (#[trigger] plan.components_to_install@[j])@,
                        )) implies #[trigger] kv_lookup(prefix@.receipts, k) is None by {
                        assert(k != name@);
                        assert(kv_lookup(prefix@.receipts, k) == kv_lookup(pre_receipts, k));
                    }
                }
                assert forall|j: int| 0 <= j < i + 1 implies kv_lookup(
                    prefix@.receipts,
                    component_name_spec((#[trigger] plan.components_to_install@[j])@),
                ) is Some by {
                    let nj = component_name_spec(plan.components_to_install@[j]@);
                    if j < i && nj != name@ {
                        assert(kv_lookup(prefix@.receipts, nj) == kv_lookup(pre_receipts, nj));
                    }
                }
                assert forall|j: int| 0 <= j < plan.components_to_uninstall@.len()
                    && (forall|k: int| 0 <= k < plan.components_to_install@.len()
                        ==> component_name_spec((#[trigger] plan.components_to_install@[k])@)
                            != component_name_spec(plan.components_to_uninstall@[j]@))
                    implies kv_lookup(
                        prefix@.receipts,
                        component_name_spec((#[trigger] plan.components_to_uninstall@[j])@),
                    ) is None by {
                    let nj = component_name_spec(plan.components_to_uninstall@[j]@);
                    assert(nj != name@);
                    assert(kv_lookup(prefix@.receipts, nj) == kv_lookup(pre_receipts, nj));
                }
            }
            i += 1;
        }

        // Record the new release manifest and the new configuration.
        proof {
            assert(DIST_MANIFEST@ == "lib/rustlib/multirust-channel-manifest.toml"@);
            assert(CONFIG_FILE@ == "lib/rustlib/multirust-config.toml"@);
            reveal_strlit("lib/rustlib/multirust-channel-manifest.toml");
            reveal_strlit("lib/rustlib/multirust-config.toml");
            assert("lib/rustlib/multirust-channel-manifest.toml"@.len() == 43);
            assert("lib/rustlib/multirust-config.toml"@.len() == 33);
            assert(DIST_MANIFEST@ != CONFIG_FILE@);
        }
        let ghost files_before_records = prefix@.files;
        tx.write_file(prefix, DIST_MANIFEST, str_bytes(new_manifest_str));
        let config = Config {
            config_version: "1".to_owned(),
            components: crate::changeset::duplicate_components(&plan.final_component_list),
        };
        let config_str = config.stringify();
        tx.write_file(prefix, CONFIG_FILE, str_bytes(config_str.as_str()));
        proof {
            // The two record writes change nothing but their own paths.
            assert forall|i: int| 0 <= i < plan.components_to_install@.len()
                implies match install_choice(
                    (#[trigger] packages@[i]).components@,
                    plan.components_to_install@[i]@,
                ) {
                    Some(ci) => forall|fi: int|
                        0 <= fi < packages@[i].components@[ci].1@.len()
                            ==> ((#[trigger] packages@[i].components@[ci].1@[fi]).0@
                                != DIST_MANIFEST@
                                && packages@[i].components@[ci].1@[fi].0@ != CONFIG_FILE@)
                                ==> kv_lookup(
                                prefix@.files,
                                packages@[i].components@[ci].1@[fi].0@,
                            ) == Some(packages@[i].components@[ci].1@[fi].1@),
                    None => true,
                } by {
                match install_choice(
                    packages@[i].components@,
                    plan.components_to_install@[i]@,
                ) {
                    Some(ci) => {
                        assert forall|fi: int|
                            0 <= fi < packages@[i].components@[ci].1@.len()
                                implies ((#[trigger] packages@[i].components@[ci].1@[fi]).0@
                                    != DIST_MANIFEST@
                                    && packages@[i].components@[ci].1@[fi].0@ != CONFIG_FILE@)
                                    ==> kv_lookup(
                                    prefix@.files,
                                    packages@[i].components@[ci].1@[fi].0@,
                                ) == Some(packages@[i].components@[ci].1@[fi].1@) by {
                            let p = packages@[i].components@[ci].1@[fi].0@;
                            if p != DIST_MANIFEST@ && p != CONFIG_FILE@ {
                                assert(kv_lookup(prefix@.files, p)
                                    == kv_lookup(files_before_records, p));
                            }
                        }
                    },
                    None => {},
                }
            }
        }
        tx.commit();
        Ok(UpdateStatus::Changed)
    }


    /// Uninstalls the given components and removes the config record,
    /// in one transaction.
    #[verifier::loop_isolation(false)]
    pub fn uninstall_components(
        &mut self,
        components: &Vec<Component>,
        notifications: &mut Vec<Notification>,
    ) -> (r: Result<(), ErrorKind>)
        requires
            old(self).prefix.wf(),
        ensures
            final(self).prefix.wf(),
            final(self).target_triple == old(self).target_triple,
            r is Ok,
            r is Ok ==> kv_lookup(final(self).prefix@.files, CONFIG_FILE@) is None,
            r is Ok ==> forall|i: int| 0 <= i < components@.len()
                ==> kv_lookup(
                    final(self).prefix@.receipts,
                    component_name_spec((#[trigger] components@[i])@),
                ) is None,
            r matches Err(_) ==> final(self).prefix@ == old(self).prefix@,
    {
        let prefix = &mut self.prefix;
        let mut tx = Transaction::new(prefix);
        let _ = tx.remove_file(prefix, CONFIG_FILE);
        let mut i: usize = 0;
        while i < components.len()
            invariant
                i <= components@.len(),
                tx.inv(prefix@),
                prefix.wf(),
                kv_lookup(prefix@.files, CONFIG_FILE@) is None,
                forall|j: int| 0 <= j < i ==> kv_lookup(
                    prefix@.receipts,
                    component_name_spec((#[trigger] components@[j])@),
                ) is None,
            decreases components@.len() - i,
        {
            let component = &components[i];
            let ghost pre_receipts = prefix@.receipts;
            uninstall_component_tx(&mut tx, prefix, component, notifications);
            proof {
                assert forall|j: int| 0 <= j < i + 1 implies kv_lookup(
                    prefix@.receipts,
                    component_name_spec((#[trigger] components@[j])@),
                ) is None by {
                    let nj = component_name_spec(components@[j]@);
                    if j < i {
                        if kv_lookup(prefix@.receipts, nj) is Some {
                            assert(kv_lookup(pre_receipts, nj) is Some);
                        }
                    }
                }
            }
            i += 1;
        }
        tx.commit();
        Ok(())
    }

    /// Reads the config record and uninstalls everything it lists,
    /// removing the record itself as part of the same transaction.
    pub fn uninstall(&mut self, notifications: &mut Vec<Notification>) -> (r: Result<(), ErrorKind>)
        requires
            old(self).prefix.wf(),
        ensures
            final(self).prefix.wf(),
            final(self).target_triple == old(self).target_triple,
            r is Ok ==> kv_lookup(final(self).prefix@.files, CONFIG_FILE@) is None,
            r matches Err(_) ==> final(self).prefix@ == old(self).prefix@,
            kv_lookup(old(self).prefix@.files, CONFIG_FILE@) is None
                ==> (r matches Err(e) && e matches ErrorKind::ReadingFile { .. }),
    {
        let config = match self.read_config() {
            Ok(Some(cfg)) => cfg,
            Ok(None) => {
                return Err(ErrorKind::ReadingFile {
                    name: "dist config".to_owned(),
                    path: CONFIG_FILE.to_owned(),
                });
            },
            Err(e) => {
                return Err(e);
            },
        };
        self.uninstall_components(&config.components, notifications)
    }

    /// The legacy-format update: picks the installer archive for this
    /// installation's triple out of the legacy listing.  A config record
    /// from the current format means the server answered with the wrong
    /// generation, which is an error.
    #[verifier::loop_isolation(false)]
    pub fn update_v1_prepare(
        &self,
        new_manifest: &Vec<String>,
        config: &Option<Config>,
    ) -> (r: Result<String, ErrorKind>)
        ensures
            ({
                let suffix = self.target_triple@ + ".tar.gz"@;
                match r {
                    Ok(url) => config is None && exists|i: int|
                        0 <= i < new_manifest@.len()
                            && crate::strutil::seq_contains_seq(
                            (#[trigger] new_manifest@[i])@, suffix,
                        ) && url@ == new_manifest@[i]@ && (forall|j: int| 0 <= j < i
                            ==> !crate::strutil::seq_contains_seq(
                                (#[trigger] new_manifest@[j])@, suffix,
                            )),
                    Err(e) => match e {
                        ErrorKind::ObsoleteDistManifest => config is Some,
                        ErrorKind::BinaryPackageNotProvided(t) => t@ == self.target_triple@
                            && config is None && (forall|i: int| 0 <= i < new_manifest@.len()
                            ==> !crate::strutil::seq_contains_seq(
                                (#[trigger] new_manifest@[i])@, suffix,
                            )),
                        _ => false,
                    },
                }
            }),
    {
        if config.is_some() {
            return Err(ErrorKind::ObsoleteDistManifest);
        }
        let mut suffix = self.target_triple.0.clone();
        suffix.append(".tar.gz");
        let mut i: usize = 0;
        while i < new_manifest.len()
            invariant
                i <= new_manifest@.len(),
                suffix@ == self.target_triple@ + ".tar.gz"@,
                forall|j: int| 0 <= j < i ==> !crate::strutil::seq_contains_seq(
                    (#[trigger] new_manifest@[j])@, suffix@,
                ),
            decreases new_manifest@.len() - i,
        {
            if crate::strutil::str_contains(new_manifest[i].as_str(), suffix.as_str()) {
                return Ok(new_manifest[i].clone());
            }
            i += 1;
        }
        Err(ErrorKind::BinaryPackageNotProvided(self.target_triple.0.clone()))
    }

    /// Installs a legacy-format archive: uninstalls every receipt, then
    /// installs every component the archive carries, in one transaction.
    #[verifier::loop_isolation(false)]
    pub fn update_v1_apply(
        &mut self,
        payload: &PackagePayload,
        notifications: &mut Vec<Notification>,
    ) -> (r: Result<(), ErrorKind>)
        requires
            old(self).prefix.wf(),
        ensures
            final(self).prefix.wf(),
            final(self).target_triple == old(self).target_triple,
            r matches Err(_) ==> final(self).prefix@ == old(self).prefix@,
            r matches Err(e) ==> e matches ErrorKind::ComponentConflict { .. },
            r is Ok ==> ({
                &&& final(self).prefix@.exists
                &&& forall|ci: int| 0 <= ci < payload.components@.len()
                    ==> kv_lookup(
                        final(self).prefix@.receipts,
                        (#[trigger] payload.components@[ci]).0@,
                    ) is Some
                &&& forall|ci: int, fi: int| 0 <= ci < payload.components@.len()
                    && 0 <= fi < payload.components@[ci].1@.len()
                    ==> kv_lookup(
                        final(self).prefix@.files,
                        (#[trigger] payload.components@[ci].1@[fi]).0@,
                    ) == Some(payload.components@[ci].1@[fi].1@)
                &&& forall|k: Seq<char>| (forall|ci: int| 0 <= ci < payload.components@.len()
                    ==> k != (#[trigger] payload.components@[ci]).0@)
                    ==> #[trigger] kv_lookup(final(self).prefix@.receipts, k) is None
            }),
    {
        let prefix = &mut self.prefix;
        let mut tx = Transaction::new(prefix);
        if !prefix.exists {
            tx.create_root(prefix);
        }
        while prefix.receipts.len() > 0
            invariant
                tx.inv(prefix@),
                tx.original@ == old(self).prefix@,
                prefix.wf(),
                prefix@.exists,
            decreases prefix@.receipts.len(),
        {
            let name = prefix.receipts[0].0.clone();
            remove_receipt_files(&mut tx, prefix, &name);
        }
        proof {
            assert forall|k: Seq<char>| #[trigger] kv_lookup(prefix@.receipts, k) is None by {}
        }
        let mut i: usize = 0;
        while i < payload.components.len()
            invariant
                i <= payload.components@.len(),
                tx.inv(prefix@),
                tx.original@ == old(self).prefix@,
                prefix.wf(),
                prefix@.exists,
                forall|ci: int| 0 <= ci < i
                    ==> kv_lookup(prefix@.receipts, (#[trigger] payload.components@[ci]).0@)
                        is Some,
                forall|ci: int, fi: int| 0 <= ci < i
                    && 0 <= fi < payload.components@[ci].1@.len()
                    ==> kv_lookup(
                        prefix@.files,
                        (#[trigger] payload.components@[ci].1@[fi]).0@,
                    ) == Some(payload.components@[ci].1@[fi].1@),
                forall|k: Seq<char>| (forall|ci: int| 0 <= ci < i
                    ==> k != (#[trigger] payload.components@[ci]).0@)
                    ==> #[trigger] kv_lookup(prefix@.receipts, k) is None,
            decreases payload.components@.len() - i,
        {
            let name = payload.components[i].0.clone();
            let ghost pre_receipts = prefix@.receipts;
            let ghost pre_files = prefix@.files;
            match install_payload_component(&mut tx, prefix, &name, payload, i) {
                Ok(()) => {},
                Err(e) => {
                    tx.rollback(prefix);
                    notifications.push(Notification::RollingBack);
                    return Err(e);
                },
            }
            proof {
                let ghost new_files = payload.components@[i as int].1@;
                assert(name@ == payload.components@[i as int].0@);
                assert forall|ci: int| 0 <= ci < i + 1
                    implies kv_lookup(
                        prefix@.receipts, (#[trigger] payload.components@[ci]).0@,
                    ) is Some by {
                    let nc = payload.components@[ci].0@;
                    if ci < i && nc != name@ {
                        assert(kv_lookup(prefix@.receipts, nc) == kv_lookup(pre_receipts, nc));
                    }
                }
                assert forall|ci: int, fi: int| 0 <= ci < i + 1
                    && 0 <= fi < payload.components@[ci].1@.len()
                    implies kv_lookup(
                        prefix@.files,
                        (#[trigger] payload.components@[ci].1@[fi]).0@,
                    ) == Some(payload.components@[ci].1@[fi].1@) by {
                    if ci < i {
                        let p = payload.components@[ci].1@[fi].0@;
                        assert forall|nf: int| 0 <= nf < new_files.len()
                            implies p != (#[trigger] new_files[nf]).0@ by {
                            if p == new_files[nf].0@ {
                                assert(kv_lookup(pre_files, p) is None);
                            }
                        }
                        assert(kv_lookup(prefix@.files, p) == kv_lookup(pre_files, p));
                    }
                }
                assert forall|k: Seq<char>| (forall|ci: int| 0 <= ci < i + 1
                    ==> k != (#[trigger] payload.components@[ci]).0@)
                    implies #[trigger] kv_lookup(prefix@.receipts, k) is None by {
                    assert(k != name@);
                    assert(kv_lookup(prefix@.receipts, k) == kv_lookup(pre_receipts, k));
                }
            }
            i += 1;
        }
        tx.commit();
        Ok(())
    }
}

/// Removes the receipt under `name` together with every file it owns.
fn remove_receipt_files(tx: &mut Transaction, prefix: &mut Prefix, name: &String)
    requires
        old(tx).inv(old(prefix)@),
        old(prefix).wf(),
        old(prefix)@.receipts.len() > 0,
        old(prefix)@.receipts[0].0 == name@,
    ensures
        final(tx).inv(final(prefix)@),
        final(tx).original == old(tx).original,
        final(prefix).wf(),
        final(prefix)@.exists == old(prefix)@.exists,
        final(prefix)@.receipts.len() < old(prefix)@.receipts.len(),
{
    let files = match prefix.find_receipt(name.as_str()) {
        Some(ri) => duplicate_strings(&prefix.receipts[ri].1),
        None => Vec::new(),
    };
    let mut j: usize = 0;
    while j < files.len()
        invariant
            j <= files@.len(),
            tx.inv(prefix@),
            tx.original == old(tx).original,
            prefix.wf(),
            prefix@.exists == old(prefix)@.exists,
            prefix@.receipts == old(prefix)@.receipts,
        decreases files@.len() - j,
    {
        let _ = tx.remove_file(prefix, files[j].as_str());
        j += 1;
    }
    let removed = tx.remove_receipt(prefix, name.as_str());
    proof {
        crate::prefix::lemma_kv_first_hit(old(prefix)@.receipts, name@, 0);
        assert(removed);
    }
}

/// A deep copy of a string list.
fn duplicate_strings(v: &Vec<String>) -> (r: Vec<String>)
    ensures
        r@.map_values(|s: String| s@) == v@.map_values(|s: String| s@),
{
    let mut r: Vec<String> = Vec::new();
    let mut i: usize = 0;
    while i < v.len()
        invariant
            i <= v@.len(),
            r@.len() == i,
            forall|j: int| 0 <= j < i ==> r@[j]@ == v@[j]@,
        decreases v@.len() - i,
    {
        r.push(v[i].clone());
        i += 1;
    }
    proof {
        let rm = r@.map_values(|s: String| s@);
        let vm = v@.map_values(|s: String| s@);
        assert forall|j: int| 0 <= j < v@.len() implies rm[j] == vm[j] by {
            assert(rm[j] == r@[j]@);
            assert(vm[j] == v@[j]@);
        }
        assert(rm =~= vm);
    }
    r
}

/// Uninstalls one component: looked up by its full installer name
/// first, then by its bare package name as a legacy fallback.  A
/// component that is not on disk is a warning, not a failure, so that
/// uninstalling twice stays safe.
pub fn uninstall_component_tx(
    tx: &mut Transaction,
    prefix: &mut Prefix,
    component: &Component,
    notifications: &mut Vec<Notification>,
) -> (found: bool)
    requires
        old(tx).inv(old(prefix)@),
        old(prefix).wf(),
    ensures
        final(tx).inv(final(prefix)@),
        final(tx).original == old(tx).original,
        final(prefix).wf(),
        final(prefix)@.exists == old(prefix)@.exists,
        found == (kv_lookup(old(prefix)@.receipts, component_name_spec(component@)) is Some
            || kv_lookup(old(prefix)@.receipts, component@.pkg) is Some),
        kv_lookup(final(prefix)@.receipts, component_name_spec(component@)) is None,
        forall|k: Seq<char>| kv_lookup(final(prefix)@.receipts, k) is Some
            ==> kv_lookup(old(prefix)@.receipts, k) is Some,
        !found ==> final(prefix)@ == old(prefix)@
            && final(notifications)@.len() == old(notifications)@.len() + 1
            && (final(notifications)@[old(notifications)@.len() as int] matches
                Notification::MissingInstalledComponent(n) && n@ == component_name_spec(component@)),
        kv_lookup(final(prefix)@.files, CONFIG_FILE@) is Some
            ==> kv_lookup(old(prefix)@.files, CONFIG_FILE@) is Some,
    {
    let name = component.name();
    let by_name = prefix.find_receipt(name.as_str());
    let key: Option<usize> = match by_name {
        Some(i) => Some(i),
        None => prefix.find_receipt(component.pkg.as_str()),
    };
    match key {
        Some(ri) => {
            let rname = prefix.receipts[ri].0.clone();
            let files = duplicate_strings(&prefix.receipts[ri].1);
            let ghost pre_receipts = prefix@.receipts;
            let mut j: usize = 0;
            while j < files.len()
                invariant
                    j <= files@.len(),
                    tx.inv(prefix@),
                    tx.original == old(tx).original,
                    prefix.wf(),
                    prefix@.exists == old(prefix)@.exists,
                    prefix@.receipts == pre_receipts,
                    forall|k: Seq<char>| kv_lookup(prefix@.files, k) is Some
                        ==> kv_lookup(old(prefix)@.files, k) is Some,
                decreases files@.len() - j,
            {
                let ghost pre_files = prefix@.files;
                let _ = tx.remove_file(prefix, files[j].as_str());
                proof {
                    assert forall|k: Seq<char>| kv_lookup(prefix@.files, k) is Some
                        implies kv_lookup(old(prefix)@.files, k) is Some by {
                        if k != files@[j as int]@ {
                            assert(kv_lookup(prefix@.files, k) == kv_lookup(pre_files, k));
                        }
                    }
                }
                j += 1;
            }
            let removed = tx.remove_receipt(prefix, rname.as_str());
            proof {
                assert(pre_receipts[ri as int].0 == rname@);
                crate::prefix::lemma_kv_lookup_index(pre_receipts, ri as int);
            }
            proof {
                if rname@ != component_name_spec(component@) {
                    assert(kv_lookup(prefix@.receipts, component_name_spec(component@))
                        == kv_lookup(pre_receipts, component_name_spec(component@)));
                }
            }
            true
        },
        None => {
            notifications.push(Notification::MissingInstalledComponent(name));
            false
        },
    }
}

/// Installs one component out of a payload: every file it carries is
/// written (a path the root already holds, or that an earlier file of
/// the same payload laid down, is a conflict), and a receipt recording
/// the component's files is added.
#[verifier::loop_isolation(false)]
fn install_payload_component(
    tx: &mut Transaction,
    prefix: &mut Prefix,
    name: &String,
    payload: &PackagePayload,
    ci: usize,
) -> (r: Result<(), ErrorKind>)
    requires
        old(tx).inv(old(prefix)@),
        old(prefix).wf(),
        ci < payload.components@.len(),
    ensures
        final(tx).inv(final(prefix)@),
        final(tx).original == old(tx).original,
        final(prefix).wf(),
        final(prefix)@.exists == old(prefix)@.exists,
        r matches Err(e) ==> e matches ErrorKind::ComponentConflict { .. },
        forall|k: Seq<char>| k != name@
            ==> #[trigger] kv_lookup(final(prefix)@.receipts, k)
                == kv_lookup(old(prefix)@.receipts, k),
        r is Ok ==> ({
            let files = payload.components@[ci as int].1@;
            &&& kv_lookup(final(prefix)@.receipts, name@) is Some
            &&& forall|fi: int| 0 <= fi < files.len()
                ==> kv_lookup(final(prefix)@.files, (#[trigger] files[fi]).0@)
                    == Some(files[fi].1@)
            &&& forall|fi: int| 0 <= fi < files.len()
                ==> kv_lookup(old(prefix)@.files, (#[trigger] files[fi]).0@) is None
            &&& forall|k: Seq<char>| (forall|fi: int| 0 <= fi < files.len()
                ==> k != (#[trigger] files[fi]).0@)
                ==> #[trigger] kv_lookup(final(prefix)@.files, k)
                    == kv_lookup(old(prefix)@.files, k)
        }),
{
    if prefix.find_receipt(name.as_str()).is_some() {
        return Err(ErrorKind::ComponentConflict {
            name: name.clone(),
            path: String::new(),
        });
    }
    let files = &payload.components[ci].1;
    let ghost filesv = payload.components@[ci as int].1@;
    let mut paths: Vec<String> = Vec::new();
    let mut j: usize = 0;
    while j < files.len()
        invariant
            j <= filesv.len(),
            tx.inv(prefix@),
            tx.original == old(tx).original,
            prefix.wf(),
            prefix@.exists == old(prefix)@.exists,
            prefix@.receipts == old(prefix)@.receipts,
            forall|fi: int| 0 <= fi < j
                ==> kv_lookup(prefix@.files, (#[trigger] filesv[fi]).0@) == Some(filesv[fi].1@),
            forall|fi: int| 0 <= fi < j
                ==> kv_lookup(old(prefix)@.files, (#[trigger] filesv[fi]).0@) is None,
            forall|k: Seq<char>| (forall|fi: int| 0 <= fi < j
                ==> k != (#[trigger] filesv[fi]).0@)
                ==> #[trigger] kv_lookup(prefix@.files, k) == kv_lookup(old(prefix)@.files, k),
        decreases filesv.len() - j,
    {
        let path = &files[j].0;
        if prefix.find_file(path.as_str()).is_some() {
            return Err(ErrorKind::ComponentConflict {
                name: name.clone(),
                path: path.clone(),
            });
        }
        proof {
            // The path is fresh: had it matched an earlier file of this
            // payload, that file's written contents would be here.
            assert(kv_lookup(prefix@.files, filesv[j as int].0@) is None);
            assert forall|fi: int| 0 <= fi < j
                implies filesv[j as int].0@ != (#[trigger] filesv[fi]).0@ by {}
            assert(kv_lookup(old(prefix)@.files, filesv[j as int].0@) is None);
        }
        let ghost pre_files = prefix@.files;
        tx.write_file(prefix, path.as_str(), files[j].1.clone());
        paths.push(path.clone());
        proof {
            assert forall|fi: int| 0 <= fi < j + 1
                implies kv_lookup(prefix@.files, (#[trigger] filesv[fi]).0@)
                    == Some(filesv[fi].1@) by {
                if fi < j {
                    assert(filesv[fi].0@ != filesv[j as int].0@);
                }
            }
            assert forall|k: Seq<char>| (forall|fi: int| 0 <= fi < j + 1
                ==> k != (#[trigger] filesv[fi]).0@)
                implies #[trigger] kv_lookup(prefix@.files, k)
                    == kv_lookup(old(prefix)@.files, k) by {
                assert(k != filesv[j as int].0@);
            }
        }
        j += 1;
    }
    proof {
        assert(kv_lookup(prefix@.receipts, name@) is None);
    }
    tx.add_receipt(prefix, name.as_str(), paths);
    Ok(())
}

} // verus!
