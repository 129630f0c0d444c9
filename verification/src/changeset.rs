//! The component change-set resolver: given the new manifest, the prior
//! manifest, the installed components and the requested additions and
//! removals, computes which components to uninstall, which to install,
//! and which the installation will hold afterwards.

use vstd::prelude::*;
use crate::config::Config;
use crate::errors::ErrorKind;
pub use crate::manifest::cviews;
use crate::manifest::{
    Component, ComponentV, Manifest, TargetedPackage, cv_in, comps_contain,
    contains_component, lemma_comps_contain_cviews, lemma_cviews_push, rename_lookup,
};
use crate::notifications::Notification;

verus! {

/// The requested deltas of one update: extensions to add and to remove.
#[derive(Debug)]
pub struct Changes {
    pub add_extensions: Vec<Component>,
    pub remove_extensions: Vec<Component>,
}

impl Changes {
    pub fn none() -> (r: Changes)
        ensures
            r.add_extensions@.len() == 0,
            r.remove_extensions@.len() == 0,
    {
        Changes { add_extensions: Vec::new(), remove_extensions: Vec::new() }
    }
}

/// The installed components a configuration records; none means a fresh
/// install.
pub open spec fn installed_of(config: Option<Seq<ComponentV>>) -> Seq<ComponentV> {
    match config {
        Some(c) => c,
        None => Seq::empty(),
    }
}

pub open spec fn config_view(config: &Option<Config>) -> Option<Seq<ComponentV>> {
    match config {
        Some(c) => Some(cviews(c.components@)),
        None => None,
    }
}

/// Every addition is a declared extension and is not also being removed.
pub open spec fn adds_valid(
    adds: Seq<ComponentV>,
    removes: Seq<ComponentV>,
    extensions: Seq<ComponentV>,
) -> bool {
    forall|i: int| 0 <= i < adds.len() ==> cv_in(extensions, #[trigger] adds[i])
        && !cv_in(removes, adds[i])
}

/// Every removal is a declared extension that the configuration records
/// as installed.
pub open spec fn removes_valid(
    removes: Seq<ComponentV>,
    extensions: Seq<ComponentV>,
    config: Option<Seq<ComponentV>>,
) -> bool {
    forall|i: int| 0 <= i < removes.len() ==> cv_in(extensions, #[trigger] removes[i])
        && config is Some && cv_in(installed_of(config), removes[i])
}

/// The resolver's preconditions.  Their violation is a programming
/// error, not a user error: every addition must be a declared extension
/// not also being removed, and every removal must be a declared
/// extension that the configuration records as installed.
pub open spec fn changes_valid(
    adds: Seq<ComponentV>,
    removes: Seq<ComponentV>,
    extensions: Seq<ComponentV>,
    config: Option<Seq<ComponentV>>,
) -> bool {
    adds_valid(adds, removes, extensions) && removes_valid(removes, extensions, config)
}

/// One step of carrying an installed component over: extensions that are
/// not being removed stay, under their renamed identity when the new
/// manifest renames them, deduplicated against what the list holds.
pub open spec fn carry_step(
    base: Seq<ComponentV>,
    c: ComponentV,
    extensions: Seq<ComponentV>,
    removes: Seq<ComponentV>,
    renames: Seq<(Seq<char>, Seq<char>)>,
) -> Seq<ComponentV> {
    if cv_in(extensions, c) && !cv_in(removes, c) {
        match rename_lookup(renames, c.pkg) {
            Some(to) => {
                let rc = ComponentV { pkg: to, target: c.target };
                if cv_in(base, rc) {
                    base
                } else {
                    base.push(rc)
                }
            },
            None => if cv_in(base, c) {
                base
            } else {
                base.push(c)
            },
        }
    } else {
        base
    }
}

pub open spec fn carry_from(
    base: Seq<ComponentV>,
    installed: Seq<ComponentV>,
    i: int,
    extensions: Seq<ComponentV>,
    removes: Seq<ComponentV>,
    renames: Seq<(Seq<char>, Seq<char>)>,
) -> Seq<ComponentV>
    decreases installed.len() - i,
{
    if i < 0 || i >= installed.len() {
        base
    } else {
        carry_from(
            carry_step(base, installed[i], extensions, removes, renames),
            installed,
            i + 1,
            extensions,
            removes,
            renames,
        )
    }
}

/// The components the installation will hold after the update: the
/// target package's required components, the requested additions, and
/// the carried-over installed extensions.
pub open spec fn final_list_spec(
    tp: crate::manifest::TargetedPackageV,
    installed: Seq<ComponentV>,
    adds: Seq<ComponentV>,
    removes: Seq<ComponentV>,
    renames: Seq<(Seq<char>, Seq<char>)>,
) -> Seq<ComponentV> {
    carry_from(tp.components + adds, installed, 0, tp.extensions, removes, renames)
}

/// The members of `a` that are not members of `b`, in order.
pub open spec fn cv_diff(a: Seq<ComponentV>, b: Seq<ComponentV>) -> Seq<ComponentV> {
    a.filter(|c: ComponentV| !cv_in(b, c))
}

/// The additions that were already installed, in final-list order; each
/// is reported rather than reinstalled when the manifest is unchanged.
pub open spec fn already_installed_notes(
    fin: Seq<ComponentV>,
    installed: Seq<ComponentV>,
    adds: Seq<ComponentV>,
) -> Seq<ComponentV> {
    fin.filter(|c: ComponentV| cv_in(installed, c) && cv_in(adds, c))
}

/// Extending the checked prefix of the additions by one.
proof fn lemma_adds_valid_step(
    adds: Seq<ComponentV>,
    removes: Seq<ComponentV>,
    exts: Seq<ComponentV>,
    i: int,
)
    requires
        0 <= i < adds.len(),
    ensures
        adds_valid(adds.subrange(0, i + 1), removes, exts) == (adds_valid(
            adds.subrange(0, i),
            removes,
            exts,
        ) && cv_in(exts, adds[i]) && !cv_in(removes, adds[i])),
{
    let a1 = adds.subrange(0, i + 1);
    let a0 = adds.subrange(0, i);
    if adds_valid(a1, removes, exts) {
        assert forall|j: int| 0 <= j < a0.len()
            implies cv_in(exts, #[trigger] a0[j]) && !cv_in(removes, a0[j]) by {
            assert(a1[j] == a0[j]);
        }
        assert(a1[i] == adds[i]);
    }
    if adds_valid(a0, removes, exts) && cv_in(exts, adds[i]) && !cv_in(removes, adds[i]) {
        assert forall|j: int| 0 <= j < a1.len()
            implies cv_in(exts, #[trigger] a1[j]) && !cv_in(removes, a1[j]) by {
            if j < i {
                assert(a1[j] == a0[j]);
            } else {
                assert(a1[j] == adds[i]);
            }
        }
    }
}

/// Extending the checked prefix of the removals by one.
proof fn lemma_removes_valid_step(
    removes: Seq<ComponentV>,
    exts: Seq<ComponentV>,
    config: Option<Seq<ComponentV>>,
    i: int,
)
    requires
        0 <= i < removes.len(),
    ensures
        removes_valid(removes.subrange(0, i + 1), exts, config) == (removes_valid(
            removes.subrange(0, i),
            exts,
            config,
        ) && cv_in(exts, removes[i]) && config is Some
            && cv_in(installed_of(config), removes[i])),
{
    let a1 = removes.subrange(0, i + 1);
    let a0 = removes.subrange(0, i);
    if removes_valid(a1, exts, config) {
        assert forall|j: int| 0 <= j < a0.len()
            implies cv_in(exts, #[trigger] a0[j]) && config is Some
                && cv_in(installed_of(config), a0[j]) by {
            assert(a1[j] == a0[j]);
        }
        assert(a1[i] == removes[i]);
    }
    if removes_valid(a0, exts, config) && cv_in(exts, removes[i]) && config is Some
        && cv_in(installed_of(config), removes[i]) {
        assert forall|j: int| 0 <= j < a1.len()
            implies cv_in(exts, #[trigger] a1[j]) && config is Some
                && cv_in(installed_of(config), a1[j]) by {
            if j < i {
                assert(a1[j] == a0[j]);
            } else {
                assert(a1[j] == removes[i]);
            }
        }
    }
}

/// Checks the resolver's preconditions, reporting rather than assuming
/// them, for callers whose requests come from outside.
pub fn validate_changes(
    changes: &Changes,
    rust_target_package: &TargetedPackage,
    config: &Option<Config>,
) -> (r: bool)
    ensures
        r == changes_valid(
            cviews(changes.add_extensions@),
            cviews(changes.remove_extensions@),
            cviews(rust_target_package.extensions@),
            config_view(config),
        ),
{
    let ghost addsv = cviews(changes.add_extensions@);
    let ghost removesv = cviews(changes.remove_extensions@);
    let ghost extsv = cviews(rust_target_package.extensions@);
    let ghost cfgv = config_view(config);
    let mut adds_ok = true;
    let mut i: usize = 0;
    while i < changes.add_extensions.len()
        invariant
            i <= changes.add_extensions@.len(),
            addsv == cviews(changes.add_extensions@),
            removesv == cviews(changes.remove_extensions@),
            extsv == cviews(rust_target_package.extensions@),
            adds_ok == adds_valid(addsv.subrange(0, i as int), removesv, extsv),
        decreases changes.add_extensions@.len() - i,
    {
        proof {
            broadcast use lemma_comps_contain_cviews;
        }
        let c = &changes.add_extensions[i];
        let ok = contains_component(&rust_target_package.extensions, c)
            && !contains_component(&changes.remove_extensions, c);
        proof {
            assert(addsv[i as int] == c@);
            lemma_adds_valid_step(addsv, removesv, extsv, i as int);
        }
        adds_ok = adds_ok && ok;
        i += 1;
    }
    let mut removes_ok = true;
    let mut i: usize = 0;
    while i < changes.remove_extensions.len()
        invariant
            i <= changes.remove_extensions@.len(),
            addsv == cviews(changes.add_extensions@),
            removesv == cviews(changes.remove_extensions@),
            extsv == cviews(rust_target_package.extensions@),
            cfgv == config_view(config),
            removes_ok == removes_valid(removesv.subrange(0, i as int), extsv, cfgv),
        decreases changes.remove_extensions@.len() - i,
    {
        proof {
            broadcast use lemma_comps_contain_cviews;
        }
        let c = &changes.remove_extensions[i];
        let in_exts = contains_component(&rust_target_package.extensions, c);
        let installed_ok = match config {
            Some(cfg) => contains_component(&cfg.components, c),
            None => false,
        };
        proof {
            assert(removesv[i as int] == c@);
            lemma_removes_valid_step(removesv, extsv, cfgv, i as int);
            if let Some(cfg) = config {
                assert(installed_of(cfgv) == cviews(cfg.components@));
            }
        }
        removes_ok = removes_ok && in_exts && installed_ok;
        i += 1;
    }
    proof {
        assert(addsv.subrange(0, addsv.len() as int) =~= addsv);
        assert(removesv.subrange(0, removesv.len() as int) =~= removesv);
    }
    adds_ok && removes_ok
}

/// A deep copy of a component list, image for image.
pub fn duplicate_components(v: &Vec<Component>) -> (r: Vec<Component>)
    ensures
        cviews(r@) == cviews(v@),
{
    let mut r: Vec<Component> = Vec::new();
    let mut i: usize = 0;
    while i < v.len()
        invariant
            i <= v@.len(),
            r@.len() == i,
            forall|j: int| 0 <= j < i ==> r@[j]@ == v@[j]@,
        decreases v@.len() - i,
    {
        r.push(v[i].duplicate());
        i += 1;
    }
    proof {
        assert forall|j: int| 0 <= j < v@.len()
            implies cviews(r@)[j] == cviews(v@)[j] by {
            assert(cviews(r@)[j] == r@[j]@);
            assert(cviews(v@)[j] == v@[j]@);
        }
        assert(cviews(r@) =~= cviews(v@));
    }
    r
}

/// Extending a filtered prefix by one element.
proof fn lemma_filter_prefix_step(s: Seq<ComponentV>, pred: spec_fn(ComponentV) -> bool, i: int)
    requires
        0 <= i < s.len(),
    ensures
        s.subrange(0, i + 1).filter(pred) == if pred(s[i]) {
            s.subrange(0, i).filter(pred).push(s[i])
        } else {
            s.subrange(0, i).filter(pred)
        },
{
    reveal(Seq::filter);
    let pre = s.subrange(0, i + 1);
    assert(pre.drop_last() =~= s.subrange(0, i));
    assert(pre.last() == s[i]);
    assert(pre.len() > 0);
    assert(pre.filter(pred) == if pred(pre.last()) {
        pre.drop_last().filter(pred).push(pre.last())
    } else {
        pre.drop_last().filter(pred)
    });
}

/// Returns the components to uninstall, the components to install, and
/// the list of components that will be installed when the update is
/// done.
///
/// When the new manifest is structurally identical to the prior one the
/// update is a modification of the same release: only the differences
/// are uninstalled and installed, and an addition that is already
/// installed is reported instead of reinstalled.  A different manifest
/// is a real upgrade: everything installed is uninstalled and the whole
/// final list installed, since components of different releases are
/// never assumed compatible.
pub fn build_update_component_lists(
    new_manifest: &Manifest,
    old_manifest: &Option<Manifest>,
    config: &Option<Config>,
    changes: &Changes,
    rust_target_package: &TargetedPackage,
    notifications: &mut Vec<Notification>,
) -> (r: (Vec<Component>, Vec<Component>, Vec<Component>))
    requires
        changes_valid(
            cviews(changes.add_extensions@),
            cviews(changes.remove_extensions@),
            cviews(rust_target_package.extensions@),
            config_view(config),
        ),
    ensures
        ({
            let adds = cviews(changes.add_extensions@);
            let removes = cviews(changes.remove_extensions@);
            let installed = installed_of(config_view(config));
            let fin = final_list_spec(
                rust_target_package@,
                installed,
                adds,
                removes,
                new_manifest@.renames,
            );
            let modification = match old_manifest {
                Some(om) => om@ == new_manifest@,
                None => false,
            };
            let notes = already_installed_notes(fin, installed, adds);
            &&& cviews(r.2@) == fin
            &&& if modification {
                cviews(r.0@) == cv_diff(installed, fin) && cviews(r.1@) == cv_diff(fin, installed)
            } else {
                cviews(r.0@) == installed && cviews(r.1@) == fin
            }
            &&& final(notifications)@.len() == old(notifications)@.len()
                + if modification { notes.len() } else { 0 }
            &&& forall|k: int| 0 <= k < old(notifications)@.len()
                ==> final(notifications)@[k] == old(notifications)@[k]
            &&& modification ==> forall|k: int| 0 <= k < notes.len()
                ==> match #[trigger] final(notifications)@[old(notifications)@.len() + k] {
                    Notification::ComponentAlreadyInstalled(c) => c@ == notes[k],
                    _ => false,
                }
        }),
{
    proof {
        broadcast use lemma_comps_contain_cviews;
    }
    let ghost addsv = cviews(changes.add_extensions@);
    let ghost removesv = cviews(changes.remove_extensions@);
    let ghost extsv = cviews(rust_target_package.extensions@);
    let ghost renamesv = new_manifest@.renames;

    // The list of components already installed; empty on a fresh install.
    let starting_list: Vec<Component> = match config {
        Some(cfg) => duplicate_components(&cfg.components),
        None => Vec::new(),
    };
    let ghost installedv = installed_of(config_view(config));
    proof {
        assert(cviews(starting_list@) =~= installedv);
    }

    // The final list opens with the required components and the
    // requested additions.
    let mut final_component_list = duplicate_components(&rust_target_package.components);
    let added = duplicate_components(&changes.add_extensions);
    let mut ai: usize = 0;
    while ai < added.len()
        invariant
            ai <= added@.len(),
            cviews(added@) == addsv,
            cviews(final_component_list@) == cviews(rust_target_package.components@)
                + addsv.subrange(0, ai as int),
        decreases added@.len() - ai,
    {
        let ghost before = final_component_list@;
        let dup = added[ai].duplicate();
        proof {
            assert(addsv[ai as int] == added@[ai as int]@);
        }
        final_component_list.push(dup);
        proof {
            crate::manifest::lemma_cviews_push(before, dup);
            assert(cviews(before).push(dup@)
                =~= cviews(rust_target_package.components@) + addsv.subrange(0, ai + 1));
        }
        ai += 1;
    }
    let ghost base0 = rust_target_package@.components + addsv;
    let ghost target_list = carry_from(base0, installedv, 0, extsv, removesv, renamesv);
    proof {
        assert(addsv.subrange(0, addsv.len() as int) =~= addsv);
        assert(cviews(rust_target_package.components@) == rust_target_package@.components);
        assert(cviews(final_component_list@) == base0);
    }

    // Carry over installed extensions that are not being removed, under
    // their renamed identity when the new manifest renames them.
    let mut i: usize = 0;
    while i < starting_list.len()
        invariant
            i <= starting_list@.len(),
            cviews(starting_list@) == installedv,
            addsv == cviews(changes.add_extensions@),
            removesv == cviews(changes.remove_extensions@),
            extsv == cviews(rust_target_package.extensions@),
            renamesv == new_manifest@.renames,
            target_list == carry_from(base0, installedv, 0, extsv, removesv, renamesv),
            carry_from(
                cviews(final_component_list@), installedv, i as int, extsv, removesv, renamesv,
            ) == target_list,
        decreases starting_list@.len() - i,
    {
        proof {
            broadcast use lemma_comps_contain_cviews;
        }
        let existing_component = &starting_list[i];
        let ghost cv = existing_component@;
        let ghost cur = cviews(final_component_list@);
        let is_extension = contains_component(&rust_target_package.extensions, existing_component);
        let is_removed = contains_component(&changes.remove_extensions, existing_component);
        if is_extension && !is_removed {
            match new_manifest.rename_of(&existing_component.pkg) {
                Some(to) => {
                    let renamed_component = existing_component.renamed(to);
                    if !contains_component(&final_component_list, &renamed_component) {
                        let ghost before = final_component_list@;
                        let ghost rcv = renamed_component@;
                        final_component_list.push(renamed_component);
                        proof {
                            lemma_cviews_push(before, final_component_list@[before.len() as int]);
                            assert(rcv == (ComponentV { pkg: rename_lookup(renamesv, cv.pkg)->0, target: cv.target }));
                            assert(cviews(final_component_list@) == cur.push(rcv));
                        }
                    }
                },
                None => {
                    if !contains_component(&final_component_list, existing_component) {
                        let ghost before = final_component_list@;
                        let dup = existing_component.duplicate();
                        final_component_list.push(dup);
                        proof {
                            lemma_cviews_push(before, dup);
                            assert(cviews(final_component_list@) == cur.push(cv));
                        }
                    }
                },
            }
        }
        proof {
            assert(installedv[i as int] == cv);
            assert(cviews(final_component_list@) == carry_step(cur, cv, extsv, removesv, renamesv));
            assert(carry_from(cur, installedv, i as int, extsv, removesv, renamesv)
                == carry_from(
                    carry_step(cur, cv, extsv, removesv, renamesv),
                    installedv,
                    i + 1,
                    extsv,
                    removesv,
                    renamesv,
                ));
        }
        i += 1;
    }
    let ghost finv = final_list_spec(rust_target_package@, installedv, addsv, removesv, renamesv);
    proof {
        assert(carry_from(
            cviews(final_component_list@), installedv, installedv.len() as int,
            extsv, removesv, renamesv,
        ) == cviews(final_component_list@));
        assert(cviews(final_component_list@) == finv);
    }

    // A structurally identical manifest makes this a modification of the
    // same release; anything else is a full reinstall.
    let just_modifying = match old_manifest {
        Some(om) => crate::manifest::manifest_eq(om, new_manifest),
        None => false,
    };

    if !just_modifying {
        let components_to_uninstall = starting_list;
        let components_to_install = duplicate_components(&final_component_list);
        proof {
            assert(cviews(components_to_install@) == finv);
        }
        (components_to_uninstall, components_to_install, final_component_list)
    } else {
        let mut components_to_uninstall: Vec<Component> = Vec::new();
        let mut i: usize = 0;
        while i < starting_list.len()
            invariant
                i <= starting_list@.len(),
                cviews(starting_list@) == installedv,
                finv == final_list_spec(rust_target_package@, installedv, addsv, removesv, renamesv),
                cviews(final_component_list@) == finv,
                cviews(components_to_uninstall@) == installedv.subrange(0, i as int)
                    .filter(|c: ComponentV| !cv_in(finv, c)),
            decreases starting_list@.len() - i,
        {
            proof {
                broadcast use lemma_comps_contain_cviews;
            }
            let c = &starting_list[i];
            let ghost cur = cviews(components_to_uninstall@);
            let present = contains_component(&final_component_list, c);
            proof {
                assert(installedv[i as int] == c@);
                lemma_filter_prefix_step(installedv, |x: ComponentV| !cv_in(finv, x), i as int);
            }
            if !present {
                let ghost before = components_to_uninstall@;
                let dup = c.duplicate();
                components_to_uninstall.push(dup);
                proof {
                    lemma_cviews_push(before, dup);
                    assert(cviews(components_to_uninstall@) == cur.push(c@));
                }
            }
            i += 1;
        }
        proof {
            assert(installedv.subrange(0, installedv.len() as int) =~= installedv);
            assert(cviews(components_to_uninstall@) == cv_diff(installedv, finv));
        }

        let ghost notes = already_installed_notes(finv, installedv, addsv);
        let ghost base_len = notifications@.len();
        let mut components_to_install: Vec<Component> = Vec::new();
        let mut i: usize = 0;
        while i < final_component_list.len()
            invariant
                i <= final_component_list@.len(),
                cviews(starting_list@) == installedv,
                addsv == cviews(changes.add_extensions@),
                cviews(final_component_list@) == finv,
                notes == already_installed_notes(finv, installedv, addsv),
                base_len == old(notifications)@.len(),
                cviews(components_to_install@) == finv.subrange(0, i as int)
                    .filter(|c: ComponentV| !cv_in(installedv, c)),
                notifications@.len() == base_len + finv.subrange(0, i as int)
                    .filter(|c: ComponentV| cv_in(installedv, c) && cv_in(addsv, c)).len(),
                forall|k: int| 0 <= k < base_len
                    ==> notifications@[k] == old(notifications)@[k],
                forall|k: int| 0 <= k < finv.subrange(0, i as int)
                    .filter(|c: ComponentV| cv_in(installedv, c) && cv_in(addsv, c)).len()
                    ==> match #[trigger] notifications@[base_len + k] {
                        Notification::ComponentAlreadyInstalled(c) => c@ == finv.subrange(0, i as int)
                            .filter(|x: ComponentV| cv_in(installedv, x) && cv_in(addsv, x))[k],
                        _ => false,
                    },
            decreases final_component_list@.len() - i,
        {
            proof {
                broadcast use lemma_comps_contain_cviews;
            }
            let component = &final_component_list[i];
            proof {
                assert(finv[i as int] == component@);
                lemma_filter_prefix_step(finv, |c: ComponentV| !cv_in(installedv, c), i as int);
                lemma_filter_prefix_step(
                    finv,
                    |c: ComponentV| cv_in(installedv, c) && cv_in(addsv, c),
                    i as int,
                );
            }
            let ghost cur = cviews(components_to_install@);
            if !contains_component(&starting_list, component) {
                let ghost before = components_to_install@;
                let dup = component.duplicate();
                components_to_install.push(dup);
                proof {
                    lemma_cviews_push(before, dup);
                    assert(cviews(components_to_install@) == cur.push(component@));
                }
            } else {
                if contains_component(&changes.add_extensions, component) {
                    notifications.push(Notification::ComponentAlreadyInstalled(
                        component.duplicate(),
                    ));
                }
            }
            i += 1;
        }
        proof {
            assert(finv.subrange(0, finv.len() as int) =~= finv);
            assert(cviews(components_to_install@) == cv_diff(finv, installedv));
        }
        (components_to_uninstall, components_to_install, final_component_list)
    }
}

/// The components of the install list whose manifest entry reports them
/// unavailable for their target, in order: the whole batch is reported
/// at once, since applying part of an update would leave an installation
/// inconsistent.
pub open spec fn unavailable_spec(
    install: Seq<ComponentV>,
    m: crate::manifest::ManifestV,
) -> Seq<ComponentV> {
    install.filter(|c: ComponentV| !component_available(m, c))
}

/// Whether the manifest offers `c`, available, for its target.
pub open spec fn component_available(m: crate::manifest::ManifestV, c: ComponentV) -> bool {
    match crate::manifest::package_lookup(m.packages, c.pkg) {
        Some(p) => {
            let wild = crate::manifest::target_lookup(p.targets, "*"@);
            match wild {
                Some(tp) => tp.available,
                None => match c.target {
                    Some(t) => match crate::manifest::target_lookup(p.targets, t) {
                        Some(tp) => tp.available,
                        None => false,
                    },
                    None => false,
                },
            }
        },
        None => false,
    }
}

/// Collects the components of the install list that the manifest
/// reports unavailable for their target.
pub fn find_unavailable_components(
    install: &Vec<Component>,
    new_manifest: &Manifest,
) -> (r: Vec<Component>)
    ensures
        cviews(r@) == unavailable_spec(cviews(install@), new_manifest@),
{
    let ghost installv = cviews(install@);
    let mut r: Vec<Component> = Vec::new();
    let mut i: usize = 0;
    while i < install.len()
        invariant
            i <= install@.len(),
            installv == cviews(install@),
            cviews(r@) == installv.subrange(0, i as int)
                .filter(|c: ComponentV| !component_available(new_manifest@, c)),
        decreases install@.len() - i,
    {
        let c = &install[i];
        let ghost cur = cviews(r@);
        proof {
            assert(installv[i as int] == c@);
            lemma_filter_prefix_step(
                installv,
                |x: ComponentV| !component_available(new_manifest@, x),
                i as int,
            );
        }
        let avail = match new_manifest.get_package(c.pkg.as_str()) {
            Ok(pkg) => match pkg.get_target(c.target.as_ref()) {
                Ok(tp) => tp.available(),
                Err(_) => false,
            },
            Err(_) => false,
        };
        proof {
            assert(avail == component_available(new_manifest@, c@));
        }
        if !avail {
            let ghost before = r@;
            let dup = c.duplicate();
            r.push(dup);
            proof {
                lemma_cviews_push(before, dup);
                assert(cviews(r@) == cur.push(c@));
            }
        }
        i += 1;
    }
    proof {
        assert(installv.subrange(0, installv.len() as int) =~= installv);
    }
    r
}

} // verus!
