//! The crate-level laws of the change-set resolver, proved once and for
//! all over its model: installed extensions survive an upgrade, renamed
//! packages continue under their new name and never stay under the old
//! one, and re-resolving a reached state changes nothing.

use vstd::prelude::*;
use crate::changeset::{carry_from, carry_step, cv_diff, final_list_spec};
use crate::manifest::{ComponentV, TargetedPackageV, cv_in, rename_lookup};

verus! {

/// Membership in the list being built never goes away as further
/// installed components are carried over.
pub proof fn lemma_carry_membership_monotone(
    base: Seq<ComponentV>,
    installed: Seq<ComponentV>,
    i: int,
    exts: Seq<ComponentV>,
    removes: Seq<ComponentV>,
    renames: Seq<(Seq<char>, Seq<char>)>,
    c: ComponentV,
)
    requires
        cv_in(base, c),
    ensures
        cv_in(carry_from(base, installed, i, exts, removes, renames), c),
    decreases installed.len() - i,
{
    if i < 0 || i >= installed.len() {
    } else {
        let next = carry_step(base, installed[i], exts, removes, renames);
        assert(cv_in(next, c)) by {
            let w = choose|w: int| 0 <= w < base.len() && base[w] == c;
            if next.len() > base.len() {
                assert(next[w] == c);
            }
        }
        lemma_carry_membership_monotone(next, installed, i + 1, exts, removes, renames, c);
    }
}

/// An installed extension that the new manifest still offers, that is
/// not being removed and that the manifest does not rename, is in the
/// final list without being asked for again.
pub proof fn lemma_extension_preserved(
    tp: TargetedPackageV,
    installed: Seq<ComponentV>,
    adds: Seq<ComponentV>,
    removes: Seq<ComponentV>,
    renames: Seq<(Seq<char>, Seq<char>)>,
    e: ComponentV,
)
    requires
        cv_in(installed, e),
        cv_in(tp.extensions, e),
        !cv_in(removes, e),
        rename_lookup(renames, e.pkg) is None,
    ensures
        cv_in(final_list_spec(tp, installed, adds, removes, renames), e),
{
    let j = choose|j: int| 0 <= j < installed.len() && installed[j] == e;
    lemma_carry_reaches(tp.components + adds, installed, 0, tp.extensions, removes, renames, j);
}

/// Carrying reaches index `j`: once the element there is an unremoved,
/// unrenamed extension, it is in the result.
proof fn lemma_carry_reaches(
    base: Seq<ComponentV>,
    installed: Seq<ComponentV>,
    i: int,
    exts: Seq<ComponentV>,
    removes: Seq<ComponentV>,
    renames: Seq<(Seq<char>, Seq<char>)>,
    j: int,
)
    requires
        0 <= i <= j < installed.len(),
        cv_in(exts, installed[j]),
        !cv_in(removes, installed[j]),
        rename_lookup(renames, installed[j].pkg) is None,
    ensures
        cv_in(carry_from(base, installed, i, exts, removes, renames), installed[j]),
    decreases j - i,
{
    let c = installed[i];
    let next = carry_step(base, c, exts, removes, renames);
    if i == j {
        assert(cv_in(next, c)) by {
            if cv_in(base, c) {
                let w = choose|w: int| 0 <= w < base.len() && base[w] == c;
                if next.len() > base.len() {
                    assert(next[w] == c);
                }
            } else {
                assert(next == base.push(c));
                assert(next[base.len() as int] == c);
            }
        }
        lemma_carry_membership_monotone(next, installed, i + 1, exts, removes, renames, c);
    } else {
        lemma_carry_reaches(next, installed, i + 1, exts, removes, renames, j);
    }
}

/// When the new manifest renames an installed extension's package, the
/// final list holds the renamed identity and never the old one: the old
/// name is uninstalled, the new name installed, and the two are never
/// recorded as installed together.
pub proof fn lemma_rename_continuity(
    tp: TargetedPackageV,
    installed: Seq<ComponentV>,
    adds: Seq<ComponentV>,
    removes: Seq<ComponentV>,
    renames: Seq<(Seq<char>, Seq<char>)>,
    e: ComponentV,
    to: Seq<char>,
)
    requires
        cv_in(installed, e),
        cv_in(tp.extensions, e),
        !cv_in(removes, e),
        rename_lookup(renames, e.pkg) == Some(to),
        // The old name is not still offered under the base lists, and no
        // rename produces it again.
        !cv_in(tp.components + adds, e),
        forall|k: int| 0 <= k < renames.len() ==> #[trigger] renames[k].1 != e.pkg,
    ensures
        cv_in(
            final_list_spec(tp, installed, adds, removes, renames),
            ComponentV { pkg: to, target: e.target },
        ),
        !cv_in(final_list_spec(tp, installed, adds, removes, renames), e),
{
    let j = choose|j: int| 0 <= j < installed.len() && installed[j] == e;
    lemma_carry_reaches_renamed(
        tp.components + adds, installed, 0, tp.extensions, removes, renames, j, to,
    );
    lemma_rename_lookup_in_table(renames, e.pkg, to);
    lemma_carry_never_adds_old(
        tp.components + adds, installed, 0, tp.extensions, removes, renames, e,
    );
}

/// A successful rename lookup names an entry of the table.
proof fn lemma_rename_lookup_in_table(
    renames: Seq<(Seq<char>, Seq<char>)>,
    from: Seq<char>,
    to: Seq<char>,
)
    requires
        rename_lookup(renames, from) == Some(to),
    ensures
        exists|k: int| 0 <= k < renames.len() && renames[k] == (from, to),
    decreases renames.len(),
{
    if renames.len() > 0 {
        if renames[0].0 == from {
            assert(renames[0] == (from, to));
        } else {
            let tail = renames.subrange(1, renames.len() as int);
            lemma_rename_lookup_in_table(tail, from, to);
            let k = choose|k: int| 0 <= k < tail.len() && tail[k] == (from, to);
            assert(renames[k + 1] == (from, to));
        }
    }
}

proof fn lemma_carry_reaches_renamed(
    base: Seq<ComponentV>,
    installed: Seq<ComponentV>,
    i: int,
    exts: Seq<ComponentV>,
    removes: Seq<ComponentV>,
    renames: Seq<(Seq<char>, Seq<char>)>,
    j: int,
    to: Seq<char>,
)
    requires
        0 <= i <= j < installed.len(),
        cv_in(exts, installed[j]),
        !cv_in(removes, installed[j]),
        rename_lookup(renames, installed[j].pkg) == Some(to),
    ensures
        cv_in(
            carry_from(base, installed, i, exts, removes, renames),
            ComponentV { pkg: to, target: installed[j].target },
        ),
    decreases j - i,
{
    let c = installed[i];
    let next = carry_step(base, c, exts, removes, renames);
    if i == j {
        let rc = ComponentV { pkg: to, target: c.target };
        assert(cv_in(next, rc)) by {
            if cv_in(base, rc) {
                let w = choose|w: int| 0 <= w < base.len() && base[w] == rc;
                if next.len() > base.len() {
                    assert(next[w] == rc);
                }
            } else {
                assert(next == base.push(rc));
                assert(next[base.len() as int] == rc);
            }
        }
        lemma_carry_membership_monotone(next, installed, i + 1, exts, removes, renames, rc);
    } else {
        lemma_carry_reaches_renamed(next, installed, i + 1, exts, removes, renames, j, to);
    }
}

/// Carrying never introduces a component whose package the manifest
/// renames, when no rename produces that package either.
proof fn lemma_carry_never_adds_old(
    base: Seq<ComponentV>,
    installed: Seq<ComponentV>,
    i: int,
    exts: Seq<ComponentV>,
    removes: Seq<ComponentV>,
    renames: Seq<(Seq<char>, Seq<char>)>,
    e: ComponentV,
)
    requires
        !cv_in(base, e),
        rename_lookup(renames, e.pkg) is Some,
        forall|k: int| 0 <= k < renames.len() ==> #[trigger] renames[k].1 != e.pkg,
    ensures
        !cv_in(carry_from(base, installed, i, exts, removes, renames), e),
    decreases installed.len() - i,
{
    if i < 0 || i >= installed.len() {
    } else {
        let c = installed[i];
        let next = carry_step(base, c, exts, removes, renames);
        assert(!cv_in(next, e)) by {
            if next.len() == base.len() {
                assert(next == base);
            } else {
                let pushed = next.last();
                assert(next == base.push(pushed));
                match rename_lookup(renames, c.pkg) {
                    Some(to2) => {
                        lemma_rename_lookup_in_table(renames, c.pkg, to2);
                        let kk = choose|k: int| 0 <= k < renames.len()
                            && renames[k] == (c.pkg, to2);
                        assert(renames[kk].1 != e.pkg);
                        assert(pushed == (ComponentV { pkg: to2, target: c.target }));
                        assert(pushed.pkg != e.pkg);
                    },
                    None => {
                        assert(pushed == c);
                        assert(pushed != e);
                    },
                }
                if cv_in(next, e) {
                    let w = choose|w: int| 0 <= w < next.len() && next[w] == e;
                    if w < base.len() {
                        assert(base[w] == e);
                    } else {
                        assert(next[w] == pushed);
                    }
                }
            }
        }
        lemma_carry_never_adds_old(next, installed, i + 1, exts, removes, renames, e);
    }
}

/// Nothing differs from itself.
pub proof fn lemma_cv_diff_self(s: Seq<ComponentV>)
    ensures
        cv_diff(s, s).len() == 0,
    decreases s.len(),
{
    reveal(Seq::filter);
    if s.len() > 0 {
        let pred = |c: ComponentV| !cv_in(s, c);
        assert(cv_in(s, s.last())) by {
            assert(s[s.len() - 1] == s.last());
        }
        lemma_cv_diff_prefix_empty(s, s.len() - 1);
        assert(s.filter(pred) == if pred(s.last()) {
            s.drop_last().filter(pred).push(s.last())
        } else {
            s.drop_last().filter(pred)
        });
    }
}

/// No prefix of a list holds an element the whole list does not.
proof fn lemma_cv_diff_prefix_empty(s: Seq<ComponentV>, n: int)
    requires
        0 <= n <= s.len(),
    ensures
        s.subrange(0, n).filter(|c: ComponentV| !cv_in(s, c)).len() == 0,
    decreases n,
{
    reveal(Seq::filter);
    let pred = |c: ComponentV| !cv_in(s, c);
    let pre = s.subrange(0, n);
    if n > 0 {
        assert(pre.drop_last() =~= s.subrange(0, n - 1));
        assert(pre.last() == s[n - 1]);
        assert(cv_in(s, s[n - 1]));
        lemma_cv_diff_prefix_empty(s, n - 1);
    } else {
        assert(pre.len() == 0);
    }
}

/// The list the resolver builds opens with its base, and everything it
/// appends afterwards is new: not yet in the list at the point it is
/// appended.
proof fn lemma_carry_shape(
    base: Seq<ComponentV>,
    installed: Seq<ComponentV>,
    i: int,
    exts: Seq<ComponentV>,
    removes: Seq<ComponentV>,
    renames: Seq<(Seq<char>, Seq<char>)>,
)
    ensures
        ({
            let r = carry_from(base, installed, i, exts, removes, renames);
            &&& r.len() >= base.len()
            &&& r.subrange(0, base.len() as int) == base
            &&& forall|k: int| base.len() <= k < r.len()
                ==> !cv_in(r.subrange(0, k), #[trigger] r[k])
        }),
    decreases installed.len() - i,
{
    let r = carry_from(base, installed, i, exts, removes, renames);
    if i < 0 || i >= installed.len() {
        assert(r.subrange(0, base.len() as int) =~= base);
        assert(r.len() == base.len());
    } else {
        let next = carry_step(base, installed[i], exts, removes, renames);
        lemma_carry_shape(next, installed, i + 1, exts, removes, renames);
        if next.len() == base.len() {
            assert(next == base);
        } else {
            let pushed = next.last();
            assert(next == base.push(pushed));
            assert(!cv_in(base, pushed));
            assert(next.subrange(0, base.len() as int) =~= base);
            assert(r.subrange(0, next.len() as int).subrange(0, base.len() as int)
                =~= r.subrange(0, base.len() as int));
            assert(forall|k: int| next.len() <= k < r.len()
                ==> !cv_in(r.subrange(0, k), #[trigger] r[k]));
            assert(r.subrange(0, next.len() as int) == next);
            assert(!cv_in(r.subrange(0, base.len() as int), r[base.len() as int])) by {
                assert(r[base.len() as int] == next[base.len() as int]);
                assert(r.subrange(0, base.len() as int) =~= base);
            }
        }
    }
}

/// Re-resolving a state the resolver itself produced changes nothing:
/// with the same manifest data and the same additions and removals, the
/// final list is the list already installed, so there is nothing to
/// uninstall and nothing to install.
///
/// The statement leaves out inputs on which a second resolution is a
/// different request: components of the reached list must still be
/// extensions where they were carried (the manifest still offers them),
/// must not be freshly renamed, and the removals must still satisfy the
/// resolver's preconditions.
pub proof fn lemma_reupdate_unchanged(
    tp: TargetedPackageV,
    installed: Seq<ComponentV>,
    adds: Seq<ComponentV>,
    removes: Seq<ComponentV>,
    renames: Seq<(Seq<char>, Seq<char>)>,
)
    requires
        ({
            let fin0 = final_list_spec(tp, installed, adds, removes, renames);
            let base0 = tp.components + adds;
            &&& forall|j: int| 0 <= j < fin0.len()
                ==> rename_lookup(renames, (#[trigger] fin0[j]).pkg) is None
            &&& forall|j: int| base0.len() <= j < fin0.len()
                ==> cv_in(tp.extensions, #[trigger] fin0[j]) && !cv_in(removes, fin0[j])
        }),
    ensures
        ({
            let fin0 = final_list_spec(tp, installed, adds, removes, renames);
            &&& final_list_spec(tp, fin0, adds, removes, renames) == fin0
            &&& cv_diff(fin0, fin0).len() == 0
        }),
{
    let fin0 = final_list_spec(tp, installed, adds, removes, renames);
    let base0 = tp.components + adds;
    lemma_carry_shape(base0, installed, 0, tp.extensions, removes, renames);
    assert(fin0.subrange(0, base0.len() as int) == base0);
    lemma_carry_stable(fin0, 0, base0.len() as int, tp.extensions, removes, renames);
    assert(fin0.subrange(0, base0.len() as int) == base0);
    assert(final_list_spec(tp, fin0, adds, removes, renames)
        == carry_from(base0, fin0, 0, tp.extensions, removes, renames));
    lemma_cv_diff_self(fin0);
}

/// Core of the stability argument: carrying the reached list over
/// itself, with the already-built prefix `take(m)` in hand at position
/// `i <= m`, rebuilds exactly the same list.
proof fn lemma_carry_stable(
    fin0: Seq<ComponentV>,
    i: int,
    m: int,
    exts: Seq<ComponentV>,
    removes: Seq<ComponentV>,
    renames: Seq<(Seq<char>, Seq<char>)>,
)
    requires
        0 <= i <= m <= fin0.len(),
        forall|j: int| 0 <= j < fin0.len()
            ==> rename_lookup(renames, (#[trigger] fin0[j]).pkg) is None,
        forall|j: int| m <= j < fin0.len()
            ==> cv_in(exts, #[trigger] fin0[j]) && !cv_in(removes, fin0[j])
                && !cv_in(fin0.subrange(0, j), fin0[j]),
    ensures
        carry_from(fin0.subrange(0, m), fin0, i, exts, removes, renames) == fin0,
    decreases fin0.len() - i,
{
    let cur = fin0.subrange(0, m);
    if i >= fin0.len() {
        assert(m == fin0.len());
        assert(cur =~= fin0);
    } else {
        let c = fin0[i];
        let next = carry_step(cur, c, exts, removes, renames);
        if i < m {
            assert(cv_in(cur, c)) by {
                assert(cur[i] == c);
            }
            assert(next == cur);
            lemma_carry_stable(fin0, i + 1, m, exts, removes, renames);
        } else {
            // i == m: the element is appended, exactly as it was.
            assert(cv_in(exts, c) && !cv_in(removes, c));
            assert(!cv_in(cur, c));
            assert(next == cur.push(c));
            assert(next =~= fin0.subrange(0, m + 1));
            lemma_carry_stable(fin0, i + 1, m + 1, exts, removes, renames);
        }
    }
}

} // verus!
