//! The model of a release manifest: packages, per-target package
//! descriptors, components and extensions, and the rename table carried
//! across manifest generations.

use vstd::prelude::*;
use crate::dist::TargetTriple;
use crate::errors::ErrorKind;
use crate::strutil::string_eq_str;

verus! {

/// The ghost image of a component: a package name with an optional target.
#[verifier::ext_equal]
pub ghost struct ComponentV {
    pub pkg: Seq<char>,
    pub target: Option<Seq<char>>,
}

/// An installable unit, identified by its package name together with its
/// optional target triple.
#[derive(Debug, Clone)]
pub struct Component {
    pub pkg: String,
    pub target: Option<TargetTriple>,
}

impl View for Component {
    type V = ComponentV;

    open spec fn view(&self) -> ComponentV {
        ComponentV {
            pkg: self.pkg@,
            target: match self.target {
                Some(t) => Some(t@),
                None => None,
            },
        }
    }
}

impl PartialEq for Component {
    fn eq(&self, other: &Component) -> (r: bool)
        ensures
            r == (self@ == other@),
    {
        let pkg_eq = self.pkg == other.pkg;
        let target_eq = match (&self.target, &other.target) {
            (Some(a), Some(b)) => a.0 == b.0,
            (None, None) => true,
            _ => false,
        };
        proof {
            if pkg_eq && target_eq {
                assert(self@ =~= other@);
            }
        }
        pkg_eq && target_eq
    }
}

impl vstd::std_specs::cmp::PartialEqSpecImpl for Component {
    open spec fn obeys_eq_spec() -> bool {
        true
    }

    open spec fn eq_spec(&self, other: &Component) -> bool {
        self@ == other@
    }
}

/// The installer-level name of a component: the package name, with the
/// target appended after a dash when one is present.
pub open spec fn component_name_spec(c: ComponentV) -> Seq<char> {
    match c.target {
        Some(t) => c.pkg + seq!['-'] + t,
        None => c.pkg,
    }
}

impl Component {
    pub fn new(pkg: String, target: Option<TargetTriple>) -> (r: Component)
        ensures
            r.pkg@ == pkg@,
            r@.pkg == pkg@,
    {
        Component { pkg, target }
    }

    /// The name under which the installer records this component.
    pub fn name(&self) -> (r: String)
        ensures
            r@ == component_name_spec(self@),
    {
        match &self.target {
            Some(t) => {
                let mut s = self.pkg.clone();
                s.append("-");
                s.append(t.0.as_str());
                proof {
                    reveal_strlit("-");
                    assert(s@ =~= component_name_spec(self@));
                }
                s
            },
            None => self.pkg.clone(),
        }
    }

    /// A deep copy whose view is the same.
    pub fn duplicate(&self) -> (r: Component)
        ensures
            r@ == self@,
    {
        let target = match &self.target {
            Some(t) => Some(TargetTriple(t.0.clone())),
            None => None,
        };
        let r = Component { pkg: self.pkg.clone(), target };
        proof {
            assert(r@ =~= self@);
        }
        r
    }

    /// A copy of this component under another package name.
    pub fn renamed(&self, pkg: &String) -> (r: Component)
        ensures
            r@.pkg == pkg@,
            r@.target == self@.target,
    {
        let target = match &self.target {
            Some(t) => Some(TargetTriple(t.0.clone())),
            None => None,
        };
        Component { pkg: pkg.clone(), target }
    }
}

/// Membership of a component image in a sequence of components.
pub open spec fn comps_contain(s: Seq<Component>, cv: ComponentV) -> bool {
    exists|i: int| 0 <= i < s.len() && s[i]@ == cv
}

/// The images of a sequence of components.
pub open spec fn cviews(s: Seq<Component>) -> Seq<ComponentV> {
    s.map_values(|c: Component| c@)
}

/// Membership among component images.
pub open spec fn cv_in(s: Seq<ComponentV>, cv: ComponentV) -> bool {
    exists|i: int| 0 <= i < s.len() && s[i] == cv
}

pub broadcast proof fn lemma_comps_contain_cviews(s: Seq<Component>, cv: ComponentV)
    ensures
        #[trigger] comps_contain(s, cv) == cv_in(cviews(s), cv),
{
    if comps_contain(s, cv) {
        let i = choose|i: int| 0 <= i < s.len() && s[i]@ == cv;
        assert(cviews(s)[i] == cv);
    }
    if cv_in(cviews(s), cv) {
        let i = choose|i: int| 0 <= i < cviews(s).len() && cviews(s)[i] == cv;
        assert(s[i]@ == cv);
    }
}

/// The image of a pushed list is the pushed image.
pub proof fn lemma_cviews_push(s: Seq<Component>, x: Component)
    ensures
        cviews(s.push(x)) == cviews(s).push(x@),
{
    assert forall|j: int| 0 <= j < s.len() + 1
        implies cviews(s.push(x))[j] == cviews(s).push(x@)[j] by {
        assert(cviews(s.push(x))[j] == s.push(x)[j]@);
        if j < s.len() {
            assert(s.push(x)[j] == s[j]);
            assert(cviews(s)[j] == s[j]@);
        }
    }
    assert(cviews(s.push(x)) =~= cviews(s).push(x@));
}

/// Whether `list` holds a component equal to `c`.
pub fn contains_component(list: &Vec<Component>, c: &Component) -> (r: bool)
    ensures
        r == comps_contain(list@, c@),
{
    let mut i: usize = 0;
    while i < list.len()
        invariant
            i <= list@.len(),
            forall|j: int| 0 <= j < i ==> list@[j]@ != c@,
        decreases list@.len() - i,
    {
        if &list[i] == c {
            return true;
        }
        i += 1;
    }
    false
}

/// The ghost image of a per-target package descriptor.
#[verifier::ext_equal]
pub ghost struct TargetedPackageV {
    pub available: bool,
    pub url: Seq<char>,
    pub hash: Seq<char>,
    pub xz_url: Option<Seq<char>>,
    pub xz_hash: Option<Seq<char>>,
    pub components: Seq<ComponentV>,
    pub extensions: Seq<ComponentV>,
}

/// What a manifest offers for one package on one target: availability,
/// where its archive lives and under which hash, and which components
/// are required for it or offered as extensions.
#[derive(Debug)]
pub struct TargetedPackage {
    pub available: bool,
    pub url: String,
    pub hash: String,
    pub xz_url: Option<String>,
    pub xz_hash: Option<String>,
    pub components: Vec<Component>,
    pub extensions: Vec<Component>,
}

impl View for TargetedPackage {
    type V = TargetedPackageV;

    open spec fn view(&self) -> TargetedPackageV {
        TargetedPackageV {
            available: self.available,
            url: self.url@,
            hash: self.hash@,
            xz_url: crate::strutil::opt_str_view(self.xz_url),
            xz_hash: crate::strutil::opt_str_view(self.xz_hash),
            components: cviews(self.components@),
            extensions: cviews(self.extensions@),
        }
    }
}

impl TargetedPackage {
    pub fn available(&self) -> (r: bool)
        ensures
            r == self@.available,
    {
        self.available
    }
}

#[verifier::ext_equal]
pub ghost struct PackageV {
    pub version: Seq<char>,
    pub targets: Seq<(Seq<char>, TargetedPackageV)>,
}

/// One package of a manifest: a version string and its per-target
/// descriptors.  The target `"*"` stands for every target.
#[derive(Debug)]
pub struct Package {
    pub version: String,
    pub targets: Vec<(String, TargetedPackage)>,
}

impl View for Package {
    type V = PackageV;

    open spec fn view(&self) -> PackageV {
        PackageV {
            version: self.version@,
            targets: self.targets@.map_values(|t: (String, TargetedPackage)| (t.0@, t.1@)),
        }
    }
}

/// The first per-target descriptor under a key.
pub open spec fn target_lookup(ts: Seq<(Seq<char>, TargetedPackageV)>, key: Seq<char>) -> Option<TargetedPackageV>
    decreases ts.len(),
{
    if ts.len() == 0 {
        None
    } else if ts[0].0 == key {
        Some(ts[0].1)
    } else {
        target_lookup(ts.subrange(1, ts.len() as int), key)
    }
}

impl Package {
    /// The package's descriptor for a target: a wildcard entry serves
    /// every target, else the entry under the target's own name.  Asking
    /// for no target at all only a wildcard entry can serve.
    pub fn get_target(&self, target: Option<&TargetTriple>) -> (r: Result<&TargetedPackage, ErrorKind>)
        ensures
            match r {
                Ok(tp) => {
                    ||| target_lookup(self@.targets, "*"@) == Some(tp@)
                    ||| (target_lookup(self@.targets, "*"@) is None && target is Some
                        && target_lookup(self@.targets, target->0@) == Some(tp@))
                },
                Err(_) => target_lookup(self@.targets, "*"@) is None
                    && (target is None || target_lookup(self@.targets, target->0@) is None),
            },
    {
        match self.find_target("*") {
            Some(i) => Ok(&self.targets[i].1),
            None => match target {
                Some(t) => match self.find_target(t.0.as_str()) {
                    Some(i) => Ok(&self.targets[i].1),
                    None => Err(ErrorKind::MissingPackageForComponent(self.version.clone())),
                },
                None => Err(ErrorKind::MissingPackageForComponent(self.version.clone())),
            },
        }
    }

    /// The index of the first per-target entry under `key`.
    fn find_target(&self, key: &str) -> (r: Option<usize>)
        ensures
            match r {
                Some(i) => 0 <= i < self.targets@.len() && self.targets@[i as int].0@ == key@
                    && target_lookup(self@.targets, key@) == Some(self.targets@[i as int].1@),
                None => target_lookup(self@.targets, key@) is None,
            },
    {
        let mut i: usize = 0;
        while i < self.targets.len()
            invariant
                i <= self.targets@.len(),
                forall|j: int| 0 <= j < i ==> self.targets@[j].0@ != key@,
                target_lookup(self@.targets.subrange(0, i as int), key@) is None,
            decreases self.targets@.len() - i,
        {
            if string_eq_str(&self.targets[i].0, key) {
                proof {
                    lemma_target_lookup_hit(self@.targets, key@, i as int);
                }
                return Some(i);
            }
            proof {
                lemma_target_lookup_extend(self@.targets, key@, i as int);
            }
            i += 1;
        }
        proof {
            assert(self@.targets.subrange(0, self@.targets.len() as int) =~= self@.targets);
        }
        None
    }
}

/// If no entry before `i` holds `key` and entry `i` does, the lookup
/// lands on entry `i`.
proof fn lemma_target_lookup_hit(ts: Seq<(Seq<char>, TargetedPackageV)>, key: Seq<char>, i: int)
    requires
        0 <= i < ts.len(),
        forall|j: int| 0 <= j < i ==> ts[j].0 != key,
        ts[i].0 == key,
    ensures
        target_lookup(ts, key) == Some(ts[i].1),
    decreases i,
{
    if i == 0 {
    } else {
        lemma_target_lookup_hit(ts.subrange(1, ts.len() as int), key, i - 1);
    }
}

/// A miss on the first `i + 1` entries extends a miss on the first `i`.
proof fn lemma_target_lookup_extend(ts: Seq<(Seq<char>, TargetedPackageV)>, key: Seq<char>, i: int)
    requires
        0 <= i < ts.len(),
        target_lookup(ts.subrange(0, i), key) is None,
        ts[i].0 != key,
    ensures
        target_lookup(ts.subrange(0, i + 1), key) is None,
    decreases i,
{
    if i == 0 {
        let s1 = ts.subrange(0, 1);
        assert(s1[0] == ts[0]);
        let s2 = s1.subrange(1, 1);
        assert(s2 =~= Seq::<(Seq<char>, TargetedPackageV)>::empty());
        assert(target_lookup(s2, key) is None);
        assert(target_lookup(s1, key) is None);
    } else {
        assert(ts.subrange(0, i)[0] == ts[0]);
        assert(ts.subrange(0, i + 1)[0] == ts[0]);
        assert(ts[0].0 != key);
        let tail = ts.subrange(1, ts.len() as int);
        assert(ts.subrange(0, i).subrange(1, i) =~= tail.subrange(0, i - 1));
        assert(ts.subrange(0, i + 1).subrange(1, i + 1) =~= tail.subrange(0, i));
        assert(tail[i - 1] == ts[i]);
        assert(target_lookup(tail.subrange(0, i - 1), key) is None);
        lemma_target_lookup_extend(tail, key, i - 1);
        assert(target_lookup(tail.subrange(0, i), key) is None);
    }
}

#[verifier::ext_equal]
pub ghost struct ManifestV {
    pub manifest_version: Seq<char>,
    pub date: Seq<char>,
    pub packages: Seq<(Seq<char>, PackageV)>,
    pub renames: Seq<(Seq<char>, Seq<char>)>,
}

/// A release manifest: its format version, its date, its packages, and
/// the rename table mapping package names of earlier generations to
/// their current names.
#[derive(Debug)]
pub struct Manifest {
    pub manifest_version: String,
    pub date: String,
    pub packages: Vec<(String, Package)>,
    pub renames: Vec<(String, String)>,
}

impl View for Manifest {
    type V = ManifestV;

    open spec fn view(&self) -> ManifestV {
        ManifestV {
            manifest_version: self.manifest_version@,
            date: self.date@,
            packages: self.packages@.map_values(|p: (String, Package)| (p.0@, p.1@)),
            renames: self.renames@.map_values(|p: (String, String)| (p.0@, p.1@)),
        }
    }
}

/// The first package under a name.
pub open spec fn package_lookup(ps: Seq<(Seq<char>, PackageV)>, name: Seq<char>) -> Option<PackageV>
    decreases ps.len(),
{
    if ps.len() == 0 {
        None
    } else if ps[0].0 == name {
        Some(ps[0].1)
    } else {
        package_lookup(ps.subrange(1, ps.len() as int), name)
    }
}

/// The new name an old package name is renamed to, if any.
pub open spec fn rename_lookup(rs: Seq<(Seq<char>, Seq<char>)>, from: Seq<char>) -> Option<Seq<char>>
    decreases rs.len(),
{
    if rs.len() == 0 {
        None
    } else if rs[0].0 == from {
        Some(rs[0].1)
    } else {
        rename_lookup(rs.subrange(1, rs.len() as int), from)
    }
}

proof fn lemma_package_lookup_hit(ps: Seq<(Seq<char>, PackageV)>, name: Seq<char>, i: int)
    requires
        0 <= i < ps.len(),
        forall|j: int| 0 <= j < i ==> ps[j].0 != name,
        ps[i].0 == name,
    ensures
        package_lookup(ps, name) == Some(ps[i].1),
    decreases i,
{
    if i == 0 {
    } else {
        lemma_package_lookup_hit(ps.subrange(1, ps.len() as int), name, i - 1);
    }
}

proof fn lemma_package_lookup_miss(ps: Seq<(Seq<char>, PackageV)>, name: Seq<char>)
    requires
        forall|j: int| 0 <= j < ps.len() ==> ps[j].0 != name,
    ensures
        package_lookup(ps, name) is None,
    decreases ps.len(),
{
    if ps.len() > 0 {
        lemma_package_lookup_miss(ps.subrange(1, ps.len() as int), name);
    }
}

proof fn lemma_rename_lookup_hit(rs: Seq<(Seq<char>, Seq<char>)>, from: Seq<char>, i: int)
    requires
        0 <= i < rs.len(),
        forall|j: int| 0 <= j < i ==> rs[j].0 != from,
        rs[i].0 == from,
    ensures
        rename_lookup(rs, from) == Some(rs[i].1),
    decreases i,
{
    if i == 0 {
    } else {
        lemma_rename_lookup_hit(rs.subrange(1, rs.len() as int), from, i - 1);
    }
}

proof fn lemma_rename_lookup_miss(rs: Seq<(Seq<char>, Seq<char>)>, from: Seq<char>)
    requires
        forall|j: int| 0 <= j < rs.len() ==> rs[j].0 != from,
    ensures
        rename_lookup(rs, from) is None,
    decreases rs.len(),
{
    if rs.len() > 0 {
        lemma_rename_lookup_miss(rs.subrange(1, rs.len() as int), from);
    }
}

impl Manifest {
    /// The first package under `name`.
    pub fn get_package(&self, name: &str) -> (r: Result<&Package, ErrorKind>)
        ensures
            match r {
                Ok(p) => package_lookup(self@.packages, name@) == Some(p@),
                Err(e) => package_lookup(self@.packages, name@) is None
                    && match e {
                        ErrorKind::MissingPackageForComponent(n) => n@ == name@,
                        _ => false,
                    },
            },
    {
        let mut i: usize = 0;
        while i < self.packages.len()
            invariant
                i <= self.packages@.len(),
                forall|j: int| 0 <= j < i ==> self.packages@[j].0@ != name@,
            decreases self.packages@.len() - i,
        {
            if string_eq_str(&self.packages[i].0, name) {
                proof {
                    assert(self@.packages[i as int].0 == name@);
                    assert forall|j: int| 0 <= j < i implies self@.packages[j].0 != name@ by {
                        assert(self@.packages[j].0 == self.packages@[j].0@);
                    }
                    lemma_package_lookup_hit(self@.packages, name@, i as int);
                }
                return Ok(&self.packages[i].1);
            }
            i += 1;
        }
        proof {
            assert forall|j: int| 0 <= j < self@.packages.len()
                implies self@.packages[j].0 != name@ by {
                assert(self@.packages[j].0 == self.packages@[j].0@);
            }
            lemma_package_lookup_miss(self@.packages, name@);
        }
        Err(ErrorKind::MissingPackageForComponent(name.to_owned()))
    }

    /// The new name of `pkg` under the rename table, if the table names it.
    pub fn rename_of(&self, pkg: &String) -> (r: Option<&String>)
        ensures
            match r {
                Some(to) => rename_lookup(self@.renames, pkg@) == Some(to@),
                None => rename_lookup(self@.renames, pkg@) is None,
            },
    {
        let mut i: usize = 0;
        while i < self.renames.len()
            invariant
                i <= self.renames@.len(),
                forall|j: int| 0 <= j < i ==> self.renames@[j].0@ != pkg@,
            decreases self.renames@.len() - i,
        {
            if self.renames[i].0 == *pkg {
                proof {
                    assert(self@.renames[i as int].0 == pkg@);
                    assert forall|j: int| 0 <= j < i implies self@.renames[j].0 != pkg@ by {
                        assert(self@.renames[j].0 == self.renames@[j].0@);
                    }
                    lemma_rename_lookup_hit(self@.renames, pkg@, i as int);
                }
                return Some(&self.renames[i].1);
            }
            i += 1;
        }
        proof {
            assert forall|j: int| 0 <= j < self@.renames.len()
                implies self@.renames[j].0 != pkg@ by {
                assert(self@.renames[j].0 == self.renames@[j].0@);
            }
            lemma_rename_lookup_miss(self@.renames, pkg@);
        }
        None
    }

    /// The version string of the `rust` package, when the manifest has one.
    pub fn get_rust_version(&self) -> (r: Result<&String, ErrorKind>)
        ensures
            match r {
                Ok(v) => match package_lookup(self@.packages, "rust"@) {
                    Some(p) => p.version == v@,
                    None => false,
                },
                Err(_) => package_lookup(self@.packages, "rust"@) is None,
            },
    {
        match self.get_package("rust") {
            Ok(p) => Ok(&p.version),
            Err(e) => Err(e),
        }
    }
}

fn parse_component_list(items: &Vec<toml::Value>) -> (r: Result<Vec<Component>, ErrorKind>) {
    let mut out: Vec<Component> = Vec::new();
    let mut i: usize = 0;
    while i < items.len()
        decreases items@.len() - i,
    {
        let item = &items[i];
        let pkg = match crate::toml_io::value_get(item, "pkg") {
            Some(p) => match crate::toml_io::value_as_str(p) {
                Some(s) => s,
                None => {
                    return Err(ErrorKind::Parsing("pkg".to_owned()));
                },
            },
            None => {
                return Err(ErrorKind::Parsing("pkg".to_owned()));
            },
        };
        let target: Option<TargetTriple> = match crate::toml_io::value_get(item, "target") {
            Some(t) => match crate::toml_io::value_as_str(t) {
                Some(s) => Some(TargetTriple(s)),
                None => None,
            },
            None => None,
        };
        out.push(Component { pkg, target });
        i += 1;
    }
    Ok(out)
}

fn parse_targeted_package(v: &toml::Value) -> (r: Result<TargetedPackage, ErrorKind>) {
    let available = match crate::toml_io::value_get(v, "available") {
        Some(a) => match crate::toml_io::value_as_bool(a) {
            Some(b) => b,
            None => false,
        },
        None => false,
    };
    let url = match crate::toml_io::value_get(v, "url") {
        Some(u) => match crate::toml_io::value_as_str(u) {
            Some(s) => s,
            None => String::new(),
        },
        None => String::new(),
    };
    let hash = match crate::toml_io::value_get(v, "hash") {
        Some(u) => match crate::toml_io::value_as_str(u) {
            Some(s) => s,
            None => String::new(),
        },
        None => String::new(),
    };
    let xz_url = match crate::toml_io::value_get(v, "xz_url") {
        Some(u) => crate::toml_io::value_as_str(u),
        None => None,
    };
    let xz_hash = match crate::toml_io::value_get(v, "xz_hash") {
        Some(u) => crate::toml_io::value_as_str(u),
        None => None,
    };
    let components = match crate::toml_io::value_get(v, "components") {
        Some(arr) => match crate::toml_io::value_as_array(arr) {
            Some(items) => parse_component_list(items)?,
            None => {
                return Err(ErrorKind::Parsing("components".to_owned()));
            },
        },
        None => Vec::new(),
    };
    let extensions = match crate::toml_io::value_get(v, "extensions") {
        Some(arr) => match crate::toml_io::value_as_array(arr) {
            Some(items) => parse_component_list(items)?,
            None => {
                return Err(ErrorKind::Parsing("extensions".to_owned()));
            },
        },
        None => Vec::new(),
    };
    Ok(TargetedPackage { available, url, hash, xz_url, xz_hash, components, extensions })
}

impl Manifest {
    /// Parses a release manifest from its wire document.
    pub fn parse(data: &str) -> (r: Result<Manifest, ErrorKind>)
        ensures
            r matches Ok(m) ==> m.manifest_version@ == "2"@,
    {
        let value = match crate::toml_io::toml_parse(data) {
            Ok(v) => v,
            Err(e) => {
                return Err(ErrorKind::Parsing(e));
            },
        };
        let manifest_version = match crate::toml_io::value_get(&value, "manifest-version") {
            Some(v) => match crate::toml_io::value_as_str(v) {
                Some(s) => s,
                None => {
                    return Err(ErrorKind::Parsing("manifest-version".to_owned()));
                },
            },
            None => {
                return Err(ErrorKind::Parsing("manifest-version".to_owned()));
            },
        };
        if !crate::strutil::string_eq_str(&manifest_version, "2") {
            return Err(ErrorKind::UnsupportedVersion(manifest_version));
        }
        let date = match crate::toml_io::value_get(&value, "date") {
            Some(v) => match crate::toml_io::value_as_str(v) {
                Some(s) => s,
                None => {
                    return Err(ErrorKind::Parsing("date".to_owned()));
                },
            },
            None => {
                return Err(ErrorKind::Parsing("date".to_owned()));
            },
        };
        let mut packages: Vec<(String, Package)> = Vec::new();
        if let Some(pkgs) = crate::toml_io::value_get(&value, "pkg") {
            let table = match crate::toml_io::value_as_table(pkgs) {
                Some(t) => t,
                None => {
                    return Err(ErrorKind::Parsing("pkg".to_owned()));
                },
            };
            let names = crate::toml_io::table_keys(table);
            let mut i: usize = 0;
            while i < names.len()
                decreases names@.len() - i,
            {
                let name = &names[i];
                let pv = match crate::toml_io::table_get(table, name.as_str()) {
                    Some(p) => p,
                    None => {
                        i += 1;
                        continue;
                    },
                };
                let version = match crate::toml_io::value_get(pv, "version") {
                    Some(v) => match crate::toml_io::value_as_str(v) {
                        Some(s) => s,
                        None => String::new(),
                    },
                    None => String::new(),
                };
                let mut targets: Vec<(String, TargetedPackage)> = Vec::new();
                if let Some(ts) = crate::toml_io::value_get(pv, "target") {
                    let ttable = match crate::toml_io::value_as_table(ts) {
                        Some(t) => t,
                        None => {
                            return Err(ErrorKind::Parsing("target".to_owned()));
                        },
                    };
                    let tnames = crate::toml_io::table_keys(ttable);
                    let mut j: usize = 0;
                    while j < tnames.len()
                        decreases tnames@.len() - j,
                    {
                        let tname = &tnames[j];
                        if let Some(tv) = crate::toml_io::table_get(ttable, tname.as_str()) {
                            let tp = parse_targeted_package(tv)?;
                            targets.push((tname.clone(), tp));
                        }
                        j += 1;
                    }
                }
                packages.push((name.clone(), Package { version, targets }));
                i += 1;
            }
        }
        let mut renames: Vec<(String, String)> = Vec::new();
        if let Some(rs) = crate::toml_io::value_get(&value, "renames") {
            let rtable = match crate::toml_io::value_as_table(rs) {
                Some(t) => t,
                None => {
                    return Err(ErrorKind::Parsing("renames".to_owned()));
                },
            };
            let rnames = crate::toml_io::table_keys(rtable);
            let mut i: usize = 0;
            while i < rnames.len()
                decreases rnames@.len() - i,
            {
                let from = &rnames[i];
                if let Some(entry) = crate::toml_io::table_get(rtable, from.as_str()) {
                    if let Some(tov) = crate::toml_io::value_get(entry, "to") {
                        if let Some(to) = crate::toml_io::value_as_str(tov) {
                            renames.push((from.clone(), to));
                        }
                    }
                }
                i += 1;
            }
        }
        Ok(Manifest { manifest_version, date, packages, renames })
    }
}

// Deep structural equality over the whole manifest model, so that an
// update can tell a reissued identical release from a real upgrade.

fn opt_string_eq(a: &Option<String>, b: &Option<String>) -> (r: bool)
    ensures
        r == (crate::strutil::opt_str_view(*a) == crate::strutil::opt_str_view(*b)),
{
    match (a, b) {
        (Some(x), Some(y)) => *x == *y,
        (None, None) => true,
        _ => false,
    }
}

fn components_eq(a: &Vec<Component>, b: &Vec<Component>) -> (r: bool)
    ensures
        r == (cviews(a@) == cviews(b@)),
{
    if a.len() != b.len() {
        proof {
            assert(cviews(a@).len() != cviews(b@).len());
        }
        return false;
    }
    let mut i: usize = 0;
    while i < a.len()
        invariant
            i <= a@.len(),
            a@.len() == b@.len(),
            forall|j: int| 0 <= j < i ==> a@[j]@ == b@[j]@,
        decreases a@.len() - i,
    {
        if !(&a[i] == &b[i]) {
            proof {
                assert(cviews(a@)[i as int] == a@[i as int]@);
                assert(cviews(b@)[i as int] == b@[i as int]@);
            }
            return false;
        }
        i += 1;
    }
    proof {
        assert forall|j: int| 0 <= j < a@.len()
            implies cviews(a@)[j] == cviews(b@)[j] by {
            assert(cviews(a@)[j] == a@[j]@);
            assert(cviews(b@)[j] == b@[j]@);
        }
        assert(cviews(a@) =~= cviews(b@));
    }
    true
}

fn targeted_package_eq(a: &TargetedPackage, b: &TargetedPackage) -> (r: bool)
    ensures
        r == (a@ == b@),
{
    let r = a.available == b.available
        && a.url == b.url
        && a.hash == b.hash
        && opt_string_eq(&a.xz_url, &b.xz_url)
        && opt_string_eq(&a.xz_hash, &b.xz_hash)
        && components_eq(&a.components, &b.components)
        && components_eq(&a.extensions, &b.extensions);
    proof {
        if r {
            assert(a@ =~= b@);
        }
    }
    r
}

fn package_eq(a: &Package, b: &Package) -> (r: bool)
    ensures
        r == (a@ == b@),
{
    if !(a.version == b.version) {
        return false;
    }
    if a.targets.len() != b.targets.len() {
        proof {
            assert(a@.targets.len() != b@.targets.len());
        }
        return false;
    }
    let mut i: usize = 0;
    while i < a.targets.len()
        invariant
            i <= a.targets@.len(),
            a.targets@.len() == b.targets@.len(),
            a@.version == b@.version,
            forall|j: int| 0 <= j < i ==> a@.targets[j] == b@.targets[j],
        decreases a.targets@.len() - i,
    {
        let key_eq = a.targets[i].0 == b.targets[i].0;
        let tp_eq = targeted_package_eq(&a.targets[i].1, &b.targets[i].1);
        if !(key_eq && tp_eq) {
            proof {
                assert(a@.targets[i as int] == (a.targets@[i as int].0@, a.targets@[i as int].1@));
                assert(b@.targets[i as int] == (b.targets@[i as int].0@, b.targets@[i as int].1@));
            }
            return false;
        }
        proof {
            assert(a@.targets[i as int] == (a.targets@[i as int].0@, a.targets@[i as int].1@));
            assert(b@.targets[i as int] == (b.targets@[i as int].0@, b.targets@[i as int].1@));
        }
        i += 1;
    }
    proof {
        assert(a@.targets =~= b@.targets);
        assert(a@ =~= b@);
    }
    true
}

/// Whether two manifests are structurally identical.
pub fn manifest_eq(a: &Manifest, b: &Manifest) -> (r: bool)
    ensures
        r == (a@ == b@),
{
    if !(a.manifest_version == b.manifest_version) {
        return false;
    }
    if !(a.date == b.date) {
        return false;
    }
    if a.packages.len() != b.packages.len() {
        proof {
            assert(a@.packages.len() != b@.packages.len());
        }
        return false;
    }
    if a.renames.len() != b.renames.len() {
        proof {
            assert(a@.renames.len() != b@.renames.len());
        }
        return false;
    }
    let mut i: usize = 0;
    while i < a.packages.len()
        invariant
            i <= a.packages@.len(),
            a.packages@.len() == b.packages@.len(),
            a@.manifest_version == b@.manifest_version,
            a@.date == b@.date,
            forall|j: int| 0 <= j < i ==> a@.packages[j] == b@.packages[j],
        decreases a.packages@.len() - i,
    {
        let key_eq = a.packages[i].0 == b.packages[i].0;
        let p_eq = package_eq(&a.packages[i].1, &b.packages[i].1);
        proof {
            assert(a@.packages[i as int] == (a.packages@[i as int].0@, a.packages@[i as int].1@));
            assert(b@.packages[i as int] == (b.packages@[i as int].0@, b.packages@[i as int].1@));
        }
        if !(key_eq && p_eq) {
            return false;
        }
        i += 1;
    }
    let mut i: usize = 0;
    while i < a.renames.len()
        invariant
            i <= a.renames@.len(),
            a.renames@.len() == b.renames@.len(),
            a.packages@.len() == b.packages@.len(),
            a@.manifest_version == b@.manifest_version,
            a@.date == b@.date,
            forall|j: int| 0 <= j < a.packages@.len() ==> a@.packages[j] == b@.packages[j],
            forall|j: int| 0 <= j < i ==> a@.renames[j] == b@.renames[j],
        decreases a.renames@.len() - i,
    {
        let r_eq = a.renames[i].0 == b.renames[i].0 && a.renames[i].1 == b.renames[i].1;
        proof {
            assert(a@.renames[i as int] == (a.renames@[i as int].0@, a.renames@[i as int].1@));
            assert(b@.renames[i as int] == (b.renames@[i as int].0@, b.renames@[i as int].1@));
        }
        if !r_eq {
            return false;
        }
        i += 1;
    }
    proof {
        assert forall|j: int| 0 <= j < a.packages@.len()
            implies a@.packages[j] == b@.packages[j] by {}
        assert(a@.packages =~= b@.packages);
        assert(a@.renames =~= b@.renames);
        assert(a@ =~= b@);
    }
    true
}

} // verus!
