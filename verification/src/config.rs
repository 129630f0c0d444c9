//! The installed-config record: which components an installation holds.
//! Writing the record is verified against an exact rendering; reading it
//! back goes through the structured-text parser.

use vstd::prelude::*;
use crate::errors::ErrorKind;
use crate::manifest::{Component, ComponentV, cviews};
use crate::dist::TargetTriple;

verus! {

pub const DEFAULT_CONFIG_VERSION: &'static str = "1";

/// The persisted record of the components an installation holds; the
/// source of truth reconciled against the on-disk receipts.
#[derive(Debug)]
pub struct Config {
    pub config_version: String,
    pub components: Vec<Component>,
}

/// The rendered form of one component entry.
pub open spec fn render_component(c: ComponentV) -> Seq<char> {
    "[[components]]\npkg = \""@ + c.pkg + "\"\n"@ + match c.target {
        Some(t) => "target = \""@ + t + "\"\n"@,
        None => Seq::<char>::empty(),
    }
}

/// The rendered component entries from index `i` on.
pub open spec fn render_components_from(cs: Seq<ComponentV>, i: int) -> Seq<char>
    decreases cs.len() - i,
{
    if i < 0 || i >= cs.len() {
        Seq::empty()
    } else {
        render_component(cs[i]) + render_components_from(cs, i + 1)
    }
}

/// The rendered form of a whole installed-config record.
pub open spec fn config_render(version: Seq<char>, cs: Seq<ComponentV>) -> Seq<char> {
    "config_version = \""@ + version + "\"\n"@ + render_components_from(cs, 0)
}

impl Config {
    pub fn new() -> (r: Config)
        ensures
            r.config_version@ == "1"@,
            r.components@.len() == 0,
    {
        Config { config_version: "1".to_owned(), components: Vec::new() }
    }

    /// A deep copy whose component images are the same.
    pub fn duplicate(&self) -> (r: Config)
        ensures
            r.config_version@ == self.config_version@,
            cviews(r.components@) == cviews(self.components@),
    {
        Config {
            config_version: self.config_version.clone(),
            components: crate::changeset::duplicate_components(&self.components),
        }
    }

    /// Renders the record as the document that `parse` reads back.
    pub fn stringify(&self) -> (r: String)
        ensures
            r@ == config_render(self.config_version@, cviews(self.components@)),
    {
        let ghost csv = cviews(self.components@);
        let mut s = String::new();
        s.append("config_version = \"");
        s.append(self.config_version.as_str());
        s.append("\"\n");
        let ghost header = s@;
        let mut i: usize = 0;
        while i < self.components.len()
            invariant
                i <= self.components@.len(),
                csv == cviews(self.components@),
                header == "config_version = \""@ + self.config_version@ + "\"\n"@,
                header + render_components_from(csv, 0) == s@ + render_components_from(csv, i as int),
            decreases self.components@.len() - i,
        {
            let ghost before = s@;
            let c = &self.components[i];
            s.append("[[components]]\npkg = \"");
            s.append(c.pkg.as_str());
            s.append("\"\n");
            if let Some(t) = &c.target {
                s.append("target = \"");
                s.append(t.0.as_str());
                s.append("\"\n");
            }
            proof {
                assert(csv[i as int] == c@);
                assert(s@ =~= before + render_component(csv[i as int]));
                assert(before + (render_component(csv[i as int]) + render_components_from(csv, i + 1))
                    =~= (before + render_component(csv[i as int])) + render_components_from(csv, i + 1));
            }
            i += 1;
        }
        proof {
            assert(render_components_from(csv, csv.len() as int) =~= Seq::<char>::empty());
            assert(s@ + Seq::<char>::empty() =~= s@);
            assert(header + render_components_from(csv, 0) =~= config_render(
                self.config_version@, csv,
            ));
        }
        s
    }

    /// Parses an installed-config document.  Succeeds only on a table
    /// whose `config_version` this crate supports, with its component
    /// entries each naming a package.
    pub fn parse(data: &str) -> (r: Result<Config, ErrorKind>)
        ensures
            r matches Ok(c) ==> c.config_version@ == "1"@,
    {
        let value = match crate::toml_io::toml_parse(data) {
            Ok(v) => v,
            Err(e) => {
                return Err(ErrorKind::Parsing(e));
            },
        };
        let version = match crate::toml_io::value_get(&value, "config_version") {
            Some(v) => match crate::toml_io::value_as_str(v) {
                Some(s) => s,
                None => {
                    return Err(ErrorKind::Parsing("config_version".to_owned()));
                },
            },
            None => {
                return Err(ErrorKind::Parsing("config_version".to_owned()));
            },
        };
        if !crate::strutil::string_eq_str(&version, "1") {
            return Err(ErrorKind::UnsupportedVersion(version));
        }
        let mut components: Vec<Component> = Vec::new();
        match crate::toml_io::value_get(&value, "components") {
            Some(arr) => match crate::toml_io::value_as_array(arr) {
                Some(items) => {
                    let mut i: usize = 0;
                    while i < items.len()
                        decreases items@.len() - i,
                    {
                        let item = &items[i];
                        let pkg = match crate::toml_io::value_get(item, "pkg") {
                            Some(p) => match crate::toml_io::value_as_str(p) {
                                Some(s) => s,
                                None => {
                                    return Err(ErrorKind::Parsing("pkg".to_owned()));
                                },
                            },
                            None => {
                                return Err(ErrorKind::Parsing("pkg".to_owned()));
                            },
                        };
                        let target: Option<TargetTriple> = match crate::toml_io::value_get(
                            item,
                            "target",
                        ) {
                            Some(t) => match crate::toml_io::value_as_str(t) {
                                Some(s) => Some(TargetTriple(s)),
                                None => {
                                    return Err(ErrorKind::Parsing("target".to_owned()));
                                },
                            },
                            None => None,
                        };
                        components.push(Component { pkg, target });
                        i += 1;
                    }
                },
                None => {
                    return Err(ErrorKind::Parsing("components".to_owned()));
                },
            },
            None => {},
        }
        Ok(Config { config_version: version, components })
    }
}

impl Default for Config {
    fn default() -> (r: Config)
        ensures
            r.config_version@ == "1"@,
            r.components@.len() == 0,
    {
        Config::new()
    }
}

} // verus!
