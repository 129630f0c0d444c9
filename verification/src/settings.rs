//! Centrally-administered fallback settings: a document that may name a
//! default toolchain.  Reading the file is the caller's concern; an
//! unreadable central file is simply absent.

use vstd::prelude::*;
use crate::errors::ErrorKind;

verus! {

#[derive(Debug)]
pub struct FallbackSettings {
    pub default_toolchain: Option<String>,
}

impl FallbackSettings {
    /// Parses the settings document the caller read, if it could read
    /// one; no document means no fallback settings.
    pub fn new(contents: Option<&str>) -> (r: Result<Option<FallbackSettings>, ErrorKind>)
        ensures
            contents is None ==> (r matches Ok(s) && s is None),
    {
        let text = match contents {
            Some(t) => t,
            None => {
                return Ok(None);
            },
        };
        let value = match crate::toml_io::toml_parse(text) {
            Ok(v) => v,
            Err(e) => {
                return Err(ErrorKind::Parsing(e));
            },
        };
        let default_toolchain = match crate::toml_io::value_get(&value, "default_toolchain") {
            Some(v) => crate::toml_io::value_as_str(v),
            None => None,
        };
        Ok(Some(FallbackSettings { default_toolchain }))
    }
}

impl Default for FallbackSettings {
    fn default() -> (r: FallbackSettings)
        ensures
            r.default_toolchain is None,
    {
        FallbackSettings { default_toolchain: None }
    }
}

} // verus!
