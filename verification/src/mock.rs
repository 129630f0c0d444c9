//! Mock installer archives for exercising the installer: the on-disk
//! structure a real archive carries, stated as data, and its conversion
//! to the payload form the installer consumes.

use vstd::prelude::*;
use crate::manifestation::PackagePayload;

verus! {

/// An installation command of a mock component: lay down a file or a
/// directory.
#[derive(Debug)]
pub enum MockCommand {
    File(String),
    Dir(String),
}

/// One mock component: its name, its commands, and its files, each with
/// contents and an executable bit.
#[derive(Debug)]
pub struct MockComponent {
    pub name: String,
    pub commands: Vec<MockCommand>,
    pub files: Vec<(String, Vec<u8>, bool)>,
}

/// A mock of the on-disk structure of installer archives.
#[derive(Debug)]
pub struct MockInstallerBuilder {
    pub components: Vec<MockComponent>,
}

impl MockInstallerBuilder {
    /// The payload the installer sees when this archive is unpacked:
    /// one entry per component, carrying its files.
    pub fn to_payload(&self) -> (r: PackagePayload)
        ensures
            r.components@.len() == self.components@.len(),
            forall|i: int| 0 <= i < r.components@.len()
                ==> (#[trigger] r.components@[i]).0@ == self.components@[i].name@
                    && r.components@[i].1@.len() == self.components@[i].files@.len(),
    {
        let mut out: Vec<(String, Vec<(String, Vec<u8>)>)> = Vec::new();
        let mut i: usize = 0;
        while i < self.components.len()
            invariant
                i <= self.components@.len(),
                out@.len() == i,
                forall|j: int| 0 <= j < i
                    ==> (#[trigger] out@[j]).0@ == self.components@[j].name@
                        && out@[j].1@.len() == self.components@[j].files@.len(),
            decreases self.components@.len() - i,
        {
            let comp = &self.components[i];
            let mut files: Vec<(String, Vec<u8>)> = Vec::new();
            let mut j: usize = 0;
            while j < comp.files.len()
                invariant
                    j <= comp.files@.len(),
                    files@.len() == j,
                decreases comp.files@.len() - j,
            {
                let (path, contents, _executable) = &comp.files[j];
                let mut c: Vec<u8> = Vec::new();
                let mut k: usize = 0;
                while k < contents.len()
                    invariant
                        k <= contents@.len(),
                    decreases contents@.len() - k,
                {
                    c.push(contents[k]);
                    k += 1;
                }
                files.push((path.clone(), c));
                j += 1;
            }
            out.push((comp.name.clone(), files));
            i += 1;
        }
        PackagePayload { components: out }
    }
}

} // verus!
