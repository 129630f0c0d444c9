//! The modelled installation root: the files it holds, the component
//! receipts recording which files each installed component owns, and
//! whether the root itself exists yet.  The transactional installer
//! mutates an installation only through values of this model; mapping
//! the model to a real directory tree is its caller's concern.

use vstd::prelude::*;

verus! {

/// First-match lookup in an association list.
pub open spec fn kv_lookup<V>(s: Seq<(Seq<char>, V)>, k: Seq<char>) -> Option<V>
    decreases s.len(),
{
    if s.len() == 0 {
        None
    } else if s[0].0 == k {
        Some(s[0].1)
    } else {
        kv_lookup(s.subrange(1, s.len() as int), k)
    }
}

/// No key occurs twice.
pub open spec fn kv_unique<V>(s: Seq<(Seq<char>, V)>) -> bool {
    forall|i: int, j: int| 0 <= i < j < s.len() ==> s[i].0 != s[j].0
}

/// Under unique keys, the lookup finds exactly the entries the list holds.
pub proof fn lemma_kv_lookup_index<V>(s: Seq<(Seq<char>, V)>, i: int)
    requires
        kv_unique(s),
        0 <= i < s.len(),
    ensures
        kv_lookup(s, s[i].0) == Some(s[i].1),
    decreases i,
{
    if i == 0 {
    } else {
        let tail = s.subrange(1, s.len() as int);
        assert(tail[i - 1] == s[i]);
        assert(kv_unique(tail)) by {
            assert forall|a: int, b: int| 0 <= a < b < tail.len()
                implies tail[a].0 != tail[b].0 by {
                assert(tail[a] == s[a + 1]);
                assert(tail[b] == s[b + 1]);
            }
        }
        lemma_kv_lookup_index(tail, i - 1);
        assert(s[0].0 != s[i].0);
    }
}

/// A key no entry holds is not found.
pub proof fn lemma_kv_lookup_absent<V>(s: Seq<(Seq<char>, V)>, k: Seq<char>)
    requires
        forall|i: int| 0 <= i < s.len() ==> s[i].0 != k,
    ensures
        kv_lookup(s, k) is None,
    decreases s.len(),
{
    if s.len() > 0 {
        let tail = s.subrange(1, s.len() as int);
        assert forall|i: int| 0 <= i < tail.len() implies tail[i].0 != k by {
            assert(tail[i] == s[i + 1]);
        }
        lemma_kv_lookup_absent(tail, k);
    }
}

/// Updating one entry changes that key's binding and no other.
pub proof fn lemma_kv_lookup_update<V>(s: Seq<(Seq<char>, V)>, i: int, v: V, k2: Seq<char>)
    requires
        kv_unique(s),
        0 <= i < s.len(),
    ensures
        kv_unique(s.update(i, (s[i].0, v))),
        kv_lookup(s.update(i, (s[i].0, v)), k2) == if k2 == s[i].0 {
            Some(v)
        } else {
            kv_lookup(s, k2)
        },
    decreases s.len(),
{
    let t = s.update(i, (s[i].0, v));
    assert(kv_unique(t)) by {
        assert forall|a: int, b: int| 0 <= a < b < t.len()
            implies t[a].0 != t[b].0 by {
            assert(t[a].0 == s[a].0);
            assert(t[b].0 == s[b].0);
        }
    }
    if k2 == s[i].0 {
        lemma_kv_lookup_index(t, i);
    } else {
        if i == 0 {
            assert(t.subrange(1, t.len() as int) =~= s.subrange(1, s.len() as int));
        } else {
            let stail = s.subrange(1, s.len() as int);
            assert(t.subrange(1, t.len() as int) =~= stail.update(i - 1, (stail[i - 1].0, v)));
            assert(kv_unique(stail)) by {
                assert forall|a: int, b: int| 0 <= a < b < stail.len()
                    implies stail[a].0 != stail[b].0 by {
                    assert(stail[a] == s[a + 1]);
                    assert(stail[b] == s[b + 1]);
                }
            }
            lemma_kv_lookup_update(stail, i - 1, v, k2);
        }
    }
}

/// Appending a fresh key binds it and changes no other binding.
pub proof fn lemma_kv_lookup_push<V>(s: Seq<(Seq<char>, V)>, k: Seq<char>, v: V, k2: Seq<char>)
    requires
        kv_unique(s),
        forall|i: int| 0 <= i < s.len() ==> s[i].0 != k,
    ensures
        kv_unique(s.push((k, v))),
        kv_lookup(s.push((k, v)), k2) == if k2 == k {
            Some(v)
        } else {
            kv_lookup(s, k2)
        },
    decreases s.len(),
{
    let t = s.push((k, v));
    assert(kv_unique(t)) by {
        assert forall|a: int, b: int| 0 <= a < b < t.len()
            implies t[a].0 != t[b].0 by {
            if b < s.len() {
            } else {
                assert(t[b].0 == k);
                assert(t[a].0 == s[a].0);
            }
        }
    }
    if s.len() == 0 {
        assert(t.len() == 1);
        assert(t[0] == (k, v));
        let e = t.subrange(1, 1);
        assert(e =~= Seq::<(Seq<char>, V)>::empty());
        assert(kv_lookup(e, k2) is None);
        if k2 == k {
            assert(kv_lookup(t, k2) == Some(v));
        } else {
            assert(kv_lookup(t, k2) is None);
            assert(kv_lookup(s, k2) is None);
        }
    } else {
        let stail = s.subrange(1, s.len() as int);
        assert(t.subrange(1, t.len() as int) =~= stail.push((k, v)));
        assert(kv_unique(stail)) by {
            assert forall|a: int, b: int| 0 <= a < b < stail.len()
                implies stail[a].0 != stail[b].0 by {
                assert(stail[a] == s[a + 1]);
                assert(stail[b] == s[b + 1]);
            }
        }
        assert forall|i: int| 0 <= i < stail.len() implies stail[i].0 != k by {
            assert(stail[i] == s[i + 1]);
        }
        lemma_kv_lookup_push(stail, k, v, k2);
    }
}

/// Removing an entry unbinds its key and changes no other binding.
pub proof fn lemma_kv_lookup_remove<V>(s: Seq<(Seq<char>, V)>, i: int, k2: Seq<char>)
    requires
        kv_unique(s),
        0 <= i < s.len(),
    ensures
        kv_unique(s.remove(i)),
        kv_lookup(s.remove(i), k2) == if k2 == s[i].0 {
            None
        } else {
            kv_lookup(s, k2)
        },
    decreases s.len(),
{
    let t = s.remove(i);
    assert(kv_unique(t)) by {
        assert forall|a: int, b: int| 0 <= a < b < t.len()
            implies t[a].0 != t[b].0 by {
            let a2: int = if a < i { a } else { a + 1 };
            let b2: int = if b < i { b } else { b + 1 };
            assert(t[a] == s[a2]);
            assert(t[b] == s[b2]);
        }
    }
    if k2 == s[i].0 {
        assert forall|j: int| 0 <= j < t.len() implies t[j].0 != k2 by {
            let j2: int = if j < i { j } else { j + 1 };
            assert(t[j] == s[j2]);
        }
        lemma_kv_lookup_absent(t, k2);
    } else {
        if i == 0 {
            assert(t =~= s.subrange(1, s.len() as int));
        } else {
            let stail = s.subrange(1, s.len() as int);
            assert(t[0] == s[0]);
            assert(t.subrange(1, t.len() as int) =~= stail.remove(i - 1));
            assert(kv_unique(stail)) by {
                assert forall|a: int, b: int| 0 <= a < b < stail.len()
                    implies stail[a].0 != stail[b].0 by {
                    assert(stail[a] == s[a + 1]);
                    assert(stail[b] == s[b + 1]);
                }
            }
            lemma_kv_lookup_remove(stail, i - 1, k2);
        }
    }
}

/// The ghost image of an installation root.
#[verifier::ext_equal]
pub ghost struct PrefixV {
    pub exists: bool,
    pub files: Seq<(Seq<char>, Seq<u8>)>,
    pub receipts: Seq<(Seq<char>, Seq<Seq<char>>)>,
}

/// The modelled installation root.
#[derive(Debug)]
pub struct Prefix {
    pub exists: bool,
    pub files: Vec<(String, Vec<u8>)>,
    pub receipts: Vec<(String, Vec<String>)>,
}

pub open spec fn file_views(s: Seq<(String, Vec<u8>)>) -> Seq<(Seq<char>, Seq<u8>)> {
    s.map_values(|p: (String, Vec<u8>)| (p.0@, p.1@))
}

pub open spec fn receipt_views(s: Seq<(String, Vec<String>)>) -> Seq<(Seq<char>, Seq<Seq<char>>)> {
    s.map_values(|p: (String, Vec<String>)| (p.0@, p.1@.map_values(|f: String| f@)))
}

impl View for Prefix {
    type V = PrefixV;

    open spec fn view(&self) -> PrefixV {
        PrefixV {
            exists: self.exists,
            files: file_views(self.files@),
            receipts: receipt_views(self.receipts@),
        }
    }
}

impl Prefix {
    /// Both key spaces hold each key at most once.
    pub open spec fn wf(&self) -> bool {
        kv_unique(self@.files) && kv_unique(self@.receipts)
    }

    /// An empty root that does not exist on disk yet.
    pub fn new_absent() -> (r: Prefix)
        ensures
            r.wf(),
            !r@.exists,
            r@.files.len() == 0,
            r@.receipts.len() == 0,
    {
        let r = Prefix { exists: false, files: Vec::new(), receipts: Vec::new() };
        proof {
            assert(r@.files =~= Seq::<(Seq<char>, Seq<u8>)>::empty());
            assert(r@.receipts =~= Seq::<(Seq<char>, Seq<Seq<char>>)>::empty());
        }
        r
    }

    /// An existing, empty root.
    pub fn new_empty() -> (r: Prefix)
        ensures
            r.wf(),
            r@.exists,
            r@.files.len() == 0,
            r@.receipts.len() == 0,
    {
        let mut r = Prefix::new_absent();
        r.exists = true;
        r
    }

    /// The index of the file under `path`, if the root holds one.
    pub fn find_file(&self, path: &str) -> (r: Option<usize>)
        ensures
            match r {
                Some(i) => 0 <= i < self@.files.len() && self@.files[i as int].0 == path@
                    && (forall|j: int| 0 <= j < i ==> self@.files[j].0 != path@)
                    && kv_lookup(self@.files, path@) == Some(self@.files[i as int].1),
                None => kv_lookup(self@.files, path@) is None
                    && (forall|j: int| 0 <= j < self@.files.len() ==> self@.files[j].0 != path@),
            },
    {
        let mut i: usize = 0;
        while i < self.files.len()
            invariant
                i <= self.files@.len(),
                forall|j: int| 0 <= j < i ==> self@.files[j].0 != path@,
            decreases self.files@.len() - i,
        {
            if crate::strutil::string_eq_str(&self.files[i].0, path) {
                proof {
                    assert(self@.files[i as int].0 == self.files@[i as int].0@);
                    lemma_kv_first_hit(self@.files, path@, i as int);
                }
                return Some(i);
            }
            proof {
                assert(self@.files[i as int].0 == self.files@[i as int].0@);
            }
            i += 1;
        }
        proof {
            lemma_kv_lookup_absent(self@.files, path@);
        }
        None
    }

    /// The contents of the file under `path`.
    pub fn read_file(&self, path: &str) -> (r: Option<&Vec<u8>>)
        ensures
            match r {
                Some(v) => kv_lookup(self@.files, path@) == Some(v@),
                None => kv_lookup(self@.files, path@) is None,
            },
    {
        match self.find_file(path) {
            Some(i) => Some(&self.files[i].1),
            None => None,
        }
    }

    /// The index of the receipt under `name`.
    pub fn find_receipt(&self, name: &str) -> (r: Option<usize>)
        ensures
            match r {
                Some(i) => 0 <= i < self@.receipts.len() && self@.receipts[i as int].0 == name@
                    && (forall|j: int| 0 <= j < i ==> self@.receipts[j].0 != name@)
                    && kv_lookup(self@.receipts, name@) == Some(self@.receipts[i as int].1),
                None => kv_lookup(self@.receipts, name@) is None
                    && (forall|j: int| 0 <= j < self@.receipts.len() ==> self@.receipts[j].0 != name@),
            },
    {
        let mut i: usize = 0;
        while i < self.receipts.len()
            invariant
                i <= self.receipts@.len(),
                forall|j: int| 0 <= j < i ==> self@.receipts[j].0 != name@,
            decreases self.receipts@.len() - i,
        {
            if crate::strutil::string_eq_str(&self.receipts[i].0, name) {
                proof {
                    assert(self@.receipts[i as int].0 == self.receipts@[i as int].0@);
                    lemma_kv_first_hit(self@.receipts, name@, i as int);
                }
                return Some(i);
            }
            proof {
                assert(self@.receipts[i as int].0 == self.receipts@[i as int].0@);
            }
            i += 1;
        }
        proof {
            lemma_kv_lookup_absent(self@.receipts, name@);
        }
        None
    }
}

/// A missed lookup means no entry holds the key.
pub proof fn lemma_kv_lookup_none_keys<V>(s: Seq<(Seq<char>, V)>, k: Seq<char>)
    requires
        kv_lookup(s, k) is None,
    ensures
        forall|i: int| 0 <= i < s.len() ==> s[i].0 != k,
    decreases s.len(),
{
    if s.len() > 0 {
        let tail = s.subrange(1, s.len() as int);
        lemma_kv_lookup_none_keys(tail, k);
        assert forall|i: int| 0 <= i < s.len() implies s[i].0 != k by {
            if i > 0 {
                assert(tail[i - 1] == s[i]);
            }
        }
    }
}

/// A first match at index `i` settles the lookup.
pub proof fn lemma_kv_first_hit<V>(s: Seq<(Seq<char>, V)>, k: Seq<char>, i: int)
    requires
        0 <= i < s.len(),
        forall|j: int| 0 <= j < i ==> s[j].0 != k,
        s[i].0 == k,
    ensures
        kv_lookup(s, k) == Some(s[i].1),
    decreases i,
{
    if i == 0 {
    } else {
        let tail = s.subrange(1, s.len() as int);
        assert(tail[i - 1] == s[i]);
        assert forall|j: int| 0 <= j < i - 1 implies tail[j].0 != k by {
            assert(tail[j] == s[j + 1]);
        }
        lemma_kv_first_hit(tail, k, i - 1);
    }
}

} // verus!
