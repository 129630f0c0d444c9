//! Platform triples and toolchain descriptors.
//!
//! A platform triple is an `<arch>-<os>[-<env>]` identifier.  A toolchain
//! descriptor names a release channel, an optional date, and a target
//! triple; a partial descriptor may leave any of the triple's pieces out,
//! to be filled in from the host's triple later.

use vstd::prelude::*;
use crate::strutil::{chars_of, opt_str_view, str_eq_str, string_eq_str};
use crate::errors::ErrorKind;

verus! {

pub const DEFAULT_DIST_SERVER: &'static str = "https://static.rust-lang.org";

pub const DEFAULT_DIST_ROOT: &'static str = "https://static.rust-lang.org/dist";

// The architectures, operating systems and environments (ABIs) that
// abbreviated toolchain names may mention.  Target triples proper are
// nearly arbitrary strings; only partial triples are matched against
// these lists.

pub open spec fn arch_list() -> Seq<Seq<char>> {
    seq![
        "i386"@, "i586"@, "i686"@, "x86_64"@, "arm"@, "armv7"@, "armv7s"@,
        "aarch64"@, "mips"@, "mipsel"@, "mips64"@, "mips64el"@, "powerpc"@,
        "powerpc64"@, "powerpc64le"@, "s390x"@,
    ]
}

pub open spec fn os_list() -> Seq<Seq<char>> {
    seq![
        "pc-windows"@, "unknown-linux"@, "apple-darwin"@, "unknown-netbsd"@,
        "apple-ios"@, "linux"@, "rumprun-netbsd"@, "unknown-freebsd"@,
    ]
}

pub open spec fn env_list() -> Seq<Seq<char>> {
    seq![
        "gnu"@, "msvc"@, "gnueabi"@, "gnueabihf"@, "gnuabi64"@, "androideabi"@,
        "android"@, "musl"@,
    ]
}

fn archs() -> (v: Vec<&'static str>)
    ensures
        v@.len() == arch_list().len(),
        forall|i: int| 0 <= i < v@.len() ==> v@[i]@ == arch_list()[i],
{
    let v: Vec<&'static str> = vec![
        "i386", "i586", "i686", "x86_64", "arm", "armv7", "armv7s",
        "aarch64", "mips", "mipsel", "mips64", "mips64el", "powerpc",
        "powerpc64", "powerpc64le", "s390x",
    ];
    v
}

fn oses() -> (v: Vec<&'static str>)
    ensures
        v@.len() == os_list().len(),
        forall|i: int| 0 <= i < v@.len() ==> v@[i]@ == os_list()[i],
{
    let v: Vec<&'static str> = vec![
        "pc-windows", "unknown-linux", "apple-darwin", "unknown-netbsd",
        "apple-ios", "linux", "rumprun-netbsd", "unknown-freebsd",
    ];
    v
}

fn envs() -> (v: Vec<&'static str>)
    ensures
        v@.len() == env_list().len(),
        forall|i: int| 0 <= i < v@.len() ==> v@[i]@ == env_list()[i],
{
    let v: Vec<&'static str> = vec![
        "gnu", "msvc", "gnueabi", "gnueabihf", "gnuabi64", "androideabi",
        "android", "musl",
    ];
    v
}

/// The characters of `s` from `p` to its end.
pub open spec fn suffix_of(s: Seq<char>, p: int) -> Seq<char> {
    s.subrange(p, s.len() as int)
}

/// A candidate piece `c` stands at position `p` of `s`, ending at a `-`
/// boundary or at the end of the string.
pub open spec fn piece_at(s: Seq<char>, p: int, c: Seq<char>) -> bool {
    &&& 0 <= p
    &&& p + c.len() <= s.len()
    &&& s.subrange(p, p + c.len()) == c
    &&& (p + c.len() == s.len() || s[p + c.len()] == '-')
}

/// `-`-joined concatenation of up to two optional pieces, of which at
/// least one is present.
pub open spec fn joined2(o: Option<Seq<char>>, e: Option<Seq<char>>) -> Seq<char> {
    match o {
        Some(y) => match e {
            Some(z) => y + seq!['-'] + z,
            None => y,
        },
        None => match e {
            Some(z) => z,
            None => Seq::empty(),
        },
    }
}

/// `-`-joined concatenation of up to three optional pieces.
pub open spec fn joined3(
    a: Option<Seq<char>>,
    o: Option<Seq<char>>,
    e: Option<Seq<char>>,
) -> Seq<char> {
    match a {
        Some(x) => if o is None && e is None {
            x
        } else {
            x + seq!['-'] + joined2(o, e)
        },
        None => joined2(o, e),
    }
}

pub open spec fn opt_in_list(l: Seq<Seq<char>>, x: Option<Seq<char>>) -> bool {
    match x {
        Some(s) => l.contains(s),
        None => true,
    }
}

/// `name` decomposes into an optional known architecture, operating
/// system and environment, joined by `-`.
pub open spec fn triple_decomp(
    name: Seq<char>,
    a: Option<Seq<char>>,
    o: Option<Seq<char>>,
    e: Option<Seq<char>>,
) -> bool {
    &&& opt_in_list(arch_list(), a)
    &&& opt_in_list(os_list(), o)
    &&& opt_in_list(env_list(), e)
    &&& name == joined3(a, o, e)
}

/// Decomposition of a suffix into an optional operating system and
/// environment, at least one of them present.
pub open spec fn os_env_decomp(
    rest: Seq<char>,
    o: Option<Seq<char>>,
    e: Option<Seq<char>>,
) -> bool {
    &&& opt_in_list(os_list(), o)
    &&& opt_in_list(env_list(), e)
    &&& !(o is None && e is None)
    &&& rest == joined2(o, e)
}

/// Whether candidate `c` stands at position `p` of `v`, up to a piece
/// boundary.
fn piece_matches(v: &Vec<char>, p: usize, c: &str) -> (r: bool)
    requires
        p <= v@.len(),
    ensures
        r == piece_at(v@, p as int, c@),
{
    let m = c.unicode_len();
    let n = v.len();
    if m > n - p {
        return false;
    }
    let mut i: usize = 0;
    while i < m
        invariant
            i <= m,
            p + m <= n,
            n == v@.len(),
            m == c@.len(),
            forall|j: int| 0 <= j < i ==> v@[p + j] == c@[j],
        decreases m - i,
    {
        if v[p + i] != c.get_char(i) {
            proof {
                assert(v@.subrange(p as int, p + c@.len())[i as int] == v@[p + i]);
            }
            return false;
        }
        i += 1;
    }
    proof {
        assert(v@.subrange(p as int, p + c@.len()) =~= c@);
    }
    if p + m == v.len() {
        true
    } else {
        v[p + m] == '-'
    }
}

proof fn lemma_piece_then_rest(s: Seq<char>, p: int, c: Seq<char>)
    requires
        piece_at(s, p, c),
        p + c.len() < s.len(),
    ensures
        suffix_of(s, p) == c + seq!['-'] + suffix_of(s, p + c.len() + 1),
{
    assert(suffix_of(s, p) =~= c + seq!['-'] + suffix_of(s, p + c.len() + 1));
}

proof fn lemma_piece_at_end(s: Seq<char>, p: int, c: Seq<char>)
    requires
        piece_at(s, p, c),
        p + c.len() == s.len(),
    ensures
        suffix_of(s, p) == c,
{
    assert(suffix_of(s, p) =~= c);
}

/// Conversely: if the suffix at `p` is `c` followed by `-` and more, or is
/// exactly `c`, then `c` stands at `p` up to a boundary.
proof fn lemma_rest_then_piece(s: Seq<char>, p: int, c: Seq<char>, tail: Seq<char>)
    requires
        0 <= p <= s.len(),
        suffix_of(s, p) == c + seq!['-'] + tail,
    ensures
        piece_at(s, p, c),
        suffix_of(s, p + c.len() + 1) == tail,
{
    let suf = suffix_of(s, p);
    assert(suf.len() == c.len() + 1 + tail.len());
    assert forall|j: int| 0 <= j < c.len() implies s[p + j] == c[j] by {
        assert(suf[j] == (c + seq!['-'] + tail)[j]);
    }
    assert(s.subrange(p, p + c.len()) =~= c);
    assert(suf[c.len() as int] == '-');
    assert(s[p + c.len()] == '-');
    assert forall|i: int| 0 <= i < tail.len()
        implies s[p + c.len() + 1 + i] == tail[i] by {
        assert(suf[c.len() + 1 + i] == (c + seq!['-'] + tail)[c.len() + 1 + i]);
    }
    assert(suffix_of(s, p + c.len() + 1) =~= tail);
}

/// Appending the same prefix to two equal sequences lets the tails cancel.
proof fn lemma_append_cancel(a: Seq<char>, b: Seq<char>, c: Seq<char>)
    requires
        a + b == a + c,
    ensures
        b == c,
{
    vstd::seq::axiom_seq_add_len(a, b);
    vstd::seq::axiom_seq_add_len(a, c);
    assert((a + b).len() == (a + c).len());
    assert(b.len() == c.len());
    assert forall|i: int| 0 <= i < b.len() implies b[i] == c[i] by {
        vstd::seq::axiom_seq_add_index2(a, b, a.len() + i);
        vstd::seq::axiom_seq_add_index2(a, c, a.len() + i);
        assert((a + b)[a.len() + i] == (a + c)[a.len() + i]);
    }
    assert(b =~= c);
}

proof fn lemma_exact_then_piece(s: Seq<char>, p: int, c: Seq<char>)
    requires
        0 <= p <= s.len(),
        suffix_of(s, p) == c,
    ensures
        piece_at(s, p, c),
{
    assert(s.subrange(p, p + c.len()) =~= c);
}

/// Looks for an environment that covers the whole suffix of `v` at `p`.
fn parse_env_exact(v: &Vec<char>, p: usize) -> (r: Option<usize>)
    requires
        p <= v@.len(),
    ensures
        match r {
            Some(k) => 0 <= k < env_list().len()
                && suffix_of(v@, p as int) == env_list()[k as int],
            None => forall|e: Seq<char>|
                env_list().contains(e) ==> suffix_of(v@, p as int) != e,
        },
{
    let envs = envs();
    let mut k: usize = 0;
    while k < envs.len()
        invariant
            k <= envs.len(),
            p <= v@.len(),
            envs@.len() == env_list().len(),
            forall|i: int| 0 <= i < envs@.len() ==> envs@[i]@ == env_list()[i],
            forall|i: int| 0 <= i < k ==> suffix_of(v@, p as int) != env_list()[i],
        decreases envs.len() - k,
    {
        let c = envs[k];
        let n = v.len();
        if piece_matches(v, p, c) && c.unicode_len() == n - p {
            proof {
                lemma_piece_at_end(v@, p as int, c@);
            }
            return Some(k);
        }
        proof {
            if suffix_of(v@, p as int) == env_list()[k as int] {
                lemma_exact_then_piece(v@, p as int, c@);
                assert(false);
            }
        }
        k += 1;
    }
    proof {
        assert forall|e: Seq<char>| env_list().contains(e)
            implies suffix_of(v@, p as int) != e by {
            let i = choose|i: int| 0 <= i < env_list().len() && env_list()[i] == e;
        }
    }
    None
}

/// Looks for an `[os][-env]` decomposition (at least one piece present) of
/// the suffix of `v` at `p`, candidates in list order, an operating system
/// preferred over a bare environment.
fn parse_os_env(v: &Vec<char>, p: usize) -> (r: Option<(Option<usize>, Option<usize>)>)
    requires
        p <= v@.len(),
    ensures
        match r {
            Some((o, e)) => {
                &&& match o {
                    Some(j) => 0 <= j < os_list().len(),
                    None => true,
                }
                &&& match e {
                    Some(k) => 0 <= k < env_list().len(),
                    None => true,
                }
                &&& os_env_decomp(
                    suffix_of(v@, p as int),
                    match o { Some(j) => Some(os_list()[j as int]), None => None },
                    match e { Some(k) => Some(env_list()[k as int]), None => None },
                )
            },
            None => forall|o: Option<Seq<char>>, e: Option<Seq<char>>|
                !os_env_decomp(suffix_of(v@, p as int), o, e),
        },
{
    let ghost suf = suffix_of(v@, p as int);
    let oses = oses();
    let mut j: usize = 0;
    while j < oses.len()
        invariant
            j <= oses.len(),
            p <= v@.len(),
            suf == suffix_of(v@, p as int),
            oses@.len() == os_list().len(),
            forall|i: int| 0 <= i < oses@.len() ==> oses@[i]@ == os_list()[i],
            forall|i: int, e: Option<Seq<char>>| 0 <= i < j ==>
                !os_env_decomp(suf, Some(os_list()[i]), e),
        decreases oses.len() - j,
    {
        let c = oses[j];
        let matched = piece_matches(v, p, c);
        if matched {
            let m = c.unicode_len();
            let n = v.len();
            if m == n - p {
                proof {
                    lemma_piece_at_end(v@, p as int, c@);
                }
                return Some((Some(j), None));
            }
            proof {
                assert(p + m < n);
            }
            if let Some(k) = parse_env_exact(v, p + m + 1) {
                proof {
                    lemma_piece_then_rest(v@, p as int, c@);
                }
                return Some((Some(j), Some(k)));
            }
            proof {
                lemma_piece_then_rest(v@, p as int, c@);
                let ghost rest = suffix_of(v@, p + c@.len() as int + 1);
                assert forall|e: Option<Seq<char>>|
                    !os_env_decomp(suf, Some(os_list()[j as int]), e) by {
                    if os_env_decomp(suf, Some(os_list()[j as int]), e) {
                        match e {
                            Some(z) => {
                                assert(suf == c@ + seq!['-'] + z);
                                assert(suf == c@ + seq!['-'] + rest);
                                lemma_append_cancel(c@ + seq!['-'], z, rest);
                                assert(env_list().contains(z));
                            },
                            None => {
                                assert(suf == c@);
                                assert(suf.len() == c@.len());
                            },
                        }
                    }
                }
            }
        } else {
            proof {
                assert forall|e: Option<Seq<char>>|
                    !os_env_decomp(suf, Some(os_list()[j as int]), e) by {
                    if os_env_decomp(suf, Some(os_list()[j as int]), e) {
                        match e {
                            Some(z) => {
                                lemma_rest_then_piece(v@, p as int, c@, z);
                            },
                            None => {
                                lemma_exact_then_piece(v@, p as int, c@);
                            },
                        }
                    }
                }
            }
        }
        j += 1;
    }
    if let Some(k) = parse_env_exact(v, p) {
        return Some((None, Some(k)));
    }
    proof {
        assert forall|o: Option<Seq<char>>, e: Option<Seq<char>>|
            !os_env_decomp(suf, o, e) by {
            if os_env_decomp(suf, o, e) {
                match o {
                    Some(y) => {
                        let i = choose|i: int|
                            0 <= i < os_list().len() && os_list()[i] == y;
                        assert(!os_env_decomp(suf, Some(os_list()[i]), e));
                    },
                    None => {
                        let z = e->0;
                        assert(suf == z);
                    },
                }
            }
        }
    }
    None
}

/// A partially specified target triple: any of the architecture, the
/// operating system and the environment may be left out.
#[derive(Debug, Clone)]
pub struct PartialTargetTriple {
    pub arch: Option<String>,
    pub os: Option<String>,
    pub env: Option<String>,
}

impl PartialTargetTriple {
    pub open spec fn arch_view(&self) -> Option<Seq<char>> {
        opt_str_view(self.arch)
    }

    pub open spec fn os_view(&self) -> Option<Seq<char>> {
        opt_str_view(self.os)
    }

    pub open spec fn env_view(&self) -> Option<Seq<char>> {
        opt_str_view(self.env)
    }

    /// Parses a partial triple.  The empty name leaves every piece out;
    /// otherwise the name must be a `-`-joined sequence of an optional
    /// known architecture, operating system and environment, in that
    /// order, and the first decomposition in list order is taken.
    pub fn from_str(name: &str) -> (r: Option<PartialTargetTriple>)
        ensures
            match r {
                Some(t) => triple_decomp(name@, t.arch_view(), t.os_view(), t.env_view()),
                None => forall|a: Option<Seq<char>>, o: Option<Seq<char>>, e: Option<Seq<char>>|
                    !triple_decomp(name@, a, o, e),
            },
    {
        let v = chars_of(name);
        if v.len() == 0 {
            let t = PartialTargetTriple { arch: None, os: None, env: None };
            proof {
                assert(joined3(None, None, None) =~= name@);
            }
            return Some(t);
        }
        let archs = archs();
        let mut i: usize = 0;
        while i < archs.len()
            invariant
                i <= archs.len(),
                v@ == name@,
                v@.len() > 0,
                archs@.len() == arch_list().len(),
                forall|t: int| 0 <= t < archs@.len() ==> archs@[t]@ == arch_list()[t],
                forall|t: int, o: Option<Seq<char>>, e: Option<Seq<char>>| 0 <= t < i ==>
                    !triple_decomp(name@, Some(arch_list()[t]), o, e),
            decreases archs.len() - i,
        {
            let c = archs[i];
            let matched = piece_matches(&v, 0, c);
            if matched {
                let m = c.unicode_len();
                if m == v.len() {
                    proof {
                        lemma_piece_at_end(v@, 0, c@);
                        assert(suffix_of(v@, 0) =~= v@);
                    }
                    return Some(PartialTargetTriple {
                        arch: Some(c.to_owned()),
                        os: None,
                        env: None,
                    });
                }
                if let Some((o, e)) = parse_os_env(&v, m + 1) {
                    proof {
                        lemma_piece_then_rest(v@, 0, c@);
                        assert(suffix_of(v@, 0) =~= v@);
                    }
                    let os_s: Option<String> = match o {
                        Some(j) => Some(oses()[j].to_owned()),
                        None => None,
                    };
                    let env_s: Option<String> = match e {
                        Some(k) => Some(envs()[k].to_owned()),
                        None => None,
                    };
                    return Some(PartialTargetTriple {
                        arch: Some(c.to_owned()),
                        os: os_s,
                        env: env_s,
                    });
                }
                proof {
                    lemma_piece_then_rest(v@, 0, c@);
                    assert(suffix_of(v@, 0) =~= v@);
                    let ghost rest = suffix_of(v@, c@.len() as int + 1);
                    assert forall|o: Option<Seq<char>>, e: Option<Seq<char>>|
                        !triple_decomp(name@, Some(arch_list()[i as int]), o, e) by {
                        if triple_decomp(name@, Some(arch_list()[i as int]), o, e) {
                            if o is None && e is None {
                                assert(name@ == c@);
                                assert(name@.len() == c@.len());
                            } else {
                                assert(name@ == c@ + seq!['-'] + joined2(o, e));
                                assert(name@ == c@ + seq!['-'] + rest);
                                lemma_append_cancel(c@ + seq!['-'], joined2(o, e), rest);
                                assert(os_env_decomp(rest, o, e));
                            }
                        }
                    }
                }
            } else {
                proof {
                    assert forall|o: Option<Seq<char>>, e: Option<Seq<char>>|
                        !triple_decomp(name@, Some(arch_list()[i as int]), o, e) by {
                        if triple_decomp(name@, Some(arch_list()[i as int]), o, e) {
                            if o is None && e is None {
                                assert(suffix_of(v@, 0) =~= v@);
                                lemma_exact_then_piece(v@, 0, c@);
                            } else {
                                assert(suffix_of(v@, 0) =~= v@);
                                lemma_rest_then_piece(v@, 0, c@, joined2(o, e));
                            }
                        }
                    }
                }
            }
            i += 1;
        }
        if let Some((o, e)) = parse_os_env(&v, 0) {
            proof {
                assert(suffix_of(v@, 0) =~= v@);
            }
            let os_s: Option<String> = match o {
                Some(j) => Some(oses()[j].to_owned()),
                None => None,
            };
            let env_s: Option<String> = match e {
                Some(k) => Some(envs()[k].to_owned()),
                None => None,
            };
            return Some(PartialTargetTriple { arch: None, os: os_s, env: env_s });
        }
        proof {
            assert(suffix_of(v@, 0) =~= v@);
            assert forall|a: Option<Seq<char>>, o: Option<Seq<char>>, e: Option<Seq<char>>|
                !triple_decomp(name@, a, o, e) by {
            if triple_decomp(name@, a, o, e) {
                match a {
                    Some(x) => {
                        let t = choose|t: int|
                            0 <= t < arch_list().len() && arch_list()[t] == x;
                        assert(!triple_decomp(name@, Some(arch_list()[t]), o, e));
                    },
                    None => {
                        if o is None && e is None {
                            assert(name@ == joined3(a, o, e));
                            assert(name@.len() == 0);
                        } else {
                            assert(!os_env_decomp(suffix_of(v@, 0), o, e));
                        }
                    },
                }
            }
            }
        }
        None
    }

    pub fn has_triple(&self) -> (r: bool)
        ensures
            r == (self.arch is Some || self.os is Some || self.env is Some),
    {
        self.arch.is_some() || self.os.is_some() || self.env.is_some()
    }
}

/// A fully resolved target triple.  Unlike partial triples these are
/// nearly arbitrary strings; they are canonical identifiers.
#[derive(Debug, Clone)]
pub struct TargetTriple(pub String);

impl View for TargetTriple {
    type V = Seq<char>;

    open spec fn view(&self) -> Seq<char> {
        self.0@
    }
}

impl PartialEq for TargetTriple {
    fn eq(&self, other: &TargetTriple) -> (r: bool)
        ensures
            r == (self@ == other@),
    {
        self.0 == other.0
    }
}

impl vstd::std_specs::cmp::PartialEqSpecImpl for TargetTriple {
    open spec fn obeys_eq_spec() -> bool {
        true
    }

    open spec fn eq_spec(&self, other: &TargetTriple) -> bool {
        self@ == other@
    }
}

/// The triple a host reports through its kernel name and machine name,
/// for hosts where that detection is supported.  Android machines alias
/// some of these names and are detected by the caller instead.
pub open spec fn host_triple_spec(sys: Seq<char>, mach: Seq<char>) -> Option<Seq<char>> {
    if sys == "Linux"@ && mach == "x86_64"@ { Some("x86_64-unknown-linux-gnu"@) }
    else if sys == "Linux"@ && mach == "i686"@ { Some("i686-unknown-linux-gnu"@) }
    else if sys == "Linux"@ && mach == "mips"@ { Some("mipsel-unknown-linux-gnu"@) }
    else if sys == "Linux"@ && mach == "mips64"@ { Some("mips64el-unknown-linux-gnuabi64"@) }
    else if sys == "Linux"@ && mach == "arm"@ { Some("arm-unknown-linux-gnueabi"@) }
    else if sys == "Linux"@ && mach == "armv7l"@ { Some("armv7-unknown-linux-gnueabihf"@) }
    else if sys == "Linux"@ && mach == "armv8l"@ { Some("armv7-unknown-linux-gnueabihf"@) }
    else if sys == "Linux"@ && mach == "aarch64"@ { Some("aarch64-unknown-linux-gnu"@) }
    else if sys == "Darwin"@ && mach == "x86_64"@ { Some("x86_64-apple-darwin"@) }
    else if sys == "Darwin"@ && mach == "i686"@ { Some("i686-apple-darwin"@) }
    else if sys == "FreeBSD"@ && mach == "x86_64"@ { Some("x86_64-unknown-freebsd"@) }
    else if sys == "FreeBSD"@ && mach == "i686"@ { Some("i686-unknown-freebsd"@) }
    else if sys == "OpenBSD"@ && mach == "x86_64"@ { Some("x86_64-unknown-openbsd"@) }
    else if sys == "OpenBSD"@ && mach == "i686"@ { Some("i686-unknown-openbsd"@) }
    else if sys == "NetBSD"@ && mach == "x86_64"@ { Some("x86_64-unknown-netbsd"@) }
    else if sys == "NetBSD"@ && mach == "i686"@ { Some("i686-unknown-netbsd"@) }
    else if sys == "DragonFly"@ && mach == "x86_64"@ { Some("x86_64-unknown-dragonfly"@) }
    else { None }
}

impl TargetTriple {
    pub fn from_str(name: &str) -> (r: TargetTriple)
        ensures
            r@ == name@,
    {
        TargetTriple(name.to_owned())
    }

    /// A deep copy whose view is the same.
    pub fn duplicate(&self) -> (r: TargetTriple)
        ensures
            r@ == self@,
    {
        TargetTriple(self.0.clone())
    }

    /// Maps a host's kernel and machine names, as an operating-system
    /// query reports them, to the host's triple.  The query itself is the
    /// caller's concern; this is the decision table.
    pub fn from_host(sysname: &str, machine: &str) -> (r: Option<TargetTriple>)
        ensures
            match r {
                Some(t) => host_triple_spec(sysname@, machine@) == Some(t@),
                None => host_triple_spec(sysname@, machine@) is None,
            },
    {
        let sys_mach: Option<&'static str> = if str_eq_str(sysname, "Linux") {
            if str_eq_str(machine, "x86_64") { Some("x86_64-unknown-linux-gnu") }
            else if str_eq_str(machine, "i686") { Some("i686-unknown-linux-gnu") }
            else if str_eq_str(machine, "mips") { Some("mipsel-unknown-linux-gnu") }
            else if str_eq_str(machine, "mips64") { Some("mips64el-unknown-linux-gnuabi64") }
            else if str_eq_str(machine, "arm") { Some("arm-unknown-linux-gnueabi") }
            else if str_eq_str(machine, "armv7l") { Some("armv7-unknown-linux-gnueabihf") }
            else if str_eq_str(machine, "armv8l") { Some("armv7-unknown-linux-gnueabihf") }
            else if str_eq_str(machine, "aarch64") { Some("aarch64-unknown-linux-gnu") }
            else { None }
        } else if str_eq_str(sysname, "Darwin") {
            if str_eq_str(machine, "x86_64") { Some("x86_64-apple-darwin") }
            else if str_eq_str(machine, "i686") { Some("i686-apple-darwin") }
            else { None }
        } else if str_eq_str(sysname, "FreeBSD") {
            if str_eq_str(machine, "x86_64") { Some("x86_64-unknown-freebsd") }
            else if str_eq_str(machine, "i686") { Some("i686-unknown-freebsd") }
            else { None }
        } else if str_eq_str(sysname, "OpenBSD") {
            if str_eq_str(machine, "x86_64") { Some("x86_64-unknown-openbsd") }
            else if str_eq_str(machine, "i686") { Some("i686-unknown-openbsd") }
            else { None }
        } else if str_eq_str(sysname, "NetBSD") {
            if str_eq_str(machine, "x86_64") { Some("x86_64-unknown-netbsd") }
            else if str_eq_str(machine, "i686") { Some("i686-unknown-netbsd") }
            else { None }
        } else if str_eq_str(sysname, "DragonFly") {
            if str_eq_str(machine, "x86_64") { Some("x86_64-unknown-dragonfly") }
            else { None }
        } else {
            None
        };
        match sys_mach {
            Some(t) => Some(TargetTriple(t.to_owned())),
            None => None,
        }
    }

    /// The host's detected triple when there is one, else the triple the
    /// program was built for.
    pub fn from_host_or_build(host: Option<TargetTriple>, build: TargetTriple) -> (r: TargetTriple)
        ensures
            match host {
                Some(h) => r@ == h@,
                None => r@ == build@,
            },
    {
        match host {
            Some(h) => h,
            None => build,
        }
    }
}

// ---- release channels ----

pub open spec fn is_digit_char(c: char) -> bool {
    '0' <= c && c <= '9'
}

/// An explicit version number: one digit, a dot, one or two digits, a
/// dot, one digit.
pub open spec fn is_version_shape(s: Seq<char>) -> bool {
    ||| (s.len() == 5 && is_digit_char(s[0]) && s[1] == '.' && is_digit_char(s[2])
        && s[3] == '.' && is_digit_char(s[4]))
    ||| (s.len() == 6 && is_digit_char(s[0]) && s[1] == '.' && is_digit_char(s[2])
        && is_digit_char(s[3]) && s[4] == '.' && is_digit_char(s[5]))
}

/// A release channel: a rolling-release name, or an explicit version.
pub open spec fn is_channel_name(s: Seq<char>) -> bool {
    s == "nightly"@ || s == "beta"@ || s == "stable"@ || is_version_shape(s)
}

/// A calendar date as channels carry it: `YYYY-MM-DD`.
pub open spec fn is_date_shape(s: Seq<char>) -> bool {
    &&& s.len() == 10
    &&& is_digit_char(s[0]) && is_digit_char(s[1]) && is_digit_char(s[2]) && is_digit_char(s[3])
    &&& s[4] == '-'
    &&& is_digit_char(s[5]) && is_digit_char(s[6])
    &&& s[7] == '-'
    &&& is_digit_char(s[8]) && is_digit_char(s[9])
}

/// `t` opens with a date piece up to a piece boundary.
pub open spec fn date_leads(t: Seq<char>) -> bool {
    &&& t.len() >= 10
    &&& is_date_shape(t.subrange(0, 10))
    &&& (t.len() == 10 || t[10] == '-')
}

/// `t` opens with a date piece followed by a dash.
pub open spec fn date_dash_leads(t: Seq<char>) -> bool {
    &&& t.len() >= 11
    &&& is_date_shape(t.subrange(0, 10))
    &&& t[10] == '-'
}

/// The decomposition of a partial toolchain name into channel, optional
/// date and optional raw triple text.  A date is taken greedily: a
/// triple-text that itself opens with a date piece always yields the
/// date-bearing decomposition instead, which makes this split unique.
pub open spec fn partial_desc_split(
    name: Seq<char>,
    ch: Seq<char>,
    date: Option<Seq<char>>,
    trip: Option<Seq<char>>,
) -> bool {
    &&& is_channel_name(ch)
    &&& match (date, trip) {
        (None, None) => name == ch,
        (Some(d), None) => is_date_shape(d) && name == ch + seq!['-'] + d,
        (None, Some(t)) => name == ch + seq!['-'] + t && !date_leads(t),
        (Some(d), Some(t)) => is_date_shape(d) && name == ch + seq!['-'] + d + seq!['-'] + t,
    }
}

/// The decomposition of a full toolchain name: channel, optional date,
/// and a required (possibly empty) target text after one more dash.
pub open spec fn desc_split(
    name: Seq<char>,
    ch: Seq<char>,
    date: Option<Seq<char>>,
    target: Seq<char>,
) -> bool {
    &&& is_channel_name(ch)
    &&& match date {
        Some(d) => is_date_shape(d) && name == ch + seq!['-'] + d + seq!['-'] + target,
        None => name == ch + seq!['-'] + target && !date_dash_leads(target),
    }
}

fn digit(c: char) -> (r: bool)
    ensures
        r == is_digit_char(c),
{
    '0' <= c && c <= '9'
}

/// Finds the channel piece at the head of `v`, ending at a dash boundary
/// or at the end.
fn channel_prefix(v: &Vec<char>) -> (r: Option<usize>)
    ensures
        match r {
            Some(k) => k <= v@.len() && is_channel_name(v@.subrange(0, k as int))
                && (k == v@.len() || v@[k as int] == '-'),
            None => forall|ch: Seq<char>| is_channel_name(ch) ==> !piece_at(v@, 0, ch),
        },
{
    let n = v.len();
    if piece_matches(v, 0, "nightly") {
        let k = "nightly".unicode_len();
        return Some(k);
    }
    if piece_matches(v, 0, "beta") {
        let k = "beta".unicode_len();
        return Some(k);
    }
    if piece_matches(v, 0, "stable") {
        let k = "stable".unicode_len();
        return Some(k);
    }
    if n >= 5 && digit(v[0]) && v[1] == '.' && digit(v[2]) && v[3] == '.' && digit(v[4])
        && (n == 5 || v[5] == '-') {
        proof {
            assert(v@.subrange(0, 5).len() == 5);
            assert(v@.subrange(0, 5)[0] == v@[0]);
            assert(v@.subrange(0, 5)[1] == v@[1]);
            assert(v@.subrange(0, 5)[2] == v@[2]);
            assert(v@.subrange(0, 5)[3] == v@[3]);
            assert(v@.subrange(0, 5)[4] == v@[4]);
        }
        return Some(5);
    }
    if n >= 6 && digit(v[0]) && v[1] == '.' && digit(v[2]) && digit(v[3]) && v[4] == '.'
        && digit(v[5]) && (n == 6 || v[6] == '-') {
        proof {
            assert(v@.subrange(0, 6).len() == 6);
            assert(v@.subrange(0, 6)[0] == v@[0]);
            assert(v@.subrange(0, 6)[1] == v@[1]);
            assert(v@.subrange(0, 6)[2] == v@[2]);
            assert(v@.subrange(0, 6)[3] == v@[3]);
            assert(v@.subrange(0, 6)[4] == v@[4]);
            assert(v@.subrange(0, 6)[5] == v@[5]);
        }
        return Some(6);
    }
    proof {
        assert forall|ch: Seq<char>| is_channel_name(ch) implies !piece_at(v@, 0, ch) by {
            if piece_at(v@, 0, ch) {
                assert(v@.subrange(0, ch.len() as int) == ch);
                assert forall|i: int| 0 <= i < ch.len() implies ch[i] == v@[i] by {
                    assert(v@.subrange(0, ch.len() as int)[i] == v@[i]);
                }
                if ch == "nightly"@ || ch == "beta"@ || ch == "stable"@ {
                } else {
                    assert(is_version_shape(ch));
                    if ch.len() == 5 {
                        assert(is_digit_char(v@[0]) && v@[1] == '.' && is_digit_char(v@[2])
                            && v@[3] == '.' && is_digit_char(v@[4]));
                        assert(5 == v@.len() || v@[5] == '-');
                    } else {
                        assert(ch.len() == 6);
                        assert(is_digit_char(v@[0]) && v@[1] == '.' && is_digit_char(v@[2])
                            && is_digit_char(v@[3]) && v@[4] == '.' && is_digit_char(v@[5]));
                        assert(6 == v@.len() || v@[6] == '-');
                    }
                }
            }
        }
    }
    None
}

/// Two channel pieces at the head of the same string are the same piece.
proof fn lemma_channel_unique(s: Seq<char>, ch1: Seq<char>, ch2: Seq<char>)
    requires
        is_channel_name(ch1),
        is_channel_name(ch2),
        piece_at(s, 0, ch1),
        piece_at(s, 0, ch2),
    ensures
        ch1 == ch2,
{
    reveal_strlit("nightly");
    reveal_strlit("beta");
    reveal_strlit("stable");
    assert forall|i: int| 0 <= i < ch1.len() implies ch1[i] == s[i] by {
        assert(s.subrange(0, ch1.len() as int)[i] == s[i]);
    }
    assert forall|i: int| 0 <= i < ch2.len() implies ch2[i] == s[i] by {
        assert(s.subrange(0, ch2.len() as int)[i] == s[i]);
    }
    if ch1.len() == ch2.len() {
        assert(ch1 =~= ch2);
    } else {
        // Distinct lengths: rule every cross pair out through its chars.
        let a = if ch1.len() < ch2.len() { ch1 } else { ch2 };
        let b = if ch1.len() < ch2.len() { ch2 } else { ch1 };
        assert(a.len() < b.len());
        if is_version_shape(a) {
            if is_version_shape(b) {
                assert(a[3] == '.' && is_digit_char(b[3]));
                assert(false);
            } else {
                assert(is_digit_char(a[0]));
                assert(b == "nightly"@ || b == "beta"@ || b == "stable"@);
                assert(false);
            }
        } else {
            if is_version_shape(b) {
                assert(is_digit_char(b[0]));
                assert(false);
            } else {
                assert(false);
            }
        }
    }
}

/// Whether a date piece opens the suffix of `v` at `p`, up to a boundary.
fn date_at(v: &Vec<char>, p: usize) -> (r: bool)
    requires
        p <= v@.len(),
    ensures
        r == date_leads(suffix_of(v@, p as int)),
{
    let ghost suf = suffix_of(v@, p as int);
    let n = v.len();
    proof {
        assert forall|i: int| 0 <= i < suf.len() implies suf[i] == v@[p + i] by {}
        assert(suf.len() == n - p);
    }
    if n - p < 10 {
        return false;
    }
    let shaped = digit(v[p]) && digit(v[p + 1]) && digit(v[p + 2]) && digit(v[p + 3])
        && v[p + 4] == '-' && digit(v[p + 5]) && digit(v[p + 6]) && v[p + 7] == '-'
        && digit(v[p + 8]) && digit(v[p + 9]);
    proof {
        assert forall|i: int| 0 <= i < 10 implies suf.subrange(0, 10)[i] == v@[p + i] by {
            assert(suf.subrange(0, 10)[i] == suf[i]);
        }
        assert(shaped == is_date_shape(suf.subrange(0, 10)));
    }
    if !shaped {
        return false;
    }
    if n - p == 10 {
        true
    } else {
        let r = v[p + 10] == '-';
        proof {
            assert(suf[10] == v@[p + 10]);
        }
        r
    }
}

/// A descriptor of a toolchain whose target triple may be partial or
/// absent: a channel, an optional date, and a partial triple.
#[derive(Debug, Clone)]
pub struct PartialToolchainDesc {
    pub channel: String,
    pub date: Option<String>,
    pub target: PartialTargetTriple,
}

/// A fully resolved toolchain descriptor, fit to name an installation.
#[derive(Debug, Clone)]
pub struct ToolchainDesc {
    pub channel: String,
    pub date: Option<String>,
    pub target: TargetTriple,
}

/// Any decomposition of a partial toolchain name opens with its channel
/// as a piece, and the rest of the name splits off behind it.
proof fn lemma_partial_split_shape(
    name: Seq<char>,
    ch: Seq<char>,
    date: Option<Seq<char>>,
    trip: Option<Seq<char>>,
)
    requires
        partial_desc_split(name, ch, date, trip),
    ensures
        piece_at(name, 0, ch),
        match (date, trip) {
            (None, None) => name == ch,
            (Some(d), None) => suffix_of(name, ch.len() as int + 1) == d,
            (None, Some(t)) => suffix_of(name, ch.len() as int + 1) == t,
            (Some(d), Some(t)) => suffix_of(name, ch.len() as int + 1) == d + seq!['-'] + t,
        },
{
    assert(suffix_of(name, 0) =~= name);
    match (date, trip) {
        (None, None) => {
            lemma_exact_then_piece(name, 0, ch);
        },
        (Some(d), None) => {
            lemma_rest_then_piece(name, 0, ch, d);
        },
        (None, Some(t)) => {
            lemma_rest_then_piece(name, 0, ch, t);
        },
        (Some(d), Some(t)) => {
            assert(name == ch + seq!['-'] + d + seq!['-'] + t);
            assert(ch + seq!['-'] + d + seq!['-'] + t =~= ch + seq!['-'] + (d + seq!['-'] + t));
            lemma_rest_then_piece(name, 0, ch, d + seq!['-'] + t);
        },
    }
}

/// The same for a full toolchain name.
proof fn lemma_desc_split_shape(
    name: Seq<char>,
    ch: Seq<char>,
    date: Option<Seq<char>>,
    target: Seq<char>,
)
    requires
        desc_split(name, ch, date, target),
    ensures
        piece_at(name, 0, ch),
        match date {
            Some(d) => suffix_of(name, ch.len() as int + 1) == d + seq!['-'] + target,
            None => suffix_of(name, ch.len() as int + 1) == target,
        },
{
    assert(suffix_of(name, 0) =~= name);
    match date {
        Some(d) => {
            assert(name == ch + seq!['-'] + d + seq!['-'] + target);
            assert(ch + seq!['-'] + d + seq!['-'] + target
                =~= ch + seq!['-'] + (d + seq!['-'] + target));
            lemma_rest_then_piece(name, 0, ch, d + seq!['-'] + target);
        },
        None => {
            lemma_rest_then_piece(name, 0, ch, target);
        },
    }
}

impl PartialToolchainDesc {
    /// Parses a toolchain name into channel, optional date and optional
    /// partial triple.  The name is valid exactly when it splits behind a
    /// channel and its triple text, if any, is made of known pieces.
    #[verifier::rlimit(80)]
    pub fn from_str(name: &str) -> (r: Result<PartialToolchainDesc, ErrorKind>)
        ensures
            match r {
                Ok(d) => exists|trip: Option<Seq<char>>|
                    #[trigger] partial_desc_split(name@, d.channel@, opt_str_view(d.date), trip)
                        && match trip {
                            Some(t) => triple_decomp(
                                t,
                                d.target.arch_view(),
                                d.target.os_view(),
                                d.target.env_view(),
                            ),
                            None => d.target.arch is None && d.target.os is None
                                && d.target.env is None,
                        },
                Err(e) => {
                    &&& match e {
                        ErrorKind::InvalidToolchainName(bad) => bad@ == name@,
                        _ => false,
                    }
                    &&& forall|ch: Seq<char>, date: Option<Seq<char>>, trip: Option<Seq<char>>|
                        partial_desc_split(name@, ch, date, trip) ==> (trip is Some
                            && forall|a: Option<Seq<char>>, o: Option<Seq<char>>, e2: Option<Seq<char>>|
                                !triple_decomp(trip->0, a, o, e2))
                },
            },
    {
        let v = chars_of(name);
        let n = v.len();
        let kopt = channel_prefix(&v);
        let k = match kopt {
            Some(k) => k,
            None => {
                proof {
                    assert forall|ch: Seq<char>, date: Option<Seq<char>>, trip: Option<Seq<char>>|
                        partial_desc_split(name@, ch, date, trip) implies false by {
                        lemma_partial_split_shape(name@, ch, date, trip);
                    }
                }
                return Err(ErrorKind::InvalidToolchainName(name.to_owned()));
            },
        };
        let ghost chv = v@.subrange(0, k as int);
        proof {
            assert(piece_at(name@, 0, chv));
        }
        let channel = name.substring_char(0, k).to_owned();
        if k == n {
            let d = PartialToolchainDesc {
                channel,
                date: None,
                target: PartialTargetTriple { arch: None, os: None, env: None },
            };
            proof {
                assert(chv =~= name@);
                assert(partial_desc_split(name@, d.channel@, None, None));
            }
            return Ok(d);
        }
        let p = k + 1;
        proof {
            lemma_piece_then_rest(name@, 0, chv);
            assert(suffix_of(name@, 0) =~= name@);
        }
        let ghost rest = suffix_of(name@, p as int);
        if date_at(&v, p) {
            let date_s = name.substring_char(p, p + 10).to_owned();
            let ghost dv = name@.subrange(p as int, p as int + 10);
            proof {
                assert(rest.subrange(0, 10) =~= dv);
            }
            if p + 10 == n {
                proof {
                    assert(dv =~= rest);
                }
                let d = PartialToolchainDesc {
                    channel,
                    date: Some(date_s),
                    target: PartialTargetTriple { arch: None, os: None, env: None },
                };
                proof {
                    assert(partial_desc_split(name@, d.channel@, Some(dv), None));
                }
                return Ok(d);
            }
            proof {
                assert(rest[10] == name@[p + 10]);
                assert(piece_at(name@, p as int, dv));
                lemma_piece_then_rest(name@, p as int, dv);
            }
            let trip_str = name.substring_char(p + 11, n);
            let ghost tv = suffix_of(name@, p as int + 11);
            proof {
                assert(trip_str@ =~= tv);
                assert(name@ =~= chv + seq!['-'] + dv + seq!['-'] + tv);
            }
            match PartialTargetTriple::from_str(trip_str) {
                Some(t) => {
                    let d = PartialToolchainDesc { channel, date: Some(date_s), target: t };
                    proof {
                        assert(partial_desc_split(name@, d.channel@, Some(dv), Some(tv)));
                    }
                    Ok(d)
                },
                None => {
                    proof {
                        assert forall|ch: Seq<char>, date: Option<Seq<char>>, trip: Option<Seq<char>>|
                            partial_desc_split(name@, ch, date, trip) implies (trip is Some
                                && forall|a: Option<Seq<char>>, o: Option<Seq<char>>, e2: Option<Seq<char>>|
                                    !triple_decomp(trip->0, a, o, e2)) by {
                            lemma_partial_split_shape(name@, ch, date, trip);
                            lemma_channel_unique(name@, ch, chv);
                            match (date, trip) {
                                (None, None) => {
                                    assert(name@.len() == k);
                                },
                                (Some(d2), None) => {
                                    assert(rest == d2);
                                    assert(rest.len() == 10);
                                },
                                (None, Some(t2)) => {
                                    assert(rest == t2);
                                    assert(date_leads(t2));
                                },
                                (Some(d2), Some(t2)) => {
                                    assert(rest == d2 + seq!['-'] + t2);
                                    lemma_rest_then_piece(name@, p as int, d2, t2);
                                    assert(d2 =~= dv);
                                    assert(t2 == tv);
                                },
                            }
                        }
                    }
                    Err(ErrorKind::InvalidToolchainName(name.to_owned()))
                },
            }
        } else {
            let trip_str = name.substring_char(p, n);
            proof {
                assert(trip_str@ =~= rest);
            }
            match PartialTargetTriple::from_str(trip_str) {
                Some(t) => {
                    let d = PartialToolchainDesc { channel, date: None, target: t };
                    proof {
                        assert(partial_desc_split(name@, d.channel@, None, Some(rest)));
                    }
                    Ok(d)
                },
                None => {
                    proof {
                        assert forall|ch: Seq<char>, date: Option<Seq<char>>, trip: Option<Seq<char>>|
                            partial_desc_split(name@, ch, date, trip) implies (trip is Some
                                && forall|a: Option<Seq<char>>, o: Option<Seq<char>>, e2: Option<Seq<char>>|
                                    !triple_decomp(trip->0, a, o, e2)) by {
                            lemma_partial_split_shape(name@, ch, date, trip);
                            lemma_channel_unique(name@, ch, chv);
                            match (date, trip) {
                                (None, None) => {
                                    assert(name@.len() == k);
                                },
                                (Some(d2), None) => {
                                    assert(rest == d2);
                                    assert(rest.subrange(0, 10) =~= d2);
                                    assert(date_leads(rest));
                                },
                                (None, Some(t2)) => {
                                    assert(rest == t2);
                                },
                                (Some(d2), Some(t2)) => {
                                    assert(rest == d2 + seq!['-'] + t2);
                                    assert(rest.subrange(0, 10) =~= d2);
                                    assert(rest[10] == (d2 + seq!['-'] + t2)[10]);
                                    assert(date_leads(rest));
                                },
                            }
                        }
                    }
                    Err(ErrorKind::InvalidToolchainName(name.to_owned()))
                },
            }
        }
    }

    /// Fills the missing pieces of the triple from the host's partial
    /// triple.  When this descriptor names an operating system itself,
    /// the host's environment is not inherited, so that naming an OS
    /// without an ABI stays possible.
    pub fn resolve(self, host: &PartialTargetTriple) -> (r: Result<ToolchainDesc, ErrorKind>)
        ensures
            r is Ok <==> (host.arch is Some && host.os is Some),
            r matches Ok(d) ==> {
                let a = if self.target.arch is Some { self.target.arch_view() } else { host.arch_view() };
                let o = if self.target.os is Some { self.target.os_view() } else { host.os_view() };
                let e = if self.target.os is Some { self.target.env_view() } else if self.target.env is Some { self.target.env_view() } else { host.env_view() };
                &&& d.channel@ == self.channel@
                &&& opt_str_view(d.date) == opt_str_view(self.date)
                &&& d.target@ == joined3(a, o, e)
            },
    {
        let (host_arch, host_os) = match (&host.arch, &host.os) {
            (Some(a), Some(o)) => (a, o),
            _ => {
                return Err(ErrorKind::InvalidToolchainName(self.channel));
            },
        };
        let had_os = self.target.os.is_some();
        let arch = match self.target.arch {
            Some(a) => a,
            None => host_arch.clone(),
        };
        let os = match self.target.os {
            Some(o) => o,
            None => host_os.clone(),
        };
        let env: Option<String> = if had_os {
            self.target.env
        } else {
            match self.target.env {
                Some(e) => Some(e),
                None => match &host.env {
                    Some(e) => Some(e.clone()),
                    None => None,
                },
            }
        };
        let mut trip = arch;
        trip.append("-");
        trip.append(os.as_str());
        if let Some(e) = &env {
            trip.append("-");
            trip.append(e.as_str());
        }
        proof {
            reveal_strlit("-");
            assert(seq!['-'] =~= "-"@);
        }
        let d = ToolchainDesc {
            channel: self.channel,
            date: self.date,
            target: TargetTriple(trip),
        };
        proof {
            assert(d.target@ =~= joined3(
                if self.target.arch is Some { self.target.arch_view() } else { host.arch_view() },
                if self.target.os is Some { self.target.os_view() } else { host.os_view() },
                if self.target.os is Some { self.target.env_view() } else if self.target.env is Some { self.target.env_view() } else { host.env_view() },
            ));
        }
        Ok(d)
    }

    /// Whether the name carried any piece of a target triple.
    pub fn has_triple(&self) -> (r: bool)
        ensures
            r == (self.target.arch is Some || self.target.os is Some
                || self.target.env is Some),
    {
        self.target.has_triple()
    }

    /// The printed name: the channel, then each present piece after a
    /// dash, in grammar order.
    pub fn to_name(&self) -> (r: String)
        ensures
            r@ == self.channel@ + dash_opt(opt_str_view(self.date))
                + dash_opt(self.target.arch_view()) + dash_opt(self.target.os_view())
                + dash_opt(self.target.env_view()),
    {
        let mut s = self.channel.clone();
        if let Some(d) = &self.date {
            s.append("-");
            s.append(d.as_str());
        }
        if let Some(a) = &self.target.arch {
            s.append("-");
            s.append(a.as_str());
        }
        if let Some(o) = &self.target.os {
            s.append("-");
            s.append(o.as_str());
        }
        if let Some(e) = &self.target.env {
            s.append("-");
            s.append(e.as_str());
        }
        proof {
            assert(s@ =~= self.channel@ + dash_opt(opt_str_view(self.date))
                + dash_opt(self.target.arch_view()) + dash_opt(self.target.os_view())
                + dash_opt(self.target.env_view()));
        }
        s
    }
}

/// A dash-prefixed optional piece; nothing when the piece is absent.
pub open spec fn dash_opt(o: Option<Seq<char>>) -> Seq<char> {
    match o {
        Some(p) => "-"@ + p,
        None => Seq::empty(),
    }
}

/// The printed form of a toolchain descriptor.
pub open spec fn desc_name_spec(ch: Seq<char>, date: Option<Seq<char>>, target: Seq<char>) -> Seq<char> {
    match date {
        Some(d) => ch + "-"@ + d + "-"@ + target,
        None => ch + "-"@ + target,
    }
}

/// The URL of a channel's release description in the current format is
/// the legacy URL with `.toml` appended.
pub open spec fn manifest_v1_url_spec(
    ch: Seq<char>,
    date: Option<Seq<char>>,
    root: Seq<char>,
    staged: bool,
) -> Seq<char> {
    match date {
        Some(d) => root + "/"@ + d + "/channel-rust-"@ + ch,
        None => if staged {
            root + "/staging/channel-rust-"@ + ch
        } else {
            root + "/channel-rust-"@ + ch
        },
    }
}

impl ToolchainDesc {
    /// Parses a fully-qualified toolchain name: a channel, an optional
    /// date, then one more dash and the (nearly arbitrary) target text.
    pub fn from_str(name: &str) -> (r: Result<ToolchainDesc, ErrorKind>)
        ensures
            match r {
                Ok(d) => desc_split(name@, d.channel@, opt_str_view(d.date), d.target@),
                Err(e) => {
                    &&& match e {
                        ErrorKind::InvalidToolchainName(bad) => bad@ == name@,
                        _ => false,
                    }
                    &&& forall|ch: Seq<char>, date: Option<Seq<char>>, t: Seq<char>|
                        !desc_split(name@, ch, date, t)
                },
            },
    {
        let v = chars_of(name);
        let n = v.len();
        let kopt = channel_prefix(&v);
        let k = match kopt {
            Some(k) => k,
            None => {
                proof {
                    assert forall|ch: Seq<char>, date: Option<Seq<char>>, t: Seq<char>|
                        !desc_split(name@, ch, date, t) by {
                        if desc_split(name@, ch, date, t) {
                            lemma_desc_split_shape(name@, ch, date, t);
                        }
                    }
                }
                return Err(ErrorKind::InvalidToolchainName(name.to_owned()));
            },
        };
        let ghost chv = v@.subrange(0, k as int);
        let channel = name.substring_char(0, k).to_owned();
        if k == n {
            proof {
                assert forall|ch: Seq<char>, date: Option<Seq<char>>, t: Seq<char>|
                    !desc_split(name@, ch, date, t) by {
                    if desc_split(name@, ch, date, t) {
                        lemma_desc_split_shape(name@, ch, date, t);
                        lemma_channel_unique(name@, ch, chv);
                        assert(name@.len() > k);
                    }
                }
            }
            return Err(ErrorKind::InvalidToolchainName(name.to_owned()));
        }
        let p = k + 1;
        proof {
            lemma_piece_then_rest(name@, 0, chv);
            assert(suffix_of(name@, 0) =~= name@);
        }
        let ghost rest = suffix_of(name@, p as int);
        if date_at(&v, p) && p + 10 < n {
            let date_s = name.substring_char(p, p + 10).to_owned();
            let ghost dv = name@.subrange(p as int, p as int + 10);
            proof {
                assert(rest.subrange(0, 10) =~= dv);
                assert(rest[10] == name@[p + 10]);
                assert(piece_at(name@, p as int, dv));
                lemma_piece_then_rest(name@, p as int, dv);
            }
            let target_str = name.substring_char(p + 11, n);
            let ghost tv = suffix_of(name@, p as int + 11);
            proof {
                assert(target_str@ =~= tv);
                assert(name@ =~= chv + "-"@ + dv + "-"@ + tv) by {
                    reveal_strlit("-");
                    assert("-"@ =~= seq!['-']);
                }
            }
            let d = ToolchainDesc {
                channel,
                date: Some(date_s),
                target: TargetTriple(target_str.to_owned()),
            };
            proof {
                reveal_strlit("-");
                assert("-"@ =~= seq!['-']);
                assert(desc_split(name@, d.channel@, Some(dv), tv));
            }
            Ok(d)
        } else {
            let target_str = name.substring_char(p, n);
            let d = ToolchainDesc {
                channel,
                date: None,
                target: TargetTriple(target_str.to_owned()),
            };
            proof {
                reveal_strlit("-");
                assert("-"@ =~= seq!['-']);
                assert(target_str@ =~= rest);
                if date_dash_leads(rest) {
                    assert(date_leads(rest));
                    assert(rest.len() >= 11);
                    assert(false);
                }
                assert(desc_split(name@, d.channel@, None, rest));
            }
            Ok(d)
        }
    }

    /// The URL of the channel's legacy release listing under `dist_root`.
    /// Dated channels have no staged variant.
    pub fn manifest_v1_url(&self, dist_root: &str, staged: bool) -> (r: String)
        requires
            !(self.date is Some && staged),
        ensures
            r@ == manifest_v1_url_spec(self.channel@, opt_str_view(self.date), dist_root@, staged),
    {
        let mut url = dist_root.to_owned();
        match &self.date {
            Some(d) => {
                url.append("/");
                url.append(d.as_str());
                url.append("/channel-rust-");
            },
            None => {
                if staged {
                    url.append("/staging/channel-rust-");
                } else {
                    url.append("/channel-rust-");
                }
            },
        }
        url.append(self.channel.as_str());
        url
    }

    /// The URL of the channel's release description in the current format.
    pub fn manifest_v2_url(&self, dist_root: &str, staged: bool) -> (r: String)
        requires
            !(self.date is Some && staged),
        ensures
            r@ == manifest_v1_url_spec(self.channel@, opt_str_view(self.date), dist_root@, staged)
                + ".toml"@,
    {
        let mut url = self.manifest_v1_url(dist_root, staged);
        url.append(".toml");
        url
    }

    /// Either the channel alone or `channel-date`.
    pub fn manifest_name(&self) -> (r: String)
        ensures
            match self.date {
                Some(d) => r@ == self.channel@ + "-"@ + d@,
                None => r@ == self.channel@,
            },
    {
        match &self.date {
            Some(d) => {
                let mut s = self.channel.clone();
                s.append("-");
                s.append(d.as_str());
                s
            },
            None => self.channel.clone(),
        }
    }

    /// The directory of the channel's packages under `dist_root`.
    pub fn package_dir(&self, dist_root: &str) -> (r: String)
        ensures
            match self.date {
                Some(d) => r@ == dist_root@ + "/"@ + d@,
                None => r@ == dist_root@,
            },
    {
        match &self.date {
            Some(d) => {
                let mut s = dist_root.to_owned();
                s.append("/");
                s.append(d.as_str());
                s
            },
            None => dist_root.to_owned(),
        }
    }

    /// The printed name: `channel[-date]-target`.
    pub fn to_name(&self) -> (r: String)
        ensures
            r@ == desc_name_spec(self.channel@, opt_str_view(self.date), self.target@),
    {
        let mut s = self.channel.clone();
        if let Some(d) = &self.date {
            s.append("-");
            s.append(d.as_str());
        }
        s.append("-");
        s.append(self.target.0.as_str());
        s
    }

    /// The printed name, marked `(tracking)` when the descriptor follows
    /// a rolling release rather than a dated one.
    pub fn full_spec(&self) -> (r: String)
        ensures
            match self.date {
                Some(_) => r@ == desc_name_spec(self.channel@, opt_str_view(self.date), self.target@),
                None => r@ == desc_name_spec(self.channel@, opt_str_view(self.date), self.target@)
                    + " (tracking)"@,
            },
    {
        let mut s = self.to_name();
        if self.date.is_none() {
            s.append(" (tracking)");
        }
        s
    }

    /// Whether the descriptor follows a rolling-release channel.
    pub fn is_tracking(&self) -> (r: bool)
        ensures
            r == ((self.channel@ == "nightly"@ || self.channel@ == "beta"@
                || self.channel@ == "stable"@) && self.date is None),
    {
        let rolling = string_eq_str(&self.channel, "nightly")
            || string_eq_str(&self.channel, "beta")
            || string_eq_str(&self.channel, "stable");
        rolling && self.date.is_none()
    }
}

/// Every piece a partial triple may be made of has at least one
/// character.
proof fn lemma_known_pieces_nonempty()
    ensures
        forall|i: int| 0 <= i < arch_list().len() ==> (#[trigger] arch_list()[i]).len() > 0,
        forall|i: int| 0 <= i < os_list().len() ==> (#[trigger] os_list()[i]).len() > 0,
        forall|i: int| 0 <= i < env_list().len() ==> (#[trigger] env_list()[i]).len() > 0,
{
    reveal_strlit("i386");
    reveal_strlit("i586");
    reveal_strlit("i686");
    reveal_strlit("x86_64");
    reveal_strlit("arm");
    reveal_strlit("armv7");
    reveal_strlit("armv7s");
    reveal_strlit("aarch64");
    reveal_strlit("mips");
    reveal_strlit("mipsel");
    reveal_strlit("mips64");
    reveal_strlit("mips64el");
    reveal_strlit("powerpc");
    reveal_strlit("powerpc64");
    reveal_strlit("powerpc64le");
    reveal_strlit("s390x");
    reveal_strlit("pc-windows");
    reveal_strlit("unknown-linux");
    reveal_strlit("apple-darwin");
    reveal_strlit("unknown-netbsd");
    reveal_strlit("apple-ios");
    reveal_strlit("linux");
    reveal_strlit("rumprun-netbsd");
    reveal_strlit("unknown-freebsd");
    reveal_strlit("gnu");
    reveal_strlit("msvc");
    reveal_strlit("gnueabi");
    reveal_strlit("gnueabihf");
    reveal_strlit("gnuabi64");
    reveal_strlit("androideabi");
    reveal_strlit("android");
    reveal_strlit("musl");
    assert forall|i: int| 0 <= i < arch_list().len()
        implies (#[trigger] arch_list()[i]).len() > 0 by {
        if i == 0 { assert(arch_list()[0].len() == 4); }
        else if i == 1 { assert(arch_list()[1].len() == 4); }
        else if i == 2 { assert(arch_list()[2].len() == 4); }
        else if i == 3 { assert(arch_list()[3].len() == 6); }
        else if i == 4 { assert(arch_list()[4].len() == 3); }
        else if i == 5 { assert(arch_list()[5].len() == 5); }
        else if i == 6 { assert(arch_list()[6].len() == 6); }
        else if i == 7 { assert(arch_list()[7].len() == 7); }
        else if i == 8 { assert(arch_list()[8].len() == 4); }
        else if i == 9 { assert(arch_list()[9].len() == 6); }
        else if i == 10 { assert(arch_list()[10].len() == 6); }
        else if i == 11 { assert(arch_list()[11].len() == 8); }
        else if i == 12 { assert(arch_list()[12].len() == 7); }
        else if i == 13 { assert(arch_list()[13].len() == 9); }
        else if i == 14 { assert(arch_list()[14].len() == 11); }
        else { assert(arch_list()[15].len() == 5); }
    }
    assert forall|i: int| 0 <= i < os_list().len()
        implies (#[trigger] os_list()[i]).len() > 0 by {
        if i == 0 { assert(os_list()[0].len() == 10); }
        else if i == 1 { assert(os_list()[1].len() == 13); }
        else if i == 2 { assert(os_list()[2].len() == 12); }
        else if i == 3 { assert(os_list()[3].len() == 14); }
        else if i == 4 { assert(os_list()[4].len() == 9); }
        else if i == 5 { assert(os_list()[5].len() == 5); }
        else if i == 6 { assert(os_list()[6].len() == 14); }
        else { assert(os_list()[7].len() == 15); }
    }
    assert forall|i: int| 0 <= i < env_list().len()
        implies (#[trigger] env_list()[i]).len() > 0 by {
        if i == 0 { assert(env_list()[0].len() == 3); }
        else if i == 1 { assert(env_list()[1].len() == 4); }
        else if i == 2 { assert(env_list()[2].len() == 7); }
        else if i == 3 { assert(env_list()[3].len() == 9); }
        else if i == 4 { assert(env_list()[4].len() == 8); }
        else if i == 5 { assert(env_list()[5].len() == 11); }
        else if i == 6 { assert(env_list()[6].len() == 7); }
        else { assert(env_list()[7].len() == 4); }
    }
}

/// An empty name decomposes only with every piece absent.
proof fn lemma_empty_triple_decomp(a: Option<Seq<char>>, o: Option<Seq<char>>, e: Option<Seq<char>>)
    requires
        triple_decomp(Seq::empty(), a, o, e),
    ensures
        a is None && o is None && e is None,
{
    lemma_known_pieces_nonempty();
    if a is Some || o is Some || e is Some {
        assert(joined3(a, o, e).len() > 0) by {
            match a {
                Some(x) => {
                    let i = choose|i: int| 0 <= i < arch_list().len() && arch_list()[i] == x;
                    assert(x.len() > 0);
                    if o is None && e is None {
                    } else {
                        assert(joined3(a, o, e) == x + seq!['-'] + joined2(o, e));
                    }
                },
                None => {
                    match o {
                        Some(y) => {
                            let i = choose|i: int| 0 <= i < os_list().len() && os_list()[i] == y;
                            assert(y.len() > 0);
                        },
                        None => {
                            let z = e->0;
                            let i = choose|i: int| 0 <= i < env_list().len() && env_list()[i] == z;
                            assert(z.len() > 0);
                        },
                    }
                },
            }
        }
    }
}

/// A toolchain name has at most one canonical split.
proof fn lemma_partial_split_unique(
    name: Seq<char>,
    ch1: Seq<char>,
    d1: Option<Seq<char>>,
    t1: Option<Seq<char>>,
    ch2: Seq<char>,
    d2: Option<Seq<char>>,
    t2: Option<Seq<char>>,
)
    requires
        partial_desc_split(name, ch1, d1, t1),
        partial_desc_split(name, ch2, d2, t2),
    ensures
        ch1 == ch2,
        d1 == d2,
        t1 == t2,
{
    lemma_partial_split_shape(name, ch1, d1, t1);
    lemma_partial_split_shape(name, ch2, d2, t2);
    lemma_channel_unique(name, ch1, ch2);
    let p = ch1.len() as int + 1;
    if d1 is None && t1 is None {
        // name == ch1, so no other form leaves room for a dash.
        match (d2, t2) {
            (None, None) => {},
            (Some(d), None) => { assert(name.len() > ch2.len()); },
            (None, Some(t)) => { assert(name.len() > ch2.len()); },
            (Some(d), Some(t)) => { assert(name.len() > ch2.len()); },
        }
    } else if d2 is None && t2 is None {
        assert(name.len() > ch1.len());
    } else {
        let suf = suffix_of(name, p);
        match (d1, t1) {
            (Some(da), None) => {
                match (d2, t2) {
                    (Some(db), None) => { assert(da == db); },
                    (None, Some(tb)) => {
                        // A bare date-shaped suffix is a date lead.
                        assert(suf == da);
                        assert(suf.subrange(0, 10) =~= da);
                        assert(date_leads(suf));
                        assert(suf == tb);
                    },
                    (Some(db), Some(tb)) => {
                        assert(suf == da);
                        assert(suf == db + seq!['-'] + tb);
                        assert(suf.len() == 10);
                        assert(suf.len() == 11 + tb.len());
                    },
                    (None, None) => {},
                }
            },
            (None, Some(ta)) => {
                assert(suf == ta);
                assert(!date_leads(ta));
                match (d2, t2) {
                    (Some(db), None) => {
                        assert(suf == db);
                        assert(suf.subrange(0, 10) =~= db);
                        assert(date_leads(suf));
                    },
                    (None, Some(tb)) => { assert(ta == tb); },
                    (Some(db), Some(tb)) => {
                        assert(suf == db + seq!['-'] + tb);
                        assert(suf.subrange(0, 10) =~= db);
                        assert(suf[10] == (db + seq!['-'] + tb)[10]);
                        assert(date_leads(suf));
                    },
                    (None, None) => {},
                }
            },
            (Some(da), Some(ta)) => {
                assert(suf == da + seq!['-'] + ta);
                match (d2, t2) {
                    (Some(db), None) => {
                        assert(suf == db);
                        assert(suf.len() == 10);
                        assert(suf.len() == 11 + ta.len());
                    },
                    (None, Some(tb)) => {
                        assert(suf == tb);
                        assert(!date_leads(tb));
                        assert(suf.subrange(0, 10) =~= da);
                        assert(suf[10] == (da + seq!['-'] + ta)[10]);
                        assert(date_leads(suf));
                    },
                    (Some(db), Some(tb)) => {
                        assert(suf == db + seq!['-'] + tb);
                        assert(suf.subrange(0, 10) =~= da);
                        assert(suf.subrange(0, 10) =~= db);
                        assert(da == db);
                        lemma_append_cancel(da + seq!['-'], ta, tb);
                    },
                    (None, None) => {},
                }
            },
            (None, None) => {},
        }
    }
}

/// Checks that a name is a bare channel, with no target triple pieces.
pub fn validate_channel_name(name: &str) -> (r: Result<(), ErrorKind>)
    ensures
        r is Ok <==> exists|ch: Seq<char>, date: Option<Seq<char>>, trip: Option<Seq<char>>|
            #[trigger] partial_desc_split(name@, ch, date, trip)
                && match trip {
                    Some(t) => triple_decomp(t, None, None, None),
                    None => true,
                },
        r matches Err(e) ==> match e {
            ErrorKind::InvalidToolchainName(bad) => bad@ == name@,
            ErrorKind::TargetTripleInChannelName(bad) => bad@ == name@,
            _ => false,
        },
{
    let toolchain = match PartialToolchainDesc::from_str(name) {
        Ok(t) => t,
        Err(e) => {
            proof {
                assert forall|ch: Seq<char>, date: Option<Seq<char>>, trip: Option<Seq<char>>|
                    !(partial_desc_split(name@, ch, date, trip)
                        && match trip {
                            Some(t) => triple_decomp(t, None, None, None),
                            None => true,
                        }) by {
                    if partial_desc_split(name@, ch, date, trip) {
                        match trip {
                            Some(t) => {},
                            None => {},
                        }
                    }
                }
            }
            return Err(e);
        },
    };
    if toolchain.has_triple() {
        proof {
            let (ch1, d1, t1) = choose|ch1: Seq<char>, d1: Option<Seq<char>>, t1: Option<
                Seq<char>,
            >|
                #[trigger] partial_desc_split(name@, ch1, d1, t1) && match t1 {
                    Some(t) => triple_decomp(
                        t,
                        toolchain.target.arch_view(),
                        toolchain.target.os_view(),
                        toolchain.target.env_view(),
                    ),
                    None => toolchain.target.arch is None && toolchain.target.os is None
                        && toolchain.target.env is None,
                };
            assert forall|ch: Seq<char>, date: Option<Seq<char>>, trip: Option<Seq<char>>|
                !(#[trigger] partial_desc_split(name@, ch, date, trip)
                    && match trip {
                        Some(t) => triple_decomp(t, None, None, None),
                        None => true,
                    }) by {
                if partial_desc_split(name@, ch, date, trip) {
                    lemma_partial_split_unique(name@, ch, date, trip, ch1, d1, t1);
                    match trip {
                        Some(t) => {
                            if triple_decomp(t, None, None, None) {
                                // The triple text is empty, yet it also
                                // decomposes into the parsed pieces, of
                                // which at least one is present.
                                assert(t == joined3(None, None, None));
                                assert(t =~= Seq::<char>::empty());
                                lemma_empty_triple_decomp(
                                    toolchain.target.arch_view(),
                                    toolchain.target.os_view(),
                                    toolchain.target.env_view(),
                                );
                            }
                        },
                        None => {},
                    }
                }
            }
        }
        Err(ErrorKind::TargetTripleInChannelName(name.to_owned()))
    } else {
        proof {
            let (ch1, d1, t1) = choose|ch1: Seq<char>, d1: Option<Seq<char>>, t1: Option<
                Seq<char>,
            >|
                #[trigger] partial_desc_split(name@, ch1, d1, t1) && match t1 {
                    Some(t) => triple_decomp(
                        t,
                        toolchain.target.arch_view(),
                        toolchain.target.os_view(),
                        toolchain.target.env_view(),
                    ),
                    None => toolchain.target.arch is None && toolchain.target.os is None
                        && toolchain.target.env is None,
                };
            match t1 {
                Some(t) => {
                    assert(triple_decomp(t, None, None, None));
                },
                None => {},
            }
            assert(partial_desc_split(name@, ch1, d1, t1) && match t1 {
                Some(t) => triple_decomp(t, None, None, None),
                None => true,
            });
        }
        Ok(())
    }
}

/// A legacy-format release listing: installer file names, one per
/// line, already split by the caller, together with the directory they
/// are relative to.
#[derive(Debug)]
pub struct Manifest {
    pub lines: Vec<String>,
    pub root: String,
}

/// Whether a listing line offers `package` for a target suffix.
pub open spec fn v1_line_matches(line: Seq<char>, package: Seq<char>, suffix: Seq<char>) -> bool {
    crate::strutil::seq_starts_with(line, package) && crate::strutil::seq_ends_with(line, suffix)
}

impl Manifest {
    /// The URL of `package` for a target, under the listing's root: the
    /// first line that opens with the package name and closes with the
    /// target-and-extension suffix.
    pub fn package_url(&self, package: &str, target_triple: &str, ext: &str) -> (r: Option<String>)
        ensures
            match r {
                Some(u) => exists|i: int| 0 <= i < self.lines@.len()
                    && v1_line_matches(#[trigger] self.lines@[i]@, package@, target_triple@ + ext@)
                    && u@ == self.root@ + "/"@ + self.lines@[i]@
                    && (forall|j: int| 0 <= j < i
                        ==> !v1_line_matches(#[trigger] self.lines@[j]@, package@,
                            target_triple@ + ext@)),
                None => forall|i: int| 0 <= i < self.lines@.len()
                    ==> !v1_line_matches(#[trigger] self.lines@[i]@, package@, target_triple@ + ext@),
            },
    {
        let mut suffix = target_triple.to_owned();
        suffix.append(ext);
        let mut i: usize = 0;
        while i < self.lines.len()
            invariant
                i <= self.lines@.len(),
                suffix@ == target_triple@ + ext@,
                forall|j: int| 0 <= j < i
                    ==> !v1_line_matches(#[trigger] self.lines@[j]@, package@, target_triple@ + ext@),
            decreases self.lines@.len() - i,
        {
            let line = &self.lines[i];
            if crate::strutil::str_starts_with(line.as_str(), package)
                && crate::strutil::str_ends_with(line.as_str(), suffix.as_str()) {
                let mut u = self.root.clone();
                u.append("/");
                u.append(line.as_str());
                return Some(u);
            }
            i += 1;
        }
        None
    }
}

} // verus!
