//! The download cache's verified logic: streaming-checksum verification
//! against advertised hashes, reuse of already-fetched content, the
//! update-hash short circuit, and the small parsers the transfer layer
//! feeds (a content-length header line).  The transfer itself is its
//! caller's concern; every decision about what was transferred is made
//! here.

use vstd::prelude::*;
use sha2::Digest;
use crate::errors::ErrorKind;
use crate::notifications::Notification;

verus! {

/// The digest of a byte sequence, a function of the bytes alone; the
/// wrapper below relates it to what the hashing crate computes.
pub uninterp spec fn sha256_of(data: Seq<u8>) -> Seq<u8>;

/// Relies on Sha256::digest of the hashing crate: the 32-byte digest of
/// the input, a function of the input alone.
#[verifier::external_body]
fn sha256_digest(data: &Vec<u8>) -> (r: Vec<u8>)
    ensures
        r@ == sha256_of(data@),
        r@.len() == 32,
{
    sha2::Sha256::digest(data.as_slice()).to_vec()
}

/// The lower-case hexadecimal digit of a value below 16.
pub open spec fn hex_digit(n: u8) -> char {
    if n == 0 { '0' } else if n == 1 { '1' } else if n == 2 { '2' } else if n == 3 { '3' }
    else if n == 4 { '4' } else if n == 5 { '5' } else if n == 6 { '6' } else if n == 7 { '7' }
    else if n == 8 { '8' } else if n == 9 { '9' } else if n == 10 { 'a' } else if n == 11 { 'b' }
    else if n == 12 { 'c' } else if n == 13 { 'd' } else if n == 14 { 'e' } else { 'f' }
}

/// The lower-case hexadecimal rendering of bytes, two digits per byte.
pub open spec fn hex_of(b: Seq<u8>) -> Seq<char> {
    Seq::new(b.len() * 2, |i: int| if i % 2 == 0 {
        hex_digit(b[i / 2] / 16)
    } else {
        hex_digit(b[i / 2] % 16)
    })
}

fn hex_digit_str(n: u8) -> (s: &'static str)
    requires
        n < 16,
    ensures
        s@.len() == 1,
        s@[0] == hex_digit(n),
{
    proof {
        reveal_strlit("0");
        reveal_strlit("1");
        reveal_strlit("2");
        reveal_strlit("3");
        reveal_strlit("4");
        reveal_strlit("5");
        reveal_strlit("6");
        reveal_strlit("7");
        reveal_strlit("8");
        reveal_strlit("9");
        reveal_strlit("a");
        reveal_strlit("b");
        reveal_strlit("c");
        reveal_strlit("d");
        reveal_strlit("e");
        reveal_strlit("f");
    }
    if n == 0 { "0" } else if n == 1 { "1" } else if n == 2 { "2" } else if n == 3 { "3" }
    else if n == 4 { "4" } else if n == 5 { "5" } else if n == 6 { "6" } else if n == 7 { "7" }
    else if n == 8 { "8" } else if n == 9 { "9" } else if n == 10 { "a" } else if n == 11 { "b" }
    else if n == 12 { "c" } else if n == 13 { "d" } else if n == 14 { "e" } else { "f" }
}

/// Renders bytes as lower-case hexadecimal.
pub fn hex_encode(b: &Vec<u8>) -> (r: String)
    ensures
        r@ == hex_of(b@),
{
    let mut s = String::new();
    let mut i: usize = 0;
    while i < b.len()
        invariant
            i <= b@.len(),
            s@.len() == 2 * i,
            forall|j: int| 0 <= j < 2 * i ==> s@[j] == hex_of(b@)[j],
        decreases b@.len() - i,
    {
        let byte = b[i];
        let hi = byte / 16;
        let lo = byte % 16;
        let ghost before = s@;
        s.append(hex_digit_str(hi));
        s.append(hex_digit_str(lo));
        proof {
            assert forall|j: int| 0 <= j < 2 * (i + 1) implies s@[j] == hex_of(b@)[j] by {
                if j < 2 * i {
                    assert(s@[j] == before[j]);
                } else if j == 2 * i {
                    assert(s@[j] == hex_digit(b@[i as int] / 16));
                } else {
                    assert(s@[j] == hex_digit(b@[i as int] % 16));
                }
            }
        }
        i += 1;
    }
    proof {
        assert(s@ =~= hex_of(b@));
    }
    s
}

/// The hexadecimal digest of a file's contents.
pub fn file_hash(data: &Vec<u8>) -> (r: String)
    ensures
        r@ == hex_of(sha256_of(data@)),
{
    let digest = sha256_digest(data);
    hex_encode(&digest)
}

/// Verifies fetched bytes against the hash the server advertised for
/// them: a mismatch is a hard failure carrying both values.
pub fn verify_checksum(url: &String, expected: &String, data: &Vec<u8>) -> (r: Result<
    (),
    ErrorKind,
>)
    ensures
        r is Ok <==> hex_of(sha256_of(data@)) == expected@,
        r matches Err(e) ==> match e {
            ErrorKind::ChecksumFailed { url: u, expected: x, calculated: c } => u@ == url@
                && x@ == expected@ && c@ == hex_of(sha256_of(data@)),
            _ => false,
        },
{
    let calculated = file_hash(data);
    if crate::strutil::str_eq_str(calculated.as_str(), expected.as_str()) {
        Ok(())
    } else {
        Err(ErrorKind::ChecksumFailed {
            url: url.clone(),
            expected: expected.clone(),
            calculated,
        })
    }
}

/// Whether a cached file can be reused for a request with this hash:
/// exactly when its contents still match.
pub fn cached_file_usable(cached: &Vec<u8>, hash: &String) -> (r: bool)
    ensures
        r == (hex_of(sha256_of(cached@)) == hash@),
{
    let calculated = file_hash(cached);
    crate::strutil::str_eq_str(calculated.as_str(), hash.as_str())
}

/// The update-hash short circuit: when the recorded hash of the last
/// update already equals the server's, there is nothing to fetch.
pub fn update_hash_matches(recorded: &Option<String>, remote: &String) -> (r: bool)
    ensures
        r == (recorded matches Some(h) && h@ == remote@),
{
    match recorded {
        Some(h) => crate::strutil::str_eq_str(h.as_str(), remote.as_str()),
        None => false,
    }
}

/// What a request against the content cache should do: reuse a cached
/// file only when it still hashes right; a stale cached file is
/// discarded and fetched again.
pub fn cache_decision(cached: &Option<Vec<u8>>, hash: &String, notifications: &mut Vec<Notification>) -> (reuse: bool)
    ensures
        reuse ==> (cached matches Some(data) && hex_of(sha256_of(data@)) == hash@),
        !reuse ==> match cached {
            Some(data) => hex_of(sha256_of(data@)) != hash@,
            None => true,
        },
{
    match cached {
        Some(data) => {
            if cached_file_usable(data, hash) {
                notifications.push(Notification::FileAlreadyDownloaded);
                true
            } else {
                notifications.push(Notification::CachedFileChecksumFailed);
                false
            }
        },
        None => false,
    }
}

/// The value of a decimal digit string.
pub open spec fn dec_value(s: Seq<char>) -> int
    decreases s.len(),
{
    if s.len() == 0 {
        0
    } else {
        dec_value(s.drop_last()) * 10 + (s.last() as int - '0' as int)
    }
}

pub open spec fn all_digits(s: Seq<char>) -> bool {
    forall|i: int| 0 <= i < s.len() ==> '0' <= #[trigger] s[i] <= '9'
}

/// Parses a non-empty decimal digit string that fits a 64-bit count.
pub fn parse_u64(s: &str) -> (r: Option<u64>)
    ensures
        r matches Some(v) ==> s@.len() > 0 && all_digits(s@) && v == dec_value(s@),
        r is None ==> s@.len() == 0 || !all_digits(s@) || dec_value(s@) > u64::MAX,
{
    let n = s.unicode_len();
    if n == 0 {
        return None;
    }
    let mut value: u64 = 0;
    let mut i: usize = 0;
    while i < n
        invariant
            i <= n,
            n == s@.len(),
            all_digits(s@.subrange(0, i as int)),
            value == dec_value(s@.subrange(0, i as int)),
        decreases n - i,
    {
        let c = s.get_char(i);
        if !('0' <= c && c <= '9') {
            proof {
                assert(s@[i as int] == c);
                assert(!all_digits(s@));
            }
            return None;
        }
        let d = (c as u32 - '0' as u32) as u64;
        proof {
            assert(s@.subrange(0, i + 1).drop_last() =~= s@.subrange(0, i as int));
            assert(s@.subrange(0, i + 1).last() == s@[i as int]);
        }
        if value > (u64::MAX - d) / 10 {
            proof {
                lemma_dec_value_monotone(s@, i + 1);
                assert(dec_value(s@.subrange(0, i + 1)) > u64::MAX);
            }
            return None;
        }
        value = value * 10 + d;
        proof {
            assert(all_digits(s@.subrange(0, i + 1)));
        }
        i += 1;
    }
    proof {
        assert(s@.subrange(0, n as int) =~= s@);
    }
    Some(value)
}

/// A digit string's value is never negative.
proof fn lemma_dec_value_nonneg(s: Seq<char>)
    requires
        all_digits(s),
    ensures
        dec_value(s) >= 0,
    decreases s.len(),
{
    if s.len() > 0 {
        assert(all_digits(s.drop_last())) by {
            assert forall|j: int| 0 <= j < s.len() - 1
                implies '0' <= #[trigger] s.drop_last()[j] <= '9' by {
                assert(s.drop_last()[j] == s[j]);
            }
        }
        lemma_dec_value_nonneg(s.drop_last());
        assert('0' <= s.last() <= '9');
    }
}

/// A digit string's value only grows as the string extends.
proof fn lemma_dec_value_monotone(s: Seq<char>, i: int)
    requires
        0 < i <= s.len(),
        all_digits(s.subrange(0, i)),
    ensures
        dec_value(s) >= dec_value(s.subrange(0, i)) || !all_digits(s),
    decreases s.len() - i,
{
    if i == s.len() {
        assert(s.subrange(0, i) =~= s);
    } else {
        if all_digits(s) {
            assert(all_digits(s.subrange(0, i + 1))) by {
                assert forall|j: int| 0 <= j < i + 1
                    implies '0' <= #[trigger] s.subrange(0, i + 1)[j] <= '9' by {
                    assert(s.subrange(0, i + 1)[j] == s[j]);
                }
            }
            assert(s.subrange(0, i + 1).drop_last() =~= s.subrange(0, i));
            assert(s.subrange(0, i + 1).last() == s[i]);
            assert('0' <= s[i] <= '9');
            lemma_dec_value_nonneg(s.subrange(0, i));
            assert(dec_value(s.subrange(0, i + 1)) >= dec_value(s.subrange(0, i)));
            lemma_dec_value_monotone(s, i + 1);
        }
    }
}

/// A trailing-whitespace character of a header line.
pub open spec fn is_line_ws(c: char) -> bool {
    c == '\r' || c == '\n' || c == ' ' || c == '\t'
}

/// The line with its trailing whitespace dropped.
pub open spec fn trim_end_ws(s: Seq<char>) -> Seq<char>
    decreases s.len(),
{
    if s.len() == 0 {
        s
    } else if is_line_ws(s.last()) {
        trim_end_ws(s.drop_last())
    } else {
        s
    }
}

/// Reads the byte count out of a `Content-Length` header line, as the
/// transfer layer sees them: the digits after the field name, with the
/// line end trimmed; anything else reports nothing.
pub fn parse_content_length(line: &str) -> (r: Option<u64>)
    ensures
        ({
            let digits = trim_end_ws(crate::dist::suffix_of(line@, "Content-Length: "@.len() as int));
            match r {
                Some(v) => crate::strutil::seq_starts_with(line@, "Content-Length: "@)
                    && digits.len() > 0 && all_digits(digits) && v == dec_value(digits),
                None => !crate::strutil::seq_starts_with(line@, "Content-Length: "@)
                    || digits.len() == 0 || !all_digits(digits) || dec_value(digits) > u64::MAX,
            }
        }),
{
    if !crate::strutil::str_starts_with(line, "Content-Length: ") {
        return None;
    }
    let n = line.unicode_len();
    let plen = "Content-Length: ".unicode_len();
    let ghost rest = crate::dist::suffix_of(line@, plen as int);
    // Drop trailing whitespace and line-end characters.
    let mut end = n;
    while end > plen && line_ws(line.get_char(end - 1))
        invariant
            plen <= end <= n,
            n == line@.len(),
            plen == "Content-Length: "@.len(),
            rest == crate::dist::suffix_of(line@, plen as int),
            trim_end_ws(rest) == trim_end_ws(line@.subrange(plen as int, end as int)),
        decreases end,
    {
        proof {
            let cur = line@.subrange(plen as int, end as int);
            assert(cur.last() == line@[end - 1]);
            assert(cur.drop_last() =~= line@.subrange(plen as int, end - 1));
        }
        end = end - 1;
    }
    let digits = line.substring_char(plen, end);
    proof {
        assert(digits@ == line@.subrange(plen as int, end as int));
        if end == plen {
            assert(digits@ =~= Seq::<char>::empty());
            assert(trim_end_ws(rest) == digits@);
        } else {
            assert(digits@.last() == line@[end - 1]);
            assert(!is_line_ws(digits@.last()));
            assert(trim_end_ws(digits@) == digits@);
            assert(trim_end_ws(rest) == digits@);
        }
    }
    parse_u64(digits)
}

fn line_ws(c: char) -> (r: bool)
    ensures
        r == is_line_ws(c),
{
    c == '\r' || c == '\n' || c == ' ' || c == '\t'
}

/// The transfer backends the surrounding program may link.
#[derive(Debug, Clone, Copy, PartialEq, Eq, Structural)]
pub enum Backend {
    Curl,
    Reqwest,
}

/// What a transfer reports as it proceeds.
#[derive(Debug)]
pub enum Event {
    /// An existing partial file is being resumed; its bytes replay
    /// through the same events so observers stay consistent.
    ResumingPartialDownload,
    /// The total length became known.
    DownloadContentLengthReceived(u64),
    /// A chunk of this many bytes arrived.
    DownloadDataReceived(usize),
}

/// Redirects a package URL at another distribution server: a URL that
/// opens with the default server continues under the given one; any
/// other URL stands.  Used when the distribution root is overridden.
pub fn rewrite_dist_server(url: &str, dist_server: &str) -> (r: String)
    ensures
        crate::strutil::seq_starts_with(url@, crate::dist::DEFAULT_DIST_SERVER@)
            ==> r@ == dist_server@ + crate::dist::suffix_of(
                url@, crate::dist::DEFAULT_DIST_SERVER@.len() as int,
            ),
        !crate::strutil::seq_starts_with(url@, crate::dist::DEFAULT_DIST_SERVER@)
            ==> r@ == url@,
{
    let default_server = crate::dist::DEFAULT_DIST_SERVER;
    if crate::strutil::str_starts_with(url, default_server) {
        let n = url.unicode_len();
        let k = default_server.unicode_len();
        let tail = url.substring_char(k, n);
        let mut s = dist_server.to_owned();
        s.append(tail);
        s
    } else {
        url.to_owned()
    }
}

/// The views of a list of names.
pub open spec fn name_views(s: Seq<String>) -> Seq<Seq<char>> {
    s.map_values(|x: String| x@)
}

/// Membership of a name among names.
pub open spec fn name_among(names: Seq<Seq<char>>, n: Seq<char>) -> bool {
    exists|i: int| 0 <= i < names.len() && names[i] == n
}

/// Whether `keep` holds a name equal to `n`.
fn name_kept(keep: &Vec<String>, n: &String) -> (r: bool)
    ensures
        r == name_among(name_views(keep@), n@),
{
    let mut i: usize = 0;
    while i < keep.len()
        invariant
            i <= keep@.len(),
            forall|j: int| 0 <= j < i ==> keep@[j]@ != n@,
        decreases keep@.len() - i,
    {
        if crate::strutil::str_eq_str(keep[i].as_str(), n.as_str()) {
            proof {
                assert(name_views(keep@)[i as int] == n@);
            }
            return true;
        }
        i += 1;
    }
    proof {
        if name_among(name_views(keep@), n@) {
            let j = choose|j: int| 0 <= j < name_views(keep@).len()
                && name_views(keep@)[j] == n@;
            assert(keep@[j]@ == n@);
        }
    }
    false
}

/// Which entries of the content-addressed cache a post-update clean
/// removes: everything whose name is not among the hashes the update
/// just fetched, in the cache listing's order.
pub fn cache_clean_selection(cache_files: &Vec<String>, keep: &Vec<String>) -> (r: Vec<String>)
    ensures
        name_views(r@) == name_views(cache_files@).filter(
            |n: Seq<char>| !name_among(name_views(keep@), n),
        ),
{
    let ghost keepv = name_views(keep@);
    let mut r: Vec<String> = Vec::new();
    let mut i: usize = 0;
    while i < cache_files.len()
        invariant
            i <= cache_files@.len(),
            keepv == name_views(keep@),
            name_views(r@) == name_views(cache_files@.subrange(0, i as int)).filter(
                |n: Seq<char>| !name_among(keepv, n),
            ),
        decreases cache_files@.len() - i,
    {
        let name = &cache_files[i];
        let kept = name_kept(keep, name);
        proof {
            reveal(Seq::filter);
            let pred = |n: Seq<char>| !name_among(keepv, n);
            let mapped_i1 = name_views(cache_files@.subrange(0, i + 1));
            let mapped_i = name_views(cache_files@.subrange(0, i as int));
            assert(mapped_i1.drop_last() =~= mapped_i) by {
                assert forall|j: int| 0 <= j < mapped_i.len()
                    implies mapped_i1.drop_last()[j] == mapped_i[j] by {
                    assert(mapped_i1[j] == cache_files@.subrange(0, i + 1)[j]@);
                    assert(mapped_i[j] == cache_files@.subrange(0, i as int)[j]@);
                }
            }
            assert(mapped_i1.last() == cache_files@.subrange(0, i + 1)[i as int]@);
            assert(cache_files@.subrange(0, i + 1)[i as int] == cache_files@[i as int]);
            assert(mapped_i1.filter(pred) == if pred(cache_files@[i as int]@) {
                mapped_i.filter(pred).push(cache_files@[i as int]@)
            } else {
                mapped_i.filter(pred)
            });
        }
        if !kept {
            let ghost before = r@;
            r.push(name.clone());
            proof {
                let m = name_views(r@);
                let bm = name_views(before);
                assert forall|j: int| 0 <= j < m.len()
                    implies m[j] == bm.push(cache_files@[i as int]@)[j] by {
                    assert(m[j] == r@[j]@);
                    if j < before.len() {
                        assert(bm[j] == before[j]@);
                    }
                }
                assert(m =~= bm.push(cache_files@[i as int]@));
            }
        }
        i += 1;
    }
    proof {
        assert(cache_files@.subrange(0, cache_files@.len() as int) =~= cache_files@);
    }
    r
}

/// The byte count a resumed transfer continues from, given how much of
/// the destination already exists.
pub fn resume_offset(existing: Option<usize>) -> (r: u64)
    ensures
        match existing {
            Some(n) => r == n as u64,
            None => r == 0,
        },
{
    match existing {
        Some(n) => n as u64,
        None => 0,
    }
}

/// The destination of a transfer: the bytes written so far, which open
/// with whatever partial file the transfer resumed from.  Replaying the
/// partial file through `receive` keeps progress observers consistent
/// with what the file will hold.
#[derive(Debug)]
pub struct DownloadSink {
    pub data: Vec<u8>,
}

impl DownloadSink {
    /// A sink resuming from an existing partial file; an empty one when
    /// the transfer starts from nothing.
    pub fn resume_from(partial: Vec<u8>) -> (r: DownloadSink)
        ensures
            r.data@ == partial@,
    {
        DownloadSink { data: partial }
    }

    /// Appends one received chunk and reports it, so that every byte of
    /// the destination was announced exactly once.
    pub fn receive(&mut self, chunk: &Vec<u8>, notifications: &mut Vec<Notification>)
        ensures
            final(self).data@ == old(self).data@ + chunk@,
            final(notifications)@.len() == old(notifications)@.len() + 1,
            final(notifications)@[old(notifications)@.len() as int]
                matches Notification::DownloadDataReceived(n) && n == chunk@.len(),
    {
        let mut i: usize = 0;
        let n = chunk.len();
        while i < n
            invariant
                i <= n,
                n == chunk@.len(),
                self.data@ == old(self).data@ + chunk@.subrange(0, i as int),
            decreases n - i,
        {
            self.data.push(chunk[i]);
            proof {
                assert(self.data@ =~= old(self).data@ + chunk@.subrange(0, i + 1));
            }
            i += 1;
        }
        proof {
            assert(self.data@ =~= old(self).data@ + chunk@);
        }
        notifications.push(Notification::DownloadDataReceived(n));
    }

    /// Closes the transfer: the whole destination, verified against the
    /// advertised hash; a mismatch discards nothing here — the partial
    /// file stays eligible for resumption — but is a hard error.
    pub fn finish(self, url: &String, expected: &String) -> (r: Result<Vec<u8>, ErrorKind>)
        ensures
            r matches Ok(data) ==> data@ == self.data@
                && hex_of(sha256_of(self.data@)) == expected@,
            r matches Err(e) ==> e matches ErrorKind::ChecksumFailed { .. }
                && hex_of(sha256_of(self.data@)) != expected@,
    {
        verify_checksum(url, expected, &self.data)?;
        Ok(self.data)
    }
}

} // verus!
