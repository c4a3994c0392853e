use vstd::prelude::*;
use vstd::string::{StrSliceExecFns, StringExecFns};

verus! {

/// One configured replication unit: a source URL and the URL of its mirror.
/// An empty `mirror` means that nothing is replicated (fetch only).
pub struct SyncRepository {
    pub source: String,
    pub mirror: String,
}

/// Why the repository list cannot be used.
#[derive(Clone, Copy, Debug, PartialEq, Eq, Structural)]
pub enum ConfigError {
    /// The list holds no repository.
    Empty,
    /// The list could not be read.
    Unreadable,
    /// The list is not a JSON array of `{source, mirror}` objects.
    Malformed,
}

/// Index of the first `c` at or after `i`, or the length when there is none.
pub open spec fn first_from(s: Seq<char>, c: char, i: int) -> int
    decreases s.len() - i,
{
    if i < 0 || i >= s.len() {
        s.len() as int
    } else if s[i] == c {
        i
    } else {
        first_from(s, c, i + 1)
    }
}

/// Index of the first `c` in `s`, or its length when there is none.
pub open spec fn first_index_of(s: Seq<char>, c: char) -> int {
    first_from(s, c, 0)
}

/// Index of the last `c` before position `i`, or -1 when there is none.
pub open spec fn last_before(s: Seq<char>, c: char, i: int) -> int
    decreases i,
{
    if i <= 0 {
        -1
    } else if s[i - 1] == c {
        i - 1
    } else {
        last_before(s, c, i - 1)
    }
}

/// Index of the last `c` in `s`, or -1 when there is none.
pub open spec fn last_index_of(s: Seq<char>, c: char) -> int {
    last_before(s, c, s.len() as int)
}

pub proof fn lemma_first_from_bounds(s: Seq<char>, c: char, i: int)
    requires
        0 <= i <= s.len(),
    ensures
        i <= first_from(s, c, i) <= s.len(),
    decreases s.len() - i,
{
    if i < s.len() && s[i] != c {
        lemma_first_from_bounds(s, c, i + 1);
    }
}

pub proof fn lemma_last_before_bounds(s: Seq<char>, c: char, i: int)
    requires
        0 <= i <= s.len(),
    ensures
        -1 <= last_before(s, c, i) < i,
    decreases i,
{
    if i > 0 && s[i - 1] != c {
        lemma_last_before_bounds(s, c, i - 1);
    }
}

/// The last path segment of a URL.
pub open spec fn last_segment(url: Seq<char>) -> Seq<char> {
    url.subrange(last_index_of(url, '/') + 1, url.len() as int)
}

/// The name of the local cache directory of a source URL: its last path
/// segment, without a trailing ".git".
pub open spec fn dir_name_of(source: Seq<char>) -> Seq<char> {
    let seg = last_segment(source);
    if seg.len() >= 4 && seg.subrange(seg.len() - 4, seg.len() as int) == ".git"@ {
        seg.subrange(0, seg.len() - 4)
    } else {
        seg
    }
}

/// The host that a URL names, in the forms `scheme://[user@]host[:port]/path`
/// and `[user@]host:path`.
pub open spec fn host_of(url: Seq<char>) -> Seq<char> {
    let c = first_index_of(url, ':');
    let rest = if c + 2 < url.len() && url[c + 1] == '/' && url[c + 2] == '/' {
        url.subrange(c + 3, url.len() as int)
    } else {
        url
    };
    let authority = rest.subrange(0, first_index_of(rest, '/'));
    let after_user = authority.subrange(last_index_of(authority, '@') + 1, authority.len() as int);
    after_user.subrange(0, first_index_of(after_user, ':'))
}

/// Index of the first `c` in `s`, or its length.
fn find_first(s: &str, c: char) -> (r: usize)
    ensures
        r == first_index_of(s@, c),
{
    let n = s.unicode_len();
    let mut i: usize = 0;
    while i < n
        invariant
            n == s@.len(),
            i <= n,
            first_from(s@, c, i as int) == first_index_of(s@, c),
        decreases n - i,
    {
        if s.get_char(i) == c {
            return i;
        }
        i = i + 1;
    }
    i
}

/// Index of the last `c` in `s`, if there is one.
fn find_last(s: &str, c: char) -> (r: Option<usize>)
    ensures
        match r {
            Some(i) => i == last_index_of(s@, c),
            None => last_index_of(s@, c) == -1,
        },
{
    let n = s.unicode_len();
    let mut i: usize = n;
    while i > 0
        invariant
            n == s@.len(),
            i <= n,
            last_before(s@, c, i as int) == last_index_of(s@, c),
        decreases i,
    {
        if s.get_char(i - 1) == c {
            return Some(i - 1);
        }
        i = i - 1;
    }
    None
}

/// The text after the last `c` in `s` (all of `s` when there is none).
fn after_last<'a>(s: &'a str, c: char) -> (r: &'a str)
    ensures
        r@ == s@.subrange(last_index_of(s@, c) + 1, s@.len() as int),
{
    proof {
        lemma_last_before_bounds(s@, c, s@.len() as int);
    }
    let n = s.unicode_len();
    match find_last(s, c) {
        Some(i) => s.substring_char(i + 1, n),
        None => s.substring_char(0, n),
    }
}

/// The text before the first `c` in `s` (all of `s` when there is none).
fn before_first<'a>(s: &'a str, c: char) -> (r: &'a str)
    ensures
        r@ == s@.subrange(0, first_index_of(s@, c)),
{
    proof {
        lemma_first_from_bounds(s@, c, 0);
    }
    let i = find_first(s, c);
    s.substring_char(0, i)
}

/// The local cache directory name of a source URL, or `None` when that name
/// would be empty.
pub fn repo_dir_name(source: &str) -> (r: Option<String>)
    ensures
        match r {
            Some(name) => name@ == dir_name_of(source@) && name@.len() > 0,
            None => dir_name_of(source@).len() == 0,
        },
{
    let seg = after_last(source, '/');
    let n = seg.unicode_len();
    let name = if n >= 4 && String::from_str(seg.substring_char(n - 4, n)) == String::from_str(".git") {
        seg.substring_char(0, n - 4)
    } else {
        seg
    };
    if name.unicode_len() == 0 {
        None
    } else {
        Some(String::from_str(name))
    }
}

/// The host that a URL names (see `host_of`).
pub fn url_host(url: &str) -> (r: String)
    ensures
        r@ == host_of(url@),
{
    let n = url.unicode_len();
    let c = find_first(url, ':');
    let rest = if c < n && n - c > 2 && url.get_char(c + 1) == '/' && url.get_char(c + 2) == '/' {
        url.substring_char(c + 3, n)
    } else {
        url
    };
    let authority = before_first(rest, '/');
    let after_user = after_last(authority, '@');
    String::from_str(before_first(after_user, ':'))
}

/// The URLs of a repository list in order: each source, then its mirror when
/// one is set.
pub open spec fn candidate_urls(repos: Seq<SyncRepository>) -> Seq<Seq<char>>
    decreases repos.len(),
{
    if repos.len() == 0 {
        Seq::empty()
    } else {
        let with_source = candidate_urls(repos.drop_last()).push(repos.last().source@);
        if repos.last().mirror@.len() > 0 {
            with_source.push(repos.last().mirror@)
        } else {
            with_source
        }
    }
}

/// Whether some URL of `urls` names host `h`.
pub open spec fn has_host(urls: Seq<Seq<char>>, h: Seq<char>) -> bool {
    exists|i: int| 0 <= i < urls.len() && host_of(urls[i]) == h
}

/// Appends `url` unless a URL of `urls` already names its host.
pub open spec fn keep_new_host(urls: Seq<Seq<char>>, url: Seq<char>) -> Seq<Seq<char>> {
    if has_host(urls, host_of(url)) {
        urls
    } else {
        urls.push(url)
    }
}

/// The first URL of each distinct host, in order.
pub open spec fn first_per_host(urls: Seq<Seq<char>>) -> Seq<Seq<char>>
    decreases urls.len(),
{
    if urls.len() == 0 {
        Seq::empty()
    } else {
        keep_new_host(first_per_host(urls.drop_last()), urls.last())
    }
}

pub open spec fn strs(v: Seq<String>) -> Seq<Seq<char>> {
    v.map_values(|s: String| s@)
}

fn note_url(out: &mut Vec<String>, url: &String)
    ensures
        strs(final(out)@) == keep_new_host(strs(old(out)@), url@),
{
    let h = url_host(url.as_str());
    let mut j: usize = 0;
    while j < out.len()
        invariant
            j <= out@.len(),
            h@ == host_of(url@),
            forall|k: int| 0 <= k < j ==> host_of(strs(out@)[k]) != h@,
        decreases out@.len() - j,
    {
        if url_host(out[j].as_str()) == h {
            assert(host_of(strs(out@)[j as int]) == h@);
            return;
        }
        j = j + 1;
    }
    let ghost before = strs(out@);
    out.push(url.clone());
    assert(strs(out@) =~= before.push(url@));
}

/// The URLs to contact when seeding the trust store: of all sources and
/// mirrors of the list, the first URL of each distinct host.
pub fn seed_urls(repos: &Vec<SyncRepository>) -> (r: Vec<String>)
    ensures
        strs(r@) == first_per_host(candidate_urls(repos@)),
{
    let mut out: Vec<String> = Vec::new();
    let ghost mut seen: Seq<Seq<char>> = Seq::empty();
    let mut i: usize = 0;
    while i < repos.len()
        invariant
            i <= repos@.len(),
            seen == candidate_urls(repos@.take(i as int)),
            strs(out@) == first_per_host(seen),
        decreases repos@.len() - i,
    {
        let repo = &repos[i];
        assert(repos@.take(i + 1).drop_last() =~= repos@.take(i as int));
        note_url(&mut out, &repo.source);
        proof {
            let prev = seen;
            seen = seen.push(repo.source@);
            assert(seen.drop_last() =~= prev);
            assert(first_per_host(seen) == keep_new_host(first_per_host(prev), repo.source@));
        }
        if repo.mirror.unicode_len() > 0 {
            note_url(&mut out, &repo.mirror);
            proof {
                let prev = seen;
                seen = seen.push(repo.mirror@);
                assert(seen.drop_last() =~= prev);
                assert(first_per_host(seen) == keep_new_host(first_per_host(prev), repo.mirror@));
            }
        }
        i = i + 1;
    }
    assert(repos@.take(i as int) =~= repos@);
    out
}

/// Accepts a repository list that holds at least one repository.
pub fn validate_config(repos: &Vec<SyncRepository>) -> (r: Result<(), ConfigError>)
    ensures
        r is Err <==> repos@.len() == 0,
        r is Err ==> r == Err::<(), ConfigError>(ConfigError::Empty),
{
    if repos.len() == 0 {
        Err(ConfigError::Empty)
    } else {
        Ok(())
    }
}

} // verus!
