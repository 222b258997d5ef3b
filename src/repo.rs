//! Repository identity: the `(owner, name)` pair named by a GitHub URL.

use vstd::prelude::*;
use crate::text::{chars_of, string_from_chars};

verus! {

/// `github.com`
pub open spec fn github_host() -> Seq<char> {
    seq!['g', 'i', 't', 'h', 'u', 'b', '.', 'c', 'o', 'm']
}

/// `git@github.com:`, the start of the SSH form of a repository address.
pub open spec fn ssh_prefix() -> Seq<char> {
    seq!['g', 'i', 't', '@'] + github_host() + seq![':']
}

/// `.git`
pub open spec fn git_suffix() -> Seq<char> {
    seq!['.', 'g', 'i', 't']
}

pub open spec fn ends_with_git(s: Seq<char>) -> bool {
    s.len() >= 4 && s.subrange(s.len() - 4, s.len() as int) == git_suffix()
}

/// `s` with every trailing `.git` removed, repeatedly.
pub open spec fn trim_git(s: Seq<char>) -> Seq<char>
    decreases s.len(),
{
    if ends_with_git(s) {
        trim_git(s.subrange(0, s.len() - 4))
    } else {
        s
    }
}

/// The pieces of `s` between occurrences of `c`; always at least one piece.
pub open spec fn split_on(s: Seq<char>, c: char) -> Seq<Seq<char>>
    decreases s.len(),
{
    if s.len() == 0 {
        seq![Seq::<char>::empty()]
    } else {
        let rest = split_on(s.drop_last(), c);
        if s.last() == c {
            rest.push(Seq::<char>::empty())
        } else {
            rest.update(rest.len() - 1, rest.last().push(s.last()))
        }
    }
}

/// Host and path segments of a parsed URL, as plain values.
pub struct UrlParts {
    pub host: Option<String>,
    pub segments: Option<Vec<String>>,
}

pub open spec fn strings_view(v: Seq<String>) -> Seq<Seq<char>> {
    v.map_values(|s: String| s@)
}

impl UrlParts {
    pub open spec fn view(&self) -> (Option<Seq<char>>, Option<Seq<Seq<char>>>) {
        (
            match self.host {
                Some(h) => Some(h@),
                None => None,
            },
            match self.segments {
                Some(v) => Some(strings_view(v@)),
                None => None,
            },
        )
    }
}

pub open spec fn url_parts_view(p: Option<UrlParts>) -> Option<(Option<Seq<char>>, Option<Seq<Seq<char>>>)> {
    match p {
        Some(u) => Some(u.view()),
        None => None,
    }
}

/// What the WHATWG URL parser makes of a text: `None` where it rejects it,
/// else the host and the path segments it finds.
pub uninterp spec fn url_parts_of(s: Seq<char>) -> Option<(Option<Seq<char>>, Option<Seq<Seq<char>>>)>;

/// Relies on `url::Url::parse`, `Url::host_str` and `Url::path_segments`:
/// the parse and what it finds depend on the text alone.
#[verifier::external_body]
fn parse_url(s: &str) -> (r: Option<UrlParts>)
    ensures
        url_parts_view(r) == url_parts_of(s@),
{
    url::Url::parse(s).ok().map(|u| UrlParts {
        host: u.host_str().map(|h| h.to_string()),
        segments: u.path_segments().map(|p| p.map(|x| x.to_string()).collect()),
    })
}

/// The identity given by the SSH form `git@github.com:owner/name[.git]`.
pub open spec fn ssh_identity(url: Seq<char>) -> Option<(Seq<char>, Seq<char>)> {
    if url.len() >= ssh_prefix().len() && url.subrange(0, ssh_prefix().len() as int) == ssh_prefix() {
        let parts = split_on(trim_git(url.subrange(ssh_prefix().len() as int, url.len() as int)), '/');
        if parts.len() == 2 {
            Some((parts[0], parts[1]))
        } else {
            None
        }
    } else {
        None
    }
}

/// The identity given by a URL whose host is `github.com` and whose path has
/// exactly two segments, the second with any `.git` suffix removed.
pub open spec fn url_identity(parts: Option<(Option<Seq<char>>, Option<Seq<Seq<char>>>)>) -> Option<(Seq<char>, Seq<char>)> {
    match parts {
        Some((Some(h), Some(segs))) => {
            if h == github_host() && segs.len() == 2 {
                Some((segs[0], trim_git(segs[1])))
            } else {
                None
            }
        },
        _ => None,
    }
}

/// The repository identity of a URL, SSH form first.
pub open spec fn github_repo_of(url: Seq<char>) -> Option<(Seq<char>, Seq<char>)> {
    match ssh_identity(url) {
        Some(id) => Some(id),
        None => url_identity(url_parts_of(url)),
    }
}

pub open spec fn pair_view(p: Option<(String, String)>) -> Option<(Seq<char>, Seq<char>)> {
    match p {
        Some((a, b)) => Some((a@, b@)),
        None => None,
    }
}

fn ends_with_git_at(s: &Vec<char>, end: usize) -> (r: bool)
    requires
        end <= s@.len(),
    ensures
        r == ends_with_git(s@.subrange(0, end as int)),
{
    if end < 4 {
        return false;
    }
    let r = s[end - 4] == '.' && s[end - 3] == 'g' && s[end - 2] == 'i' && s[end - 1] == 't';
    assert(r == (s@.subrange(0, end as int).subrange(end - 4, end as int) =~= git_suffix()));
    r
}

/// The length of `s[..end]` once every trailing `.git` is removed.
fn trim_git_end(s: &Vec<char>, end: usize) -> (r: usize)
    requires
        end <= s@.len(),
    ensures
        r <= end,
        s@.subrange(0, r as int) == trim_git(s@.subrange(0, end as int)),
{
    let mut e = end;
    while ends_with_git_at(s, e)
        invariant
            e <= end <= s@.len(),
            trim_git(s@.subrange(0, e as int)) == trim_git(s@.subrange(0, end as int)),
        decreases e,
    {
        assert(s@.subrange(0, e as int).subrange(0, e - 4) =~= s@.subrange(0, e - 4));
        e = e - 4;
    }
    e
}

/// Splits `s[start..end]` on `c`.
fn split_range(s: &Vec<char>, start: usize, end: usize, c: char) -> (r: Vec<Vec<char>>)
    requires
        start <= end <= s@.len(),
    ensures
        r@.map_values(|p: Vec<char>| p@) == split_on(s@.subrange(start as int, end as int), c),
{
    let mut parts: Vec<Vec<char>> = Vec::new();
    parts.push(Vec::new());
    let mut i: usize = start;
    assert(s@.subrange(start as int, start as int) =~= Seq::<char>::empty());
    assert(parts@.map_values(|p: Vec<char>| p@) =~= seq![Seq::<char>::empty()]);
    while i < end
        invariant
            start <= i <= end <= s@.len(),
            parts@.len() >= 1,
            parts@.map_values(|p: Vec<char>| p@) == split_on(s@.subrange(start as int, i as int), c),
        decreases end - i,
    {
        let ghost old_view = parts@.map_values(|p: Vec<char>| p@);
        let ghost sub = s@.subrange(start as int, i + 1);
        assert(sub.drop_last() =~= s@.subrange(start as int, i as int));
        assert(sub.last() == s@[i as int]);
        if s[i] == c {
            parts.push(Vec::new());
            assert(parts@.map_values(|p: Vec<char>| p@) =~= old_view.push(Seq::<char>::empty()));
        } else {
            let last = parts.len() - 1;
            let mut piece = parts.remove(last);
            piece.push(s[i]);
            parts.push(piece);
            assert(parts@.map_values(|p: Vec<char>| p@) =~= old_view.update(
                old_view.len() - 1,
                old_view.last().push(s@[i as int]),
            ));
        }
        i = i + 1;
    }
    parts
}

fn has_ssh_prefix(s: &Vec<char>) -> (r: bool)
    ensures
        r == (s@.len() >= ssh_prefix().len() && s@.subrange(0, ssh_prefix().len() as int) == ssh_prefix()),
{
    let p: [char; 15] = ['g', 'i', 't', '@', 'g', 'i', 't', 'h', 'u', 'b', '.', 'c', 'o', 'm', ':'];
    assert(p@ =~= ssh_prefix());
    if s.len() < 15 {
        return false;
    }
    let mut i: usize = 0;
    while i < 15
        invariant
            i <= 15,
            s@.len() >= 15,
            p@ == ssh_prefix(),
            forall|j: int| 0 <= j < i ==> s@[j] == p@[j],
        decreases 15 - i,
    {
        if s[i] != p[i] {
            assert(s@.subrange(0, 15)[i as int] != ssh_prefix()[i as int]);
            return false;
        }
        i = i + 1;
    }
    assert(s@.subrange(0, 15) =~= ssh_prefix());
    true
}

fn ssh_repo(s: &Vec<char>) -> (r: Option<(String, String)>)
    ensures
        pair_view(r) == ssh_identity(s@),
{
    if !has_ssh_prefix(s) {
        return None;
    }
    let end = trim_git_end(s, s.len());
    assert(s@.subrange(0, s@.len() as int) =~= s@);
    if end < 15 {
        // the prefix ends in ':', which no trailing `.git` removes
        assert(false) by {
            trim_git_keeps_colon_prefix(s@);
        };
        return None;
    }
    let parts = split_range(s, 15, end, '/');
    assert(s@.subrange(15, end as int) =~= s@.subrange(0, end as int).subrange(15, end as int));
    proof {
        trim_git_of_prefixed(s@);
    }
    if parts.len() == 2 {
        let owner = string_from_chars(parts[0].as_slice());
        let name = string_from_chars(parts[1].as_slice());
        Some((owner, name))
    } else {
        None
    }
}

proof fn trim_git_keeps_colon_prefix(s: Seq<char>)
    requires
        s.len() >= 15,
        s[14] == ':',
    ensures
        trim_git(s).len() >= 15,
    decreases s.len(),
{
    if ends_with_git(s) {
        if s.len() - 4 >= 15 {
            trim_git_keeps_colon_prefix(s.subrange(0, s.len() - 4));
        } else {
            assert(s.subrange(s.len() - 4, s.len() as int)[14 - (s.len() - 4)] == s[14]);
        }
    }
}

/// Trimming `.git` from the whole address trims it from what follows the prefix.
proof fn trim_git_of_prefixed(s: Seq<char>)
    requires
        s.len() >= 15,
        s[14] == ':',
    ensures
        trim_git(s).len() >= 15,
        trim_git(s).subrange(15, trim_git(s).len() as int) == trim_git(s.subrange(15, s.len() as int)),
        trim_git(s).subrange(0, 15) == s.subrange(0, 15),
    decreases s.len(),
{
    trim_git_keeps_colon_prefix(s);
    let t = s.subrange(15, s.len() as int);
    if ends_with_git(s) {
        let s2 = s.subrange(0, s.len() - 4);
        if s.len() - 4 >= 15 {
            assert(t.subrange(t.len() - 4, t.len() as int) =~= s.subrange(s.len() - 4, s.len() as int));
            assert(t.subrange(0, t.len() - 4) =~= s2.subrange(15, s2.len() as int));
            trim_git_of_prefixed(s2);
            assert(s2.subrange(0, 15) =~= s.subrange(0, 15));
        } else {
            assert(s.subrange(s.len() - 4, s.len() as int)[14 - (s.len() - 4)] == s[14]);
        }
    } else {
        if ends_with_git(t) {
            assert(t.subrange(t.len() - 4, t.len() as int) =~= s.subrange(s.len() - 4, s.len() as int));
        }
    }
}

/// Parses a GitHub repository address, in SSH form
/// (`git@github.com:owner/name.git`) or as a URL (`https://github.com/owner/name`),
/// into its `(owner, name)` pair; `None` where no identity can be extracted.
pub fn parse_github_repo(url: &str) -> (r: Option<(String, String)>)
    ensures
        pair_view(r) == github_repo_of(url@),
{
    let s = chars_of(url);
    let ssh = ssh_repo(&s);
    if ssh.is_some() {
        return ssh;
    }
    let parts = parse_url(url);
    match parts {
        None => None,
        Some(p) => match (p.host, p.segments) {
            (Some(h), Some(segs)) => {
                let hc = chars_of(h.as_str());
                if !is_github_host(&hc) || segs.len() != 2 {
                    return None;
                }
                let owner = segs[0].clone();
                let mut name_chars = chars_of(segs[1].as_str());
                let end = trim_git_end(&name_chars, name_chars.len());
                assert(name_chars@.subrange(0, name_chars@.len() as int) =~= name_chars@);
                name_chars.truncate(end);
                let name = string_from_chars(name_chars.as_slice());
                assert(strings_view(segs@)[0] == segs@[0]@);
                assert(strings_view(segs@)[1] == segs@[1]@);
                Some((owner, name))
            },
            _ => None,
        },
    }
}

fn is_github_host(h: &Vec<char>) -> (r: bool)
    ensures
        r == (h@ == github_host()),
{
    let g: [char; 10] = ['g', 'i', 't', 'h', 'u', 'b', '.', 'c', 'o', 'm'];
    assert(g@ =~= github_host());
    if h.len() != 10 {
        return false;
    }
    let mut i: usize = 0;
    while i < 10
        invariant
            i <= 10,
            h@.len() == 10,
            g@ == github_host(),
            forall|j: int| 0 <= j < i ==> h@[j] == g@[j],
        decreases 10 - i,
    {
        if h[i] != g[i] {
            return false;
        }
        i = i + 1;
    }
    assert(h@ =~= github_host());
    true
}

/// An address that is not in SSH form, and whose URL host is not `github.com`
/// (or that is no URL at all), names no repository.
pub proof fn other_host_has_no_identity(url: Seq<char>)
    requires
        ssh_identity(url) is None,
        url_parts_of(url) is Some ==> (url_parts_of(url)->0).0 != Some(github_host()),
    ensures
        github_repo_of(url) is None,
{
}

pub open spec fn free_of(t: Seq<char>, c: char) -> bool {
    forall|i: int| 0 <= i < t.len() ==> t[i] != c
}

proof fn split_on_nonempty(s: Seq<char>, c: char)
    ensures
        split_on(s, c).len() >= 1,
    decreases s.len(),
{
    if s.len() > 0 {
        split_on_nonempty(s.drop_last(), c);
    }
}

/// Appending text free of the separator extends the last piece.
proof fn split_on_extend(a: Seq<char>, t: Seq<char>, c: char)
    requires
        free_of(t, c),
    ensures
        split_on(a + t, c) == split_on(a, c).update(
            split_on(a, c).len() - 1,
            split_on(a, c).last() + t,
        ),
    decreases t.len(),
{
    split_on_nonempty(a, c);
    if t.len() == 0 {
        assert(a + t =~= a);
        assert(split_on(a, c).last() + t =~= split_on(a, c).last());
        assert(split_on(a, c).update(split_on(a, c).len() - 1, split_on(a, c).last()) =~= split_on(a, c));
    } else {
        let t0 = t.drop_last();
        assert(free_of(t0, c));
        split_on_extend(a, t0, c);
        assert((a + t).drop_last() =~= a + t0);
        assert((a + t).last() == t.last());
        assert(split_on(a, c).last() + t0 + seq![t.last()] =~= split_on(a, c).last() + t);
        let p = split_on(a, c);
        let q = p.update(p.len() - 1, p.last() + t0);
        assert(q.last() == p.last() + t0);
        assert(t.last() == t[t.len() - 1]);
        assert(t.last() != c);
        assert((p.last() + t0).push(t.last()) =~= p.last() + t);
        assert(q.update(q.len() - 1, q.last().push(t.last())) =~= p.update(p.len() - 1, p.last() + t));
    }
}

/// `owner/name` splits on `/` into exactly `owner` and `name`.
proof fn split_pair(o: Seq<char>, n: Seq<char>)
    requires
        free_of(o, '/'),
        free_of(n, '/'),
    ensures
        split_on(o + seq!['/'] + n, '/') == seq![o, n],
{
    let e = Seq::<char>::empty();
    split_on_extend(e, o, '/');
    assert(e + o =~= o);
    assert(split_on(e, '/') =~= seq![e]);
    assert(seq![e].update(0, e + o) =~= seq![o]);
    let os = o + seq!['/'];
    assert(os.drop_last() =~= o);
    assert(split_on(os, '/') =~= seq![o, e]);
    split_on_extend(os, n, '/');
    assert(e + n =~= n);
    assert(seq![o, e].update(1, e + n) =~= seq![o, n]);
}

proof fn trim_git_of_pair(o: Seq<char>, n: Seq<char>)
    requires
        free_of(n, '/'),
        !ends_with_git(n),
    ensures
        trim_git(o + seq!['/'] + n) == o + seq!['/'] + n,
        trim_git(o + seq!['/'] + n + git_suffix()) == o + seq!['/'] + n,
{
    let s = o + seq!['/'] + n;
    if ends_with_git(s) {
        let tail = s.subrange(s.len() - 4, s.len() as int);
        if n.len() >= 4 {
            assert(n.subrange(n.len() - 4, n.len() as int) =~= tail);
        } else {
            assert(tail[3 - n.len()] == s[o.len() as int]);
            assert(git_suffix()[3 - n.len()] != '/');
        }
    }
    let g = s + git_suffix();
    assert(g.subrange(g.len() - 4, g.len() as int) =~= git_suffix());
    assert(g.subrange(0, g.len() - 4) =~= s);
}

/// For an owner and a name free of `/`, the name not ending in `.git`, the SSH
/// address with or without `.git` names exactly that repository.
pub proof fn ssh_forms_name_the_repository(o: Seq<char>, n: Seq<char>)
    requires
        free_of(o, '/'),
        free_of(n, '/'),
        !ends_with_git(n),
    ensures
        github_repo_of(ssh_prefix() + o + seq!['/'] + n) == Some((o, n)),
        github_repo_of(ssh_prefix() + o + seq!['/'] + n + git_suffix()) == Some((o, n)),
{
    let s = o + seq!['/'] + n;
    split_pair(o, n);
    trim_git_of_pair(o, n);
    let u1 = ssh_prefix() + o + seq!['/'] + n;
    let u2 = ssh_prefix() + o + seq!['/'] + n + git_suffix();
    assert(u1.subrange(0, 15) =~= ssh_prefix());
    assert(u1.subrange(15, u1.len() as int) =~= s);
    assert(u2.subrange(0, 15) =~= ssh_prefix());
    assert(u2.subrange(15, u2.len() as int) =~= s + git_suffix());
}

/// Where the URL parser finds host `github.com` and the two segments `owner`
/// and `name` (or `name.git`), an address not in SSH form names exactly that
/// repository.
pub proof fn url_forms_name_the_repository(url: Seq<char>, o: Seq<char>, n: Seq<char>)
    requires
        ssh_identity(url) is None,
        !ends_with_git(n),
        url_parts_of(url) == Some((Some(github_host()), Some(seq![o, n])))
            || url_parts_of(url) == Some((Some(github_host()), Some(seq![o, n + git_suffix()]))),
    ensures
        github_repo_of(url) == Some((o, n)),
{
    let g = n + git_suffix();
    assert(g.subrange(g.len() - 4, g.len() as int) =~= git_suffix());
    assert(g.subrange(0, g.len() - 4) =~= n);
    assert(trim_git(n) == n);
    assert(trim_git(g) == n);
    assert(seq![o, n].len() == 2 && seq![o, n][0] == o && seq![o, n][1] == n);
    assert(seq![o, g].len() == 2 && seq![o, g][0] == o && seq![o, g][1] == g);
}

} // verus!
