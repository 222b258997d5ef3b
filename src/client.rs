//! What the client decides around its commit and fetch commands: which files
//! are env files, how their contents travel, and the hook scripts it installs.

use vstd::prelude::*;
use vstd::string::StringExecFns;
use crate::cipher::{opened, MAX_PLAINTEXT};
use vstd::utf8::encode_utf8;
use crate::error::{EnvaError, is_invalid_url};
use crate::keystore::{encrypt_string, decrypt_string};
use crate::repo::github_repo_of;
use crate::store::pairs_view;
use crate::text::{chars_of, string_from_chars};

verus! {

/// `.env`
pub open spec fn env_prefix() -> Seq<char> {
    seq!['.', 'e', 'n', 'v']
}

/// Whether `t` occurs in `s` at position `i`.
pub open spec fn occurs_at(s: Seq<char>, t: Seq<char>, i: int) -> bool {
    0 <= i && i + t.len() <= s.len() && s.subrange(i, i + t.len()) == t
}

/// Whether `t` occurs in `s`.
pub open spec fn contains(s: Seq<char>, t: Seq<char>) -> bool {
    exists|i: int| occurs_at(s, t, i)
}

fn occurs_at_exec(s: &Vec<char>, t: &Vec<char>, i: usize) -> (r: bool)
    requires
        i + t@.len() <= s@.len(),
    ensures
        r == occurs_at(s@, t@, i as int),
{
    let n = s.len();
    let mut j: usize = 0;
    while j < t.len()
        invariant
            n == s@.len(),
            j <= t@.len(),
            i + t@.len() <= s@.len(),
            forall|k: int| 0 <= k < j ==> s@[i + k] == t@[k],
        decreases t@.len() - j,
    {
        if s[i + j] != t[j] {
            assert(s@.subrange(i as int, i + t@.len())[j as int] != t@[j as int]);
            return false;
        }
        j = j + 1;
    }
    assert(s@.subrange(i as int, i + t@.len()) =~= t@);
    true
}

fn contains_exec(s: &Vec<char>, t: &Vec<char>) -> (r: bool)
    ensures
        r == contains(s@, t@),
{
    if t.len() > s.len() {
        return false;
    }
    let last = s.len() - t.len();
    let mut i: usize = 0;
    loop
        invariant
            t@.len() <= s@.len(),
            last == s@.len() - t@.len(),
            i <= last,
            forall|k: int| 0 <= k < i ==> !occurs_at(s@, t@, k),
        decreases last - i,
    {
        if occurs_at_exec(s, t, i) {
            return true;
        }
        if i == last {
            return false;
        }
        i = i + 1;
    }
}

/// Whether a file of this name is an env file: its name begins with `.env`.
pub fn is_env_file_name(name: &str) -> (r: bool)
    ensures
        r == (name@.len() >= 4 && name@.subrange(0, 4) == env_prefix()),
{
    let c = chars_of(name);
    if c.len() < 4 {
        return false;
    }
    let r = c[0] == '.' && c[1] == 'e' && c[2] == 'n' && c[3] == 'v';
    assert(r == (c@.subrange(0, 4) =~= env_prefix()));
    r
}

/// `#!/bin/sh`
pub open spec fn shebang() -> Seq<char> {
    seq!['#', '!', '/', 'b', 'i', 'n', '/', 's', 'h']
}

/// A hook script that runs `line`: the existing script with a `#!/bin/sh` line
/// put first where it has none, and `line` appended on a line of its own where
/// it does not already occur.
pub open spec fn hook_script_of(existing: Seq<char>, line: Seq<char>) -> Seq<char> {
    let s1 = if contains(existing, shebang()) {
        existing
    } else {
        shebang() + seq!['\n'] + existing
    };
    if contains(s1, line) {
        s1
    } else {
        s1 + seq!['\n'] + line
    }
}

/// The hook script to write, given the existing one (empty if none).
pub fn hook_script(existing: &str, line: &str) -> (r: String)
    ensures
        r@ == hook_script_of(existing@, line@),
{
    let ex = chars_of(existing);
    let sb: Vec<char> = vec!['#', '!', '/', 'b', 'i', 'n', '/', 's', 'h'];
    assert(sb@ =~= shebang());
    let mut s1: String = if contains_exec(&ex, &sb) {
        String::from_str(existing)
    } else {
        let mut s = String::from_str("#!/bin/sh\n");
        s.append(existing);
        proof {
            reveal_strlit("#!/bin/sh\n");
            assert(s@ =~= shebang() + seq!['\n'] + existing@);
        }
        s
    };
    let c1 = chars_of(s1.as_str());
    let lc = chars_of(line);
    if !contains_exec(&c1, &lc) {
        s1.append("\n");
        s1.append(line);
        proof {
            reveal_strlit("\n");
        }
    }
    s1
}

/// Whether every content fits one encrypted message.
pub open spec fn encryptable(files: Seq<(String, String)>) -> bool {
    forall|i: int| 0 <= i < files.len() ==> encode_utf8((#[trigger] files[i]).1@).len() <= MAX_PLAINTEXT
}

/// The files to send on commit: as read where the repository is not encrypted,
/// else each content sealed with the repository's stored key.
pub fn prepare_commit_files(repo_url: &str, files: &Vec<(String, String)>, encrypted: bool)
    -> (r: Result<Vec<(String, String)>, EnvaError>)
    requires
        encryptable(files@),
    ensures
        !encrypted ==> r is Ok && pairs_view(r->Ok_0@) == pairs_view(files@),
        encrypted && r is Ok ==> r->Ok_0@.len() == files@.len() && forall|i: int| 0 <= i < files@.len() ==>
            (#[trigger] r->Ok_0@[i]).0@ == files@[i].0@
            && exists|k: Seq<u8>| k.len() == 32 && opened(k, r->Ok_0@[i].1@) == Some(files@[i].1@),
        encrypted && files@.len() == 0 ==> r is Ok && r->Ok_0@.len() == 0,
        encrypted && files@.len() > 0 ==> (github_repo_of(repo_url@) is None
            <==> (r is Err && is_invalid_url(r->Err_0, repo_url@))),
        r is Err ==> (r is Err && is_invalid_url(r->Err_0, repo_url@))
            || r == Err::<Vec<(String, String)>, EnvaError>(EnvaError::KeyNotFound)
            || r == Err::<Vec<(String, String)>, EnvaError>(EnvaError::SecretStore),
{
    let mut out: Vec<(String, String)> = Vec::new();
    let mut i: usize = 0;
    while i < files.len()
        invariant
            i <= files@.len(),
            out@.len() == i,
            encryptable(files@),
            encrypted && i > 0 ==> github_repo_of(repo_url@) is Some,
            !encrypted ==> forall|j: int| 0 <= j < i ==> (#[trigger] out@[j]).0@ == files@[j].0@
                && out@[j].1@ == files@[j].1@,
            encrypted ==> forall|j: int| 0 <= j < i ==> (#[trigger] out@[j]).0@ == files@[j].0@
                && exists|k: Seq<u8>| k.len() == 32 && opened(k, out@[j].1@) == Some(files@[j].1@),
        decreases files@.len() - i,
    {
        let content = if encrypted {
            assert(encode_utf8(files@[i as int].1@).len() <= MAX_PLAINTEXT);
            match encrypt_string(repo_url, files[i].1.as_str()) {
                Ok(c) => c,
                Err(e) => return Err(e),
            }
        } else {
            files[i].1.clone()
        };
        out.push((files[i].0.clone(), content));
        i = i + 1;
    }
    assert(!encrypted ==> pairs_view(out@) =~= pairs_view(files@));
    Ok(out)
}

/// The files to write on fetch: as received where the repository is not
/// encrypted, else each content opened with the repository's stored key.
pub fn decode_fetched_files(repo_url: &str, files: &Vec<(String, String)>, encrypted: bool)
    -> (r: Result<Vec<(String, String)>, EnvaError>)
    ensures
        !encrypted ==> r is Ok && pairs_view(r->Ok_0@) == pairs_view(files@),
        encrypted && r is Ok ==> r->Ok_0@.len() == files@.len() && forall|i: int| 0 <= i < files@.len() ==>
            (#[trigger] r->Ok_0@[i]).0@ == files@[i].0@
            && exists|k: Seq<u8>| k.len() == 32 && opened(k, files@[i].1@) == Some(r->Ok_0@[i].1@),
        encrypted && files@.len() == 0 ==> r is Ok && r->Ok_0@.len() == 0,
        encrypted && files@.len() > 0 ==> (github_repo_of(repo_url@) is None
            <==> (r is Err && is_invalid_url(r->Err_0, repo_url@))),
        r is Err ==> (r is Err && is_invalid_url(r->Err_0, repo_url@))
            || r == Err::<Vec<(String, String)>, EnvaError>(EnvaError::KeyNotFound)
            || r == Err::<Vec<(String, String)>, EnvaError>(EnvaError::SecretStore)
            || r == Err::<Vec<(String, String)>, EnvaError>(EnvaError::AuthenticationFailure),
{
    let mut out: Vec<(String, String)> = Vec::new();
    let mut i: usize = 0;
    while i < files.len()
        invariant
            i <= files@.len(),
            out@.len() == i,
            encrypted && i > 0 ==> github_repo_of(repo_url@) is Some,
            !encrypted ==> forall|j: int| 0 <= j < i ==> (#[trigger] out@[j]).0@ == files@[j].0@
                && out@[j].1@ == files@[j].1@,
            encrypted ==> forall|j: int| 0 <= j < i ==> (#[trigger] out@[j]).0@ == files@[j].0@
                && exists|k: Seq<u8>| k.len() == 32 && opened(k, files@[j].1@) == Some(out@[j].1@),
        decreases files@.len() - i,
    {
        let content = if encrypted {
            match decrypt_string(repo_url, files[i].1.as_str()) {
                Ok(c) => c,
                Err(e) => return Err(e),
            }
        } else {
            files[i].1.clone()
        };
        out.push((files[i].0.clone(), content));
        i = i + 1;
    }
    assert(!encrypted ==> pairs_view(out@) =~= pairs_view(files@));
    Ok(out)
}

} // verus!
