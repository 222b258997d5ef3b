//! The server's commit store: an index from `owner/name/commit_id` to a record
//! of branch and file handles, and a content area of blobs addressed by handle.

use vstd::prelude::*;
use vstd::string::StringExecFns;
use crate::error::{EnvaError, is_invalid_url};
use crate::repo::{parse_github_repo, github_repo_of};

verus! {

/// A sequence of string pairs, as character sequences.
pub open spec fn pairs_view(v: Seq<(String, String)>) -> Seq<(Seq<char>, Seq<char>)> {
    v.map_values(|p: (String, String)| (p.0@, p.1@))
}

/// The map a list of entries describes, a later entry replacing an earlier one
/// under the same key.
pub open spec fn last_wins<V>(s: Seq<(Seq<char>, V)>) -> Map<Seq<char>, V>
    decreases s.len(),
{
    if s.len() == 0 {
        Map::empty()
    } else {
        last_wins(s.drop_last()).insert(s.last().0, s.last().1)
    }
}

proof fn last_wins_found<V>(s: Seq<(Seq<char>, V)>, k: Seq<char>, i: int)
    requires
        0 <= i < s.len(),
        s[i].0 == k,
        forall|j: int| i < j < s.len() ==> s[j].0 != k,
    ensures
        last_wins(s).contains_key(k),
        last_wins(s)[k] == s[i].1,
    decreases s.len(),
{
    if i < s.len() - 1 {
        last_wins_found(s.drop_last(), k, i);
    }
}

proof fn last_wins_absent<V>(s: Seq<(Seq<char>, V)>, k: Seq<char>)
    requires
        forall|j: int| 0 <= j < s.len() ==> s[j].0 != k,
    ensures
        !last_wins(s).contains_key(k),
    decreases s.len(),
{
    if s.len() > 0 {
        last_wins_absent(s.drop_last(), k);
    }
}

/// One stored commit: its branch and, for each file name, the handle of its blob.
pub struct CommitRecord {
    pub branch: String,
    pub files: Vec<(String, String)>,
}

impl CommitRecord {
    pub open spec fn view(&self) -> (Seq<char>, Seq<(Seq<char>, Seq<char>)>) {
        (self.branch@, pairs_view(self.files@))
    }
}

/// The persisted state of the server: index entries and blobs, later entries
/// replacing earlier ones under the same key.
pub struct CommitStore {
    pub commits: Vec<(String, CommitRecord)>,
    pub blobs: Vec<(String, String)>,
}

/// The store as maps: commit key to record, handle to content.
pub struct StoreView {
    pub index: Map<Seq<char>, (Seq<char>, Seq<(Seq<char>, Seq<char>)>)>,
    pub blobs: Map<Seq<char>, Seq<char>>,
}

pub open spec fn commits_view(v: Seq<(String, CommitRecord)>) -> Seq<(Seq<char>, (Seq<char>, Seq<(Seq<char>, Seq<char>)>))> {
    v.map_values(|e: (String, CommitRecord)| (e.0@, e.1.view()))
}

impl CommitStore {
    pub open spec fn view(&self) -> StoreView {
        StoreView { index: last_wins(commits_view(self.commits@)), blobs: last_wins(pairs_view(self.blobs@)) }
    }

    /// A store with no commits and no blobs.
    pub fn new() -> (r: CommitStore)
        ensures
            r.view().index == Map::<Seq<char>, (Seq<char>, Seq<(Seq<char>, Seq<char>)>)>::empty(),
            r.view().blobs == Map::<Seq<char>, Seq<char>>::empty(),
    {
        CommitStore { commits: Vec::new(), blobs: Vec::new() }
    }
}

/// The index key of a commit: `owner/name/commit_id`.
pub open spec fn commit_key(owner: Seq<char>, name: Seq<char>, commit_id: Seq<char>) -> Seq<char> {
    owner + seq!['/'] + name + seq!['/'] + commit_id
}

/// The index key of a commit of the repository at `url`, where it names one.
pub open spec fn commit_key_of(url: Seq<char>, commit_id: Seq<char>) -> Option<Seq<char>> {
    match github_repo_of(url) {
        Some((o, n)) => Some(commit_key(o, n, commit_id)),
        None => None,
    }
}

/// What a read of `key` finds: the files with their contents, `None` for the
/// record where no record is stored, `Some(None)` where a blob is missing.
pub open spec fn read_view(sv: StoreView, key: Seq<char>) -> Option<Option<Seq<(Seq<char>, Seq<char>)>>> {
    if !sv.index.contains_key(key) {
        None
    } else {
        let files = sv.index[key].1;
        if forall|i: int| 0 <= i < files.len() ==> sv.blobs.contains_key(#[trigger] files[i].1) {
            Some(Some(files.map_values(|f: (Seq<char>, Seq<char>)| (f.0, sv.blobs[f.1]))))
        } else {
            Some(None)
        }
    }
}

/// Blobs after writing `contents[i]` under `handles[i]`, in order.
pub open spec fn blobs_with(
    blobs: Map<Seq<char>, Seq<char>>,
    handles: Seq<Seq<char>>,
    contents: Seq<Seq<char>>,
) -> Map<Seq<char>, Seq<char>>
    decreases handles.len(),
{
    if handles.len() == 0 || contents.len() == 0 {
        blobs
    } else {
        blobs_with(blobs, handles.drop_last(), contents.drop_last()).insert(handles.last(), contents.last())
    }
}

/// Names of files paired with handles.
pub open spec fn with_handles(files: Seq<(Seq<char>, Seq<char>)>, handles: Seq<Seq<char>>) -> Seq<(Seq<char>, Seq<char>)> {
    Seq::new(files.len(), |i: int| (files[i].0, handles[i]))
}

/// The store after saving `files` under `key` with the given fresh handles.
pub open spec fn saved_view(
    sv: StoreView,
    key: Seq<char>,
    branch: Seq<char>,
    files: Seq<(Seq<char>, Seq<char>)>,
    handles: Seq<Seq<char>>,
) -> StoreView {
    StoreView {
        index: sv.index.insert(key, (branch, with_handles(files, handles))),
        blobs: blobs_with(sv.blobs, handles, files.map_values(|f: (Seq<char>, Seq<char>)| f.1)),
    }
}

pub open spec fn distinct(s: Seq<Seq<char>>) -> bool {
    forall|i: int, j: int| 0 <= i < s.len() && 0 <= j < s.len() && i != j ==> s[i] != s[j]
}

proof fn blobs_with_lookup(
    blobs: Map<Seq<char>, Seq<char>>,
    handles: Seq<Seq<char>>,
    contents: Seq<Seq<char>>,
    i: int,
)
    requires
        handles.len() == contents.len(),
        distinct(handles),
        0 <= i < handles.len(),
    ensures
        blobs_with(blobs, handles, contents).contains_key(handles[i]),
        blobs_with(blobs, handles, contents)[handles[i]] == contents[i],
    decreases handles.len(),
{
    if i < handles.len() - 1 {
        assert(distinct(handles.drop_last()));
        blobs_with_lookup(blobs, handles.drop_last(), contents.drop_last(), i);
        assert(handles.last() != handles[i]);
    }
}

/// Saving and then reading the same commit gives back exactly the files saved,
/// whatever the store held before, under that key or any other.
pub proof fn read_after_save(
    sv: StoreView,
    key: Seq<char>,
    branch: Seq<char>,
    files: Seq<(Seq<char>, Seq<char>)>,
    handles: Seq<Seq<char>>,
)
    requires
        handles.len() == files.len(),
        distinct(handles),
    ensures
        read_view(saved_view(sv, key, branch, files, handles), key) == Some(Some(files)),
{
    let after = saved_view(sv, key, branch, files, handles);
    let contents = files.map_values(|f: (Seq<char>, Seq<char>)| f.1);
    let stored = with_handles(files, handles);
    assert(after.index[key].1 == stored);
    assert forall|i: int| 0 <= i < stored.len() implies after.blobs.contains_key(#[trigger] stored[i].1)
        && after.blobs[stored[i].1] == files[i].1 by {
        blobs_with_lookup(sv.blobs, handles, contents, i);
    }
    assert(stored.map_values(|f: (Seq<char>, Seq<char>)| (f.0, after.blobs[f.1])) =~= files);
}

/// Re-saving a commit replaces its record: a read afterwards gives only the new
/// files, never any of the old record's, and the record holds the new branch;
/// the old record's blobs stay in the content area, unreferenced.
pub proof fn resave_replaces(
    sv: StoreView,
    key: Seq<char>,
    branch: Seq<char>,
    files: Seq<(Seq<char>, Seq<char>)>,
    handles: Seq<Seq<char>>,
)
    requires
        sv.index.contains_key(key),
        handles.len() == files.len(),
        fresh_handles(sv, handles),
    ensures
        read_view(saved_view(sv, key, branch, files, handles), key) == Some(Some(files)),
        saved_view(sv, key, branch, files, handles).index[key].0 == branch,
        saved_view(sv, key, branch, files, handles).index[key].1.len() == files.len(),
        forall|h: Seq<char>| #[trigger] sv.blobs.contains_key(h) ==>
            saved_view(sv, key, branch, files, handles).blobs.contains_key(h)
            && saved_view(sv, key, branch, files, handles).blobs[h] == sv.blobs[h],
{
    read_after_save(sv, key, branch, files, handles);
    save_keeps_the_rest(sv, key, branch, files, handles);
}

proof fn blobs_with_keeps(
    blobs: Map<Seq<char>, Seq<char>>,
    handles: Seq<Seq<char>>,
    contents: Seq<Seq<char>>,
    h: Seq<char>,
)
    requires
        blobs.contains_key(h),
        forall|i: int| 0 <= i < handles.len() ==> handles[i] != h,
    ensures
        blobs_with(blobs, handles, contents).contains_key(h),
        blobs_with(blobs, handles, contents)[h] == blobs[h],
    decreases handles.len(),
{
    if handles.len() > 0 && contents.len() > 0 {
        blobs_with_keeps(blobs, handles.drop_last(), contents.drop_last(), h);
    }
}

/// Saving with fresh handles records the branch under the key, leaves every
/// other record as it was, and keeps every earlier blob, those of a replaced
/// record included.
pub proof fn save_keeps_the_rest(
    sv: StoreView,
    key: Seq<char>,
    branch: Seq<char>,
    files: Seq<(Seq<char>, Seq<char>)>,
    handles: Seq<Seq<char>>,
)
    requires
        handles.len() == files.len(),
        fresh_handles(sv, handles),
    ensures
        saved_view(sv, key, branch, files, handles).index[key].0 == branch,
        forall|k: Seq<char>| k != key && #[trigger] sv.index.contains_key(k) ==>
            saved_view(sv, key, branch, files, handles).index.contains_key(k)
            && saved_view(sv, key, branch, files, handles).index[k] == sv.index[k],
        forall|h: Seq<char>| #[trigger] sv.blobs.contains_key(h) ==>
            saved_view(sv, key, branch, files, handles).blobs.contains_key(h)
            && saved_view(sv, key, branch, files, handles).blobs[h] == sv.blobs[h],
{
    let contents = files.map_values(|f: (Seq<char>, Seq<char>)| f.1);
    assert forall|h: Seq<char>| #[trigger] sv.blobs.contains_key(h) implies
        saved_view(sv, key, branch, files, handles).blobs.contains_key(h)
        && saved_view(sv, key, branch, files, handles).blobs[h] == sv.blobs[h] by {
        assert forall|i: int| 0 <= i < handles.len() implies handles[i] != h by {
            assert(!sv.blobs.contains_key(handles[i]));
        }
        blobs_with_keeps(sv.blobs, handles, contents, h);
    }
}

/// Whether no file name occurs twice in a set of files.
pub open spec fn unique_names(files: Seq<(Seq<char>, Seq<char>)>) -> bool {
    forall|i: int, j: int| 0 <= i < files.len() && 0 <= j < files.len() && i != j
        ==> files[i].0 != files[j].0
}

/// Whether every stored record names each of its files once.
pub open spec fn names_unique(sv: StoreView) -> bool {
    forall|k: Seq<char>| #[trigger] sv.index.contains_key(k) ==> unique_names(sv.index[k].1)
}

/// Saving a set of files with unique names keeps every record's names unique.
pub proof fn saved_names_unique(
    sv: StoreView,
    key: Seq<char>,
    branch: Seq<char>,
    files: Seq<(Seq<char>, Seq<char>)>,
    handles: Seq<Seq<char>>,
)
    ensures
        names_unique(sv) && unique_names(files) ==> names_unique(saved_view(sv, key, branch, files, handles)),
{
    let after = saved_view(sv, key, branch, files, handles);
    if names_unique(sv) && unique_names(files) {
        assert forall|k: Seq<char>| #[trigger] after.index.contains_key(k) implies unique_names(after.index[k].1) by {
            if k == key {
                let w = with_handles(files, handles);
                assert forall|i: int, j: int| 0 <= i < w.len() && 0 <= j < w.len() && i != j
                    implies w[i].0 != w[j].0 by {
                    assert(w[i].0 == files[i].0);
                    assert(w[j].0 == files[j].0);
                }
            } else {
                assert(sv.index.contains_key(k));
            }
        }
    }
}

/// The last position holding key `k`, if any.
fn find_last<V>(v: &Vec<(String, V)>, k: &String) -> (r: Option<usize>)
    ensures
        match r {
            None => forall|j: int| 0 <= j < v@.len() ==> v@[j].0@ != k@,
            Some(i) => i < v@.len() && v@[i as int].0@ == k@
                && forall|j: int| i < j < v@.len() ==> v@[j].0@ != k@,
        },
{
    let mut i: usize = v.len();
    while i > 0
        invariant
            i <= v@.len(),
            forall|j: int| i <= j < v@.len() ==> v@[j].0@ != k@,
        decreases i,
    {
        if v[i - 1].0 == *k {
            return Some(i - 1);
        }
        i = i - 1;
    }
    None
}

/// The index key `owner/name/commit_id`.
pub fn make_commit_key(owner: &str, repo_name: &str, commit_id: &str) -> (r: String)
    ensures
        r@ == commit_key(owner@, repo_name@, commit_id@),
{
    let mut k = String::from_str(owner);
    k.append("/");
    k.append(repo_name);
    k.append("/");
    k.append(commit_id);
    proof {
        reveal_strlit("/");
    }
    k
}

pub open spec fn handles_view(v: Seq<String>) -> Seq<Seq<char>> {
    v.map_values(|h: String| h@)
}

pub open spec fn contents_of(files: Seq<(Seq<char>, Seq<char>)>) -> Seq<Seq<char>> {
    files.map_values(|f: (Seq<char>, Seq<char>)| f.1)
}

/// Whether the handles are distinct and none is already used by a blob.
pub open spec fn fresh_handles(sv: StoreView, handles: Seq<Seq<char>>) -> bool {
    distinct(handles) && forall|i: int| 0 <= i < handles.len() ==> !sv.blobs.contains_key(#[trigger] handles[i])
}

/// Whether the handles are distinct and unused.
fn handles_are_fresh(store: &CommitStore, handles: &Vec<String>) -> (r: bool)
    ensures
        r == fresh_handles(store.view(), handles_view(handles@)),
{
    let ghost hv = handles_view(handles@);
    let mut i: usize = 0;
    while i < handles.len()
        invariant
            i <= handles@.len(),
            hv == handles_view(handles@),
            forall|a: int, b: int| 0 <= a < i && 0 <= b < handles@.len() && a != b ==> hv[a] != hv[b],
            forall|a: int| 0 <= a < i ==> !store.view().blobs.contains_key(#[trigger] hv[a]),
        decreases handles@.len() - i,
    {
        match find_last(&store.blobs, &handles[i]) {
            Some(j) => {
                proof {
                    last_wins_found(pairs_view(store.blobs@), hv[i as int], j as int);
                }
                return false;
            },
            None => {
                proof {
                    last_wins_absent(pairs_view(store.blobs@), hv[i as int]);
                }
            },
        }
        let mut j: usize = 0;
        while j < handles.len()
            invariant
                i < handles@.len(),
                j <= handles@.len(),
                hv == handles_view(handles@),
                forall|b: int| 0 <= b < j && b != i ==> hv[i as int] != hv[b],
            decreases handles@.len() - j,
        {
            if j != i && handles[i] == handles[j] {
                assert(hv[i as int] == hv[j as int]);
                return false;
            }
            j = j + 1;
        }
        i = i + 1;
    }
    true
}

/// Saves `files` under the commit of the repository at `repo_url`, writing each
/// content as a new blob under the handle at the same position.
/// `InvalidRepoUrl` where the address names no repository, `StoreCorruption`
/// where the handles are not distinct and unused; the store changes only on success.
pub fn save_with_handles(
    store: &mut CommitStore,
    repo_url: &str,
    branch: &str,
    commit_id: &str,
    files: &Vec<(String, String)>,
    handles: Vec<String>,
) -> (r: Result<(), EnvaError>)
    requires
        handles@.len() == files@.len(),
    ensures
        match commit_key_of(repo_url@, commit_id@) {
            None => (r is Err && is_invalid_url(r->Err_0, repo_url@)) && *final(store) == *old(store),
            Some(key) => if fresh_handles(old(store).view(), handles_view(handles@)) {
                r is Ok && final(store).view() == saved_view(
                    old(store).view(), key, branch@, pairs_view(files@), handles_view(handles@))
            } else {
                r is Err && r->Err_0 is StoreCorruption && *final(store) == *old(store)
            },
        },
{
    let (owner, repo_name) = match parse_github_repo(repo_url) {
        None => return Err(EnvaError::InvalidRepoUrl(String::from_str(repo_url))),
        Some(p) => p,
    };
    let key = make_commit_key(owner.as_str(), repo_name.as_str(), commit_id);
    if !handles_are_fresh(store, &handles) {
        return Err(EnvaError::StoreCorruption(String::from_str("blob handle already in use")));
    }
    let ghost old_store = *store;
    let ghost hv = handles_view(handles@);
    let ghost fv = pairs_view(files@);
    let ghost cv = contents_of(fv);
    let mut entries: Vec<(String, String)> = Vec::new();
    let mut i: usize = 0;
    while i < files.len()
        invariant
            i <= files@.len(),
            handles@.len() == files@.len(),
            hv == handles_view(handles@),
            fv == pairs_view(files@),
            cv == contents_of(fv),
            store.commits == old_store.commits,
            last_wins(pairs_view(store.blobs@)) == blobs_with(
                last_wins(pairs_view(old_store.blobs@)), hv.subrange(0, i as int), cv.subrange(0, i as int)),
            entries@.len() == i,
            pairs_view(entries@) == with_handles(fv.subrange(0, i as int), hv.subrange(0, i as int)),
        decreases files@.len() - i,
    {
        let ghost before = pairs_view(store.blobs@);
        let ghost old_pe = pairs_view(entries@);
        let ghost old_entries = entries@;
        store.blobs.push((handles[i].clone(), files[i].1.clone()));
        entries.push((files[i].0.clone(), handles[i].clone()));
        proof {
            assert(pairs_view(store.blobs@).drop_last() =~= before);
            assert(hv.subrange(0, i + 1).drop_last() =~= hv.subrange(0, i as int));
            assert(cv.subrange(0, i + 1).drop_last() =~= cv.subrange(0, i as int));
            let w = with_handles(fv.subrange(0, i + 1), hv.subrange(0, i + 1));
            let w0 = with_handles(fv.subrange(0, i as int), hv.subrange(0, i as int));
            assert forall|k: int| 0 <= k < i + 1 implies pairs_view(entries@)[k] == w[k] by {
                if k < i {
                    assert(entries@[k] == old_entries[k]);
                    assert(pairs_view(entries@)[k] == old_pe[k]);
                    assert(old_pe[k] == w0[k]);
                } else {
                    assert(pairs_view(entries@)[k] == (files@[k].0@, handles@[k]@));
                }
            }
            assert(pairs_view(entries@) =~= w);
        }
        i = i + 1;
    }
    assert(hv.subrange(0, files@.len() as int) =~= hv);
    assert(cv.subrange(0, files@.len() as int) =~= cv);
    assert(fv.subrange(0, files@.len() as int) =~= fv);
    let ghost mid = commits_view(store.commits@);
    store.commits.push((key, CommitRecord { branch: String::from_str(branch), files: entries }));
    proof {
        assert(commits_view(store.commits@).drop_last() =~= mid);
        assert(store.view().index =~= saved_view(old_store.view(), key@, branch@, fv, hv).index);
    }
    Ok(())
}

/// Relies on `uuid::Uuid::new_v4` and its text form: a random handle.
#[verifier::external_body]
fn new_handle() -> (r: String)
{
    uuid::Uuid::new_v4().to_string()
}

/// Saves `files` under the commit of the repository at `repo_url`, each content
/// as a new blob under a fresh random handle; an earlier record of the commit is
/// replaced. Reading the commit afterwards gives exactly `files`.
pub fn save(
    store: &mut CommitStore,
    repo_url: &str,
    branch: &str,
    commit_id: &str,
    files: &Vec<(String, String)>,
) -> (r: Result<(), EnvaError>)
    ensures
        commit_key_of(repo_url@, commit_id@) is None <==> (r is Err && is_invalid_url(r->Err_0, repo_url@)),
        r is Ok ==> read_view(final(store).view(), commit_key_of(repo_url@, commit_id@)->0)
            == Some(Some(pairs_view(files@))),
        r is Ok ==> exists|hs: Seq<Seq<char>>| hs.len() == files@.len()
            && fresh_handles(old(store).view(), hs)
            && final(store).view() == saved_view(
                old(store).view(), commit_key_of(repo_url@, commit_id@)->0, branch@, pairs_view(files@), hs),
        files@.len() == 0 && commit_key_of(repo_url@, commit_id@) is Some ==> r is Ok,
        r is Ok && names_unique(old(store).view()) && unique_names(pairs_view(files@))
            ==> names_unique(final(store).view()),
        r is Err ==> *final(store) == *old(store),
        r is Err && commit_key_of(repo_url@, commit_id@) is Some ==> r->Err_0 is StoreCorruption,
        r is Err && commit_key_of(repo_url@, commit_id@) is Some ==> exists|hs: Seq<Seq<char>>|
            hs.len() == files@.len() && !fresh_handles(old(store).view(), hs),
{
    let mut handles: Vec<String> = Vec::new();
    let mut i: usize = 0;
    while i < files.len()
        invariant
            i <= files@.len(),
            handles@.len() == i,
        decreases files@.len() - i,
    {
        handles.push(new_handle());
        i = i + 1;
    }
    let ghost before = store.view();
    let ghost hv = handles_view(handles@);
    let r = save_with_handles(store, repo_url, branch, commit_id, files, handles);
    proof {
        if r is Ok {
            let key = commit_key_of(repo_url@, commit_id@)->0;
            read_after_save(before, key, branch@, pairs_view(files@), hv);
            saved_names_unique(before, key, branch@, pairs_view(files@), hv);
        }
        if files@.len() == 0 {
            assert(hv.len() == 0);
            assert(fresh_handles(before, hv));
        }
    }
    r
}

/// Reads the files saved under the commit of the repository at `repo_url`.
/// `InvalidRepoUrl` where the address names no repository, `CommitNotFound` with
/// the commit key where no record is stored, `StoreCorruption` where a blob the
/// record refers to is missing.
pub fn read(store: &CommitStore, repo_url: &str, commit_id: &str) -> (r: Result<Vec<(String, String)>, EnvaError>)
    ensures
        match commit_key_of(repo_url@, commit_id@) {
            None => (r is Err && is_invalid_url(r->Err_0, repo_url@)),
            Some(key) => match read_view(store.view(), key) {
                None => r is Err && r->Err_0 is CommitNotFound && r->Err_0->CommitNotFound_0@ == key,
                Some(None) => r is Err && r->Err_0 is StoreCorruption,
                Some(Some(fs)) => r is Ok && pairs_view(r->Ok_0@) == fs,
            },
        },
        r is Ok && names_unique(store.view()) ==> unique_names(pairs_view(r->Ok_0@)),
{
    let (owner, repo_name) = match parse_github_repo(repo_url) {
        None => return Err(EnvaError::InvalidRepoUrl(String::from_str(repo_url))),
        Some(p) => p,
    };
    let key = make_commit_key(owner.as_str(), repo_name.as_str(), commit_id);
    let ghost sv = store.view();
    let idx = match find_last(&store.commits, &key) {
        None => {
            proof {
                last_wins_absent(commits_view(store.commits@), key@);
            }
            return Err(EnvaError::CommitNotFound(key));
        },
        Some(j) => j,
    };
    proof {
        last_wins_found(commits_view(store.commits@), key@, idx as int);
    }
    let rec = &store.commits[idx].1;
    let ghost files = pairs_view(rec.files@);
    assert(sv.index[key@].1 == files);
    let mut out: Vec<(String, String)> = Vec::new();
    let mut i: usize = 0;
    while i < rec.files.len()
        invariant
            i <= rec.files@.len(),
            files == pairs_view(rec.files@),
            sv == store.view(),
            sv.index.contains_key(key@),
            sv.index[key@].1 == files,
            commit_key_of(repo_url@, commit_id@) == Some(key@),
            out@.len() == i,
            forall|k: int| 0 <= k < i ==> sv.blobs.contains_key(#[trigger] files[k].1),
            forall|k: int| 0 <= k < i ==> #[trigger] pairs_view(out@)[k] == (files[k].0, sv.blobs[files[k].1]),
        decreases rec.files@.len() - i,
    {
        match find_last(&store.blobs, &rec.files[i].1) {
            None => {
                proof {
                    last_wins_absent(pairs_view(store.blobs@), files[i as int].1);
                    assert(!sv.blobs.contains_key(files[i as int].1));
                    assert(!(forall|k: int| 0 <= k < files.len() ==> sv.blobs.contains_key(#[trigger] files[k].1)));
                }
                return Err(EnvaError::StoreCorruption(rec.files[i].1.clone()));
            },
            Some(j) => {
                proof {
                    last_wins_found(pairs_view(store.blobs@), files[i as int].1, j as int);
                }
                let ghost old_out = out@;
                out.push((rec.files[i].0.clone(), store.blobs[j].1.clone()));
                proof {
                    assert forall|k: int| 0 <= k < i + 1 implies #[trigger] pairs_view(out@)[k]
                        == (files[k].0, sv.blobs[files[k].1]) by {
                        if k < i {
                            assert(out@[k] == old_out[k]);
                            assert(pairs_view(old_out)[k] == (files[k].0, sv.blobs[files[k].1]));
                        } else {
                            assert(out@[k] == (rec.files@[k].0, store.blobs@[j as int].1));
                            assert(pairs_view(store.blobs@)[j as int].1 == store.blobs@[j as int].1@);
                        }
                    }
                }
            },
        }
        i = i + 1;
    }
    assert(pairs_view(out@) =~= files.map_values(|f: (Seq<char>, Seq<char>)| (f.0, sv.blobs[f.1])));
    proof {
        if names_unique(sv) {
            assert(unique_names(sv.index[key@].1));
            let o = pairs_view(out@);
            assert forall|a: int, b: int| 0 <= a < o.len() && 0 <= b < o.len() && a != b
                implies o[a].0 != o[b].0 by {
                assert(o[a].0 == files[a].0);
                assert(o[b].0 == files[b].0);
            }
        }
    }
    Ok(out)
}

} // verus!
