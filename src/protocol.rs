//! The commit and fetch endpoints: request and response bodies, the bearer
//! credential, and what the server answers once authorization is decided.

use vstd::prelude::*;
use vstd::string::StringExecFns;
use crate::error::{EnvaError, message_of, invalid_url_message};
use crate::store::{CommitStore, save, read, commit_key_of, read_view, pairs_view, fresh_handles, saved_view};
use crate::text::{chars_of, string_from_chars};

verus! {

/// Body of `POST /commit`.
pub struct CommitRequest {
    pub repo_url: String,
    pub branch: String,
    pub commit_id: String,
    pub env_files: Vec<(String, String)>,
}

/// Answer to `POST /commit`.
pub struct CommitResponse {
    pub success: bool,
    pub error: Option<String>,
}

/// Body of `POST /fetch`.
pub struct FetchRequest {
    pub repo_url: String,
    pub commit_id: String,
}

/// Answer to `POST /fetch`.
pub struct FetchResponse {
    pub success: bool,
    pub env_files: Option<Vec<(String, String)>>,
    pub error: Option<String>,
}

pub open spec fn text_view(t: Option<String>) -> Option<Seq<char>> {
    match t {
        Some(s) => Some(s@),
        None => None,
    }
}

/// `Bearer `
pub open spec fn bearer_prefix() -> Seq<char> {
    seq!['B', 'e', 'a', 'r', 'e', 'r', ' ']
}

/// The credential of an `Authorization` header: what follows `Bearer `; empty
/// where the header is absent or has another form.
pub open spec fn bearer_of(header: Option<Seq<char>>) -> Seq<char> {
    match header {
        Some(h) => if h.len() >= 7 && h.subrange(0, 7) == bearer_prefix() {
            h.subrange(7, h.len() as int)
        } else {
            Seq::empty()
        },
        None => Seq::empty(),
    }
}

/// `No token provided`
pub open spec fn no_token_message() -> Seq<char> {
    "No token provided"@
}

/// Extracts the bearer credential from an `Authorization` header value.
pub fn bearer_token(header: Option<&str>) -> (r: String)
    ensures
        r@ == bearer_of(match header {
            Some(h) => Some(h@),
            None => None,
        }),
{
    let h = match header {
        None => return String::new(),
        Some(h) => h,
    };
    let c = chars_of(h);
    let p: [char; 7] = ['B', 'e', 'a', 'r', 'e', 'r', ' '];
    assert(p@ =~= bearer_prefix());
    if c.len() < 7 {
        return String::new();
    }
    let mut i: usize = 0;
    while i < 7
        invariant
            i <= 7,
            c@.len() >= 7,
            c@ == h@,
            header == Some(h),
            p@ == bearer_prefix(),
            forall|j: int| 0 <= j < i ==> c@[j] == p@[j],
        decreases 7 - i,
    {
        if c[i] != p[i] {
            assert(c@.subrange(0, 7)[i as int] != bearer_prefix()[i as int]);
            assert(c@.subrange(0, 7) != bearer_prefix());
            assert(h@.subrange(0, 7) != bearer_prefix());
            return String::new();
        }
        i = i + 1;
    }
    assert(c@.subrange(0, 7) =~= bearer_prefix());
    let mut rest: Vec<char> = Vec::new();
    let mut k: usize = 7;
    while k < c.len()
        invariant
            7 <= k <= c@.len(),
            c@ == h@,
            header == Some(h),
            rest@ == c@.subrange(7, k as int),
        decreases c@.len() - k,
    {
        rest.push(c[k]);
        k = k + 1;
    }
    string_from_chars(rest.as_slice())
}

fn no_token() -> (r: String)
    ensures
        r@ == no_token_message(),
{
    String::from_str("No token provided")
}

/// Answers a commit request. An empty credential is refused before anything
/// else, the store untouched; otherwise `verdict`, the authorization outcome for the
/// credential and the request's repository, decides; an authorized request is
/// saved.
pub fn commit(
    store: &mut CommitStore,
    token: &str,
    verdict: Option<Result<(), EnvaError>>,
    request: &CommitRequest,
) -> (r: CommitResponse)
    requires
        token@.len() > 0 ==> verdict is Some,
    ensures
        token@.len() == 0 ==> !r.success && text_view(r.error) == Some(no_token_message())
            && *final(store) == *old(store),
        token@.len() > 0 && verdict->0 is Err ==> !r.success
            && text_view(r.error) == Some(message_of(verdict->0->Err_0)) && *final(store) == *old(store),
        token@.len() > 0 && verdict->0 is Ok ==> {
            match commit_key_of(request.repo_url@, request.commit_id@) {
                None => !r.success && text_view(r.error) == Some(invalid_url_message(request.repo_url@)),
                Some(key) => (r.success ==> r.error is None
                    && read_view(final(store).view(), key) == Some(Some(pairs_view(request.env_files@)))
                    && exists|hs: Seq<Seq<char>>| hs.len() == request.env_files@.len()
                        && fresh_handles(old(store).view(), hs)
                        && final(store).view() == saved_view(old(store).view(), key, request.branch@,
                            pairs_view(request.env_files@), hs))
                    && (request.env_files@.len() == 0 ==> r.success)
                    && (!r.success ==> exists|e: EnvaError| e is StoreCorruption
                        && text_view(r.error) == Some(message_of(e)))
                    && (!r.success ==> exists|hs: Seq<Seq<char>>| hs.len() == request.env_files@.len()
                        && !fresh_handles(old(store).view(), hs)),
            }
        },
        !r.success ==> r.error is Some && *final(store) == *old(store),
        r.success ==> r.error is None,
{
    if token.is_empty() {
        return CommitResponse { success: false, error: Some(no_token()) };
    }
    match verdict {
        Some(Err(e)) => CommitResponse { success: false, error: Some(e.message()) },
        _ => match save(
            store,
            request.repo_url.as_str(),
            request.branch.as_str(),
            request.commit_id.as_str(),
            &request.env_files,
        ) {
            Ok(()) => CommitResponse { success: true, error: None },
            Err(e) => CommitResponse { success: false, error: Some(e.message()) },
        },
    }
}

/// Answers a fetch request. An empty credential is refused before anything
/// else; otherwise `verdict` decides; an authorized request gets the files
/// stored under the commit, or the reason they cannot be read.
pub fn fetch(
    store: &CommitStore,
    token: &str,
    verdict: Option<Result<(), EnvaError>>,
    request: &FetchRequest,
) -> (r: FetchResponse)
    requires
        token@.len() > 0 ==> verdict is Some,
    ensures
        r.success <==> r.env_files is Some,
        r.success <==> r.error is None,
        token@.len() == 0 ==> !r.success && text_view(r.error) == Some(no_token_message()),
        token@.len() > 0 && verdict->0 is Err ==> !r.success
            && text_view(r.error) == Some(message_of(verdict->0->Err_0)),
        token@.len() > 0 && verdict->0 is Ok ==> {
            match commit_key_of(request.repo_url@, request.commit_id@) {
                None => !r.success && text_view(r.error) == Some(invalid_url_message(request.repo_url@)),
                Some(key) => match read_view(store.view(), key) {
                    None => !r.success && text_view(r.error) == Some("Commit "@ + key + " not found"@),
                    Some(None) => !r.success,
                    Some(Some(fs)) => r.success && pairs_view(r.env_files->0@) == fs,
                },
            }
        },
{
    if token.is_empty() {
        return FetchResponse { success: false, env_files: None, error: Some(no_token()) };
    }
    match verdict {
        Some(Err(e)) => FetchResponse { success: false, env_files: None, error: Some(e.message()) },
        _ => match read(store, request.repo_url.as_str(), request.commit_id.as_str()) {
            Ok(files) => FetchResponse { success: true, env_files: Some(files), error: None },
            Err(e) => FetchResponse { success: false, env_files: None, error: Some(e.message()) },
        },
    }
}

} // verus!
