//! The failures that the library reports.

use vstd::prelude::*;
use vstd::string::StringExecFns;

verus! {

/// Why an operation did not complete.
#[derive(Debug, Clone, PartialEq, Eq)]
pub enum EnvaError {
    /// The address, which names no GitHub repository.
    InvalidRepoUrl(String),
    /// No key is stored for the repository: a password must be registered first.
    KeyNotFound,
    /// The secret store could not be used, or held malformed key material.
    SecretStore,
    /// A ciphertext did not verify under the key (wrong key, corruption or tampering).
    AuthenticationFailure,
    /// The bearer credential was not accepted.
    Unauthenticated(String),
    /// The repository could not be read with the credential.
    RepoAccessDenied(String),
    /// The identity may not even read the repository.
    InsufficientPermission,
    /// The identity may only read, and the repository has no organization owner.
    NotOrgOwned,
    /// The identity may only read, and is not a member of the owning organization.
    NotOrgMember { user: String, org: String },
    /// No record is stored under this commit key.
    CommitNotFound(String),
    /// A record refers to content that is not stored.
    StoreCorruption(String),
    /// The server could not be reached, or answered with no usable body.
    NetworkError,
}

/// Whether `e` reports that `url` names no repository.
pub open spec fn is_invalid_url(e: EnvaError, url: Seq<char>) -> bool {
    e is InvalidRepoUrl && e->InvalidRepoUrl_0@ == url
}

/// `Failed to parse repo URL: <url>`
pub open spec fn invalid_url_message(url: Seq<char>) -> Seq<char> {
    "Failed to parse repo URL: "@ + url
}

/// The reason text of an error, as reported to users and in responses.
pub open spec fn message_of(e: EnvaError) -> Seq<char> {
    match e {
        EnvaError::InvalidRepoUrl(url) => invalid_url_message(url@),
        EnvaError::KeyNotFound => "No key stored for this repository; register a password first"@,
        EnvaError::SecretStore => "The secret store failed or holds no valid key"@,
        EnvaError::AuthenticationFailure => "Decryption failed: wrong key or corrupted data"@,
        EnvaError::Unauthenticated(m) => m@,
        EnvaError::RepoAccessDenied(m) => m@,
        EnvaError::InsufficientPermission => "You don't have read permissions on this repo"@,
        EnvaError::NotOrgOwned => "This repo is not owned by an organization"@,
        EnvaError::NotOrgMember { user, org } =>
            "User "@ + user@ + " is not a member of organization "@ + org@,
        EnvaError::CommitNotFound(key) => "Commit "@ + key@ + " not found"@,
        EnvaError::StoreCorruption(what) => "Store corruption: "@ + what@,
        EnvaError::NetworkError => "Network error"@,
    }
}

impl EnvaError {
    /// The reason text of this error.
    pub fn message(&self) -> (r: String)
        ensures
            r@ == message_of(*self),
    {
        match self {
            EnvaError::InvalidRepoUrl(url) => {
                let mut s = String::from_str("Failed to parse repo URL: ");
                s.append(url.as_str());
                s
            },
            EnvaError::KeyNotFound => String::from_str("No key stored for this repository; register a password first"),
            EnvaError::SecretStore => String::from_str("The secret store failed or holds no valid key"),
            EnvaError::AuthenticationFailure => String::from_str("Decryption failed: wrong key or corrupted data"),
            EnvaError::Unauthenticated(m) => m.clone(),
            EnvaError::RepoAccessDenied(m) => m.clone(),
            EnvaError::InsufficientPermission => String::from_str("You don't have read permissions on this repo"),
            EnvaError::NotOrgOwned => String::from_str("This repo is not owned by an organization"),
            EnvaError::NotOrgMember { user, org } => {
                let mut s = String::from_str("User ");
                s.append(user.as_str());
                s.append(" is not a member of organization ");
                s.append(org.as_str());
                s
            },
            EnvaError::CommitNotFound(key) => {
                let mut s = String::from_str("Commit ");
                s.append(key.as_str());
                s.append(" not found");
                s
            },
            EnvaError::StoreCorruption(what) => {
                let mut s = String::from_str("Store corruption: ");
                s.append(what.as_str());
                s
            },
            EnvaError::NetworkError => String::from_str("Network error"),
        }
    }
}

} // verus!
