//! The failures that the repository and its callers tell apart, and the HTTP
//! status that each is answered with.

use vstd::prelude::*;

verus! {

/// A failure of the repository layer.
#[derive(Clone, Copy, Debug, PartialEq, Eq, Structural)]
pub enum RepoError {
    /// The database URL is missing or unusable. Fatal at startup.
    Config,
    /// No connection became free within the pool's wait policy.
    PoolExhausted,
    /// A connection could not be established or was lost.
    Connection,
    /// The database refused or failed the statement.
    Db,
    /// No row matched a lookup by identity.
    NotFound,
}

/// The HTTP status for a failure: 404 for a missing row, 503 while no
/// connection can be had, 500 otherwise.
pub open spec fn status_of(e: RepoError) -> u16 {
    match e {
        RepoError::NotFound => 404,
        RepoError::PoolExhausted => 503,
        RepoError::Connection => 503,
        RepoError::Db => 500,
        RepoError::Config => 500,
    }
}

/// The machine-readable name of a failure.
pub open spec fn name_of(e: RepoError) -> Seq<char> {
    match e {
        RepoError::Config => "config"@,
        RepoError::PoolExhausted => "pool_exhausted"@,
        RepoError::Connection => "connection"@,
        RepoError::Db => "database"@,
        RepoError::NotFound => "not_found"@,
    }
}

/// The JSON body that reports a failure: an object with the one member
/// `error`, whose value is the failure's name.
pub open spec fn body_of(e: RepoError) -> Seq<char> {
    "{\"error\":\""@ + name_of(e) + "\"}"@
}

impl RepoError {
    /// The HTTP status that answers this failure.
    pub fn status(&self) -> (code: u16)
        ensures
            code == status_of(*self),
    {
        match self {
            RepoError::NotFound => 404,
            RepoError::PoolExhausted => 503,
            RepoError::Connection => 503,
            RepoError::Db => 500,
            RepoError::Config => 500,
        }
    }

    /// The machine-readable name of this failure.
    pub fn name(&self) -> (out: &'static str)
        ensures
            out@ == name_of(*self),
    {
        match self {
            RepoError::Config => "config",
            RepoError::PoolExhausted => "pool_exhausted",
            RepoError::Connection => "connection",
            RepoError::Db => "database",
            RepoError::NotFound => "not_found",
        }
    }

    /// The JSON body that reports this failure.
    pub fn body(&self) -> (out: String)
        ensures
            out@ == body_of(*self),
    {
        let mut out = "{\"error\":\"".to_owned();
        out.append(self.name());
        out.append("\"}");
        out
    }

    /// Whether the caller may try the same request again later.
    pub fn is_retryable(&self) -> (out: bool)
        ensures
            out == (*self == RepoError::PoolExhausted || *self == RepoError::Connection),
    {
        match self {
            RepoError::PoolExhausted => true,
            RepoError::Connection => true,
            _ => false,
        }
    }
}

/// Only a missing row is answered with 404; every other failure with a
/// status from 500 to 599.
pub proof fn lemma_status_classes(e: RepoError)
    ensures
        status_of(e) == 404 <==> e == RepoError::NotFound,
        e != RepoError::NotFound ==> 500 <= status_of(e) <= 599,
{
}

} // verus!
