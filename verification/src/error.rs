use vstd::prelude::*;

use std::sync::Arc;

verus! {

/// Mathematical model of a cache-layer error.
pub enum ErrorModel {
    /// An internal failure of the service itself.
    Internal,
    /// A required request parameter was absent, or the resource does not exist.
    NotFound,
    /// The upstream provider failed; carries its message verbatim.
    Upstream { message: Seq<char> },
    /// A failure reported while coordinating a coalesced fetch.
    Coordination { message: Seq<char> },
}

/// Errors surfaced by the caching layer. The cache never interprets the text
/// carried by a provider failure; it only distinguishes success from failure.
#[derive(Debug)]
pub enum KawaiiError {
    InternalServerError,
    NotFound,
    AniRustRefError(String),
    CacheError(String),
}

impl View for KawaiiError {
    type V = ErrorModel;

    open spec fn view(&self) -> ErrorModel {
        match self {
            KawaiiError::InternalServerError => ErrorModel::Internal,
            KawaiiError::NotFound => ErrorModel::NotFound,
            KawaiiError::AniRustRefError(m) => ErrorModel::Upstream { message: m@ },
            KawaiiError::CacheError(m) => ErrorModel::Coordination { message: m@ },
        }
    }
}

/// Outward status class of an error: a missing parameter or absent resource
/// is not-found; every other failure is an internal/upstream failure.
pub open spec fn spec_status_code(e: ErrorModel) -> u16 {
    if e is NotFound {
        404
    } else {
        500
    }
}

impl KawaiiError {
    /// The HTTP status code this error maps to at the outward boundary.
    pub fn status_code(&self) -> (code: u16)
        ensures
            code == spec_status_code(self@),
    {
        match self {
            KawaiiError::NotFound => 404,
            _ => 500,
        }
    }

    /// Rebuilds an owned error from one shared among coalesced callers, so
    /// that every caller of a failed fetch receives the same failure.
    pub fn from_shared(shared: &Arc<KawaiiError>) -> (r: KawaiiError)
        ensures
            r@ == shared@,
    {
        match &**shared {
            KawaiiError::InternalServerError => KawaiiError::InternalServerError,
            KawaiiError::NotFound => KawaiiError::NotFound,
            KawaiiError::AniRustRefError(m) => KawaiiError::AniRustRefError(m.clone()),
            KawaiiError::CacheError(m) => KawaiiError::CacheError(m.clone()),
        }
    }
}

} // verus!
