//! The plain data model: connection page markers, the node and edge shapes
//! decoded from the remote API, and the error taxonomy of the extraction
//! pipeline.

use vstd::prelude::*;

verus! {

/// Pagination marker of one connection edge: whether a further page exists
/// and the opaque cursor at which it starts. A cursor is only meaningful
/// for the edge it was issued for.
#[derive(Debug)]
pub struct PageInfo {
    pub has_next_page: bool,
    pub end_cursor: Option<String>,
}

/// The entity payload of one organization member.
#[derive(Debug)]
pub struct MemberNode {
    pub id: String,
    pub database_id: Option<i64>,
    pub login: String,
    pub name: Option<String>,
}

/// One member edge: per-edge role metadata around a possibly absent node.
#[derive(Debug)]
pub struct MemberEdge {
    pub role: Option<String>,
    pub has_two_factor_enabled: Option<bool>,
    pub node: Option<MemberNode>,
}

/// Reference to the platform user an external identity is linked to.
#[derive(Debug)]
pub struct UserRef {
    pub id: String,
}

/// The SSO identity payload of an external identity node.
#[derive(Debug)]
pub struct SamlIdentity {
    pub name_id: Option<String>,
}

/// One external identity node: identities without a `user` reference are
/// not join candidates and are skipped by the reconciler.
#[derive(Debug)]
pub struct IdentityNode {
    pub user: Option<UserRef>,
    pub saml_identity: Option<SamlIdentity>,
}

/// One external identity edge.
#[derive(Debug)]
pub struct IdentityEdge {
    pub node: Option<IdentityNode>,
}

/// A language name as it appears in a repository's language breakdown.
#[derive(Debug)]
pub struct LanguageNode {
    pub name: String,
}

/// One entry of a repository's language breakdown: the language and the
/// number of bytes written in it.
#[derive(Debug)]
pub struct LanguageEdge {
    pub size: i64,
    pub node: LanguageNode,
}

/// The language breakdown of one repository. This connection is itself
/// paginated; a further page here is a fatal condition (the run must not
/// silently under-report language data).
#[derive(Debug)]
pub struct LanguageConnection {
    pub edges: Option<Vec<Option<LanguageEdge>>>,
    pub page_info: PageInfo,
}

/// The entity payload of one repository.
#[derive(Debug)]
pub struct RepositoryNode {
    pub id: String,
    pub database_id: Option<i64>,
    pub name: String,
    pub created_at: String,
    pub updated_at: String,
    pub is_fork: bool,
    pub is_private: bool,
    pub primary_language: Option<LanguageNode>,
    pub languages: Option<LanguageConnection>,
    pub description: Option<String>,
}

/// One repository edge.
#[derive(Debug)]
pub struct RepositoryEdge {
    pub node: Option<RepositoryNode>,
}

/// One entry of the `errors` list of a response envelope.
#[derive(Debug)]
pub struct GraphQlErrorEntry {
    pub message: String,
}

/// Which structurally-guaranteed node was absent from an error-free
/// envelope. Absence of any of these is an API contract violation, not a
/// normal empty result: an organization with zero members still returns an
/// empty edges list, never a missing one.
#[derive(PartialEq, Eq, Structural, Clone, Copy, Debug)]
pub enum MissingNode {
    Organization,
    MembersList,
    ExternalIdentityInfo,
    SamlIdentityList,
    RepositoriesList,
}

/// Why extraction of a decoded envelope failed.
#[derive(Debug)]
pub enum ExtractError {
    /// The envelope carried at least one `errors` entry; the message holds
    /// all entry messages joined for display. This takes precedence over
    /// everything else in the envelope.
    GraphQl { message: String },
    /// An expected-present node was absent from an error-free envelope.
    MissingData { node: MissingNode },
}

/// A repository whose language breakdown itself reports a further page:
/// fatal, carrying the repository's identity and the stranded cursor so an
/// operator can investigate.
#[derive(Debug)]
pub struct UnsupportedPagination {
    pub repository_name: String,
    pub repository_id: String,
    pub end_cursor: Option<String>,
}

} // verus!
