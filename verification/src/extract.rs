//! The response extractor: validates a decoded envelope for API-level
//! errors and unwraps the nested object graph into the flat edge lists and
//! page markers the pagination driver consumes.
//!
//! An envelope with any `errors` entry fails unconditionally, whether or
//! not `data` is also present. After that, every structurally
//! guaranteed-present node that is absent is reported by name.

use vstd::prelude::*;
use crate::data::{
    ExtractError, GraphQlErrorEntry, IdentityEdge, MemberEdge, MissingNode, PageInfo,
    RepositoryEdge,
};
use crate::text::{join_strings, spec_join};

verus! {

/// The members-with-role connection of an organization.
#[derive(Debug)]
pub struct MemberConnection {
    pub edges: Option<Vec<Option<MemberEdge>>>,
    pub page_info: PageInfo,
}

/// The external identities connection of an identity provider.
#[derive(Debug)]
pub struct IdentityConnection {
    pub edges: Option<Vec<Option<IdentityEdge>>>,
    pub page_info: PageInfo,
}

/// The SSO identity provider of an organization.
#[derive(Debug)]
pub struct SamlIdentityProvider {
    pub external_identities: IdentityConnection,
}

/// The organization object of a members-flow response.
#[derive(Debug)]
pub struct MembersOrganization {
    pub members_with_role: MemberConnection,
    pub saml_identity_provider: Option<SamlIdentityProvider>,
}

/// The `data` object of a members-flow response.
#[derive(Debug)]
pub struct MembersData {
    pub organization: Option<MembersOrganization>,
}

/// The decoded top-level envelope of a members-flow response.
#[derive(Debug)]
pub struct MembersEnvelope {
    pub data: Option<MembersData>,
    pub errors: Option<Vec<GraphQlErrorEntry>>,
}

/// The repositories connection of an organization.
#[derive(Debug)]
pub struct RepositoryConnection {
    pub edges: Option<Vec<Option<RepositoryEdge>>>,
    pub page_info: PageInfo,
}

/// The organization object of a repositories-flow response.
#[derive(Debug)]
pub struct ReposOrganization {
    pub repositories: RepositoryConnection,
}

/// The `data` object of a repositories-flow response.
#[derive(Debug)]
pub struct ReposData {
    pub organization: Option<ReposOrganization>,
}

/// The decoded top-level envelope of a repositories-flow response.
#[derive(Debug)]
pub struct ReposEnvelope {
    pub data: Option<ReposData>,
    pub errors: Option<Vec<GraphQlErrorEntry>>,
}

/// One extracted members-flow page: both edge lists with their page
/// markers, unchanged, for the driver to consume.
#[derive(Debug)]
pub struct MembersPage {
    pub members: Vec<Option<MemberEdge>>,
    pub members_page_info: PageInfo,
    pub ext_ids: Vec<Option<IdentityEdge>>,
    pub ext_ids_page_info: PageInfo,
}

/// One extracted repositories-flow page.
#[derive(Debug)]
pub struct ReposPage {
    pub repositories: Vec<Option<RepositoryEdge>>,
    pub page_info: PageInfo,
}

/// Whether the envelope's error list holds at least one entry.
pub open spec fn spec_errors_present(errors: Option<Vec<GraphQlErrorEntry>>) -> bool {
    match errors {
        Some(v) => v@.len() > 0,
        None => false,
    }
}

/// The messages of the envelope's error entries, in order.
pub open spec fn spec_error_messages(errors: Option<Vec<GraphQlErrorEntry>>) -> Seq<Seq<char>> {
    match errors {
        Some(v) => v@.map_values(|e: GraphQlErrorEntry| e.message@),
        None => Seq::empty(),
    }
}

/// All error-entry messages joined for display.
pub open spec fn spec_graphql_message(errors: Option<Vec<GraphQlErrorEntry>>) -> Seq<char> {
    spec_join(spec_error_messages(errors), "\n    "@)
}

/// Whether `r` failed as a `GraphQl` error carrying exactly `msg`.
pub open spec fn spec_graphql_failure<T>(r: Result<T, ExtractError>, msg: Seq<char>) -> bool {
    match r {
        Err(ExtractError::GraphQl { message }) => message@ == msg,
        _ => false,
    }
}

/// What unwrapping the members-flow object graph yields once the envelope
/// is known error-free: the first absent guaranteed node, or the page.
pub open spec fn spec_extract_members_data(data: Option<MembersData>) -> Result<
    MembersPage,
    ExtractError,
> {
    match data {
        None => Err(ExtractError::MissingData { node: MissingNode::Organization }),
        Some(d) => match d.organization {
            None => Err(ExtractError::MissingData { node: MissingNode::Organization }),
            Some(org) => match org.members_with_role.edges {
                None => Err(ExtractError::MissingData { node: MissingNode::MembersList }),
                Some(members) => match org.saml_identity_provider {
                    None => Err(
                        ExtractError::MissingData { node: MissingNode::ExternalIdentityInfo },
                    ),
                    Some(provider) => match provider.external_identities.edges {
                        None => Err(
                            ExtractError::MissingData { node: MissingNode::SamlIdentityList },
                        ),
                        Some(ext_ids) => Ok(
                            MembersPage {
                                members,
                                members_page_info: org.members_with_role.page_info,
                                ext_ids,
                                ext_ids_page_info: provider.external_identities.page_info,
                            },
                        ),
                    },
                },
            },
        },
    }
}

/// What unwrapping the repositories-flow object graph yields once the
/// envelope is known error-free.
pub open spec fn spec_extract_repos_data(data: Option<ReposData>) -> Result<
    ReposPage,
    ExtractError,
> {
    match data {
        None => Err(ExtractError::MissingData { node: MissingNode::Organization }),
        Some(d) => match d.organization {
            None => Err(ExtractError::MissingData { node: MissingNode::Organization }),
            Some(org) => match org.repositories.edges {
                None => Err(ExtractError::MissingData { node: MissingNode::RepositoriesList }),
                Some(repositories) => Ok(
                    ReposPage { repositories, page_info: org.repositories.page_info },
                ),
            },
        },
    }
}

/// Joins the messages of the error entries for display.
fn join_error_messages(errors: &Vec<GraphQlErrorEntry>) -> (r: String)
    ensures
        r@ == spec_join(errors@.map_values(|e: GraphQlErrorEntry| e.message@), "\n    "@),
{
    let mut parts: Vec<String> = Vec::new();
    let mut i: usize = 0;
    while i < errors.len()
        invariant
            0 <= i <= errors@.len(),
            parts@.map_values(|p: String| p@) == errors@.take(i as int).map_values(
                |e: GraphQlErrorEntry| e.message@,
            ),
        decreases errors@.len() - i,
    {
        let ghost before = parts@;
        parts.push(errors[i].message.clone());
        proof {
            assert(parts@ =~= before.push(errors@[i as int].message));
            assert(parts@.map_values(|p: String| p@) =~= before.map_values(|p: String| p@).push(
                errors@[i as int].message@,
            ));
            assert(errors@.take(i as int + 1) =~= errors@.take(i as int).push(errors@[i as int]));
            assert(errors@.take(i as int + 1).map_values(|e: GraphQlErrorEntry| e.message@)
                =~= errors@.take(i as int).map_values(|e: GraphQlErrorEntry| e.message@).push(
                errors@[i as int].message@,
            ));
        }
        i = i + 1;
    }
    proof {
        assert(errors@.take(errors@.len() as int) =~= errors@);
    }
    join_strings(&parts, "\n    ")
}

fn extract_members_data(data: Option<MembersData>) -> (r: Result<MembersPage, ExtractError>)
    ensures
        r == spec_extract_members_data(data),
{
    match data {
        None => Err(ExtractError::MissingData { node: MissingNode::Organization }),
        Some(d) => match d.organization {
            None => Err(ExtractError::MissingData { node: MissingNode::Organization }),
            Some(org) => match org.members_with_role.edges {
                None => Err(ExtractError::MissingData { node: MissingNode::MembersList }),
                Some(members) => match org.saml_identity_provider {
                    None => Err(
                        ExtractError::MissingData { node: MissingNode::ExternalIdentityInfo },
                    ),
                    Some(provider) => match provider.external_identities.edges {
                        None => Err(
                            ExtractError::MissingData { node: MissingNode::SamlIdentityList },
                        ),
                        Some(ext_ids) => Ok(
                            MembersPage {
                                members,
                                members_page_info: org.members_with_role.page_info,
                                ext_ids,
                                ext_ids_page_info: provider.external_identities.page_info,
                            },
                        ),
                    },
                },
            },
        },
    }
}

fn extract_repos_data(data: Option<ReposData>) -> (r: Result<ReposPage, ExtractError>)
    ensures
        r == spec_extract_repos_data(data),
{
    match data {
        None => Err(ExtractError::MissingData { node: MissingNode::Organization }),
        Some(d) => match d.organization {
            None => Err(ExtractError::MissingData { node: MissingNode::Organization }),
            Some(org) => match org.repositories.edges {
                None => Err(ExtractError::MissingData { node: MissingNode::RepositoriesList }),
                Some(repositories) => Ok(
                    ReposPage { repositories, page_info: org.repositories.page_info },
                ),
            },
        },
    }
}

/// Validates and unwraps one members-flow envelope. Any `errors` entry
/// fails the extraction outright, even beside non-null `data`; only an
/// error-free envelope has its object graph unwrapped.
pub fn extract_members(env: MembersEnvelope) -> (r: Result<MembersPage, ExtractError>)
    ensures
        spec_errors_present(env.errors) ==> spec_graphql_failure(
            r,
            spec_graphql_message(env.errors),
        ),
        !spec_errors_present(env.errors) ==> r == spec_extract_members_data(env.data),
{
    match env.errors {
        Some(errors) => {
            if errors.len() > 0 {
                let message = join_error_messages(&errors);
                Err(ExtractError::GraphQl { message })
            } else {
                extract_members_data(env.data)
            }
        },
        None => extract_members_data(env.data),
    }
}

/// Validates and unwraps one repositories-flow envelope, with the same
/// error precedence as the members flow.
pub fn extract_repositories(env: ReposEnvelope) -> (r: Result<ReposPage, ExtractError>)
    ensures
        spec_errors_present(env.errors) ==> spec_graphql_failure(
            r,
            spec_graphql_message(env.errors),
        ),
        !spec_errors_present(env.errors) ==> r == spec_extract_repos_data(env.data),
{
    match env.errors {
        Some(errors) => {
            if errors.len() > 0 {
                let message = join_error_messages(&errors);
                Err(ExtractError::GraphQl { message })
            } else {
                extract_repos_data(env.data)
            }
        },
        None => extract_repos_data(env.data),
    }
}

} // verus!
