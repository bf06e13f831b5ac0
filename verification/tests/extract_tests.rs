use org_export::data::{ExtractError, GraphQlErrorEntry, MissingNode, PageInfo};
use org_export::extract::{
    extract_members, extract_repositories, IdentityConnection, MemberConnection, MembersData,
    MembersEnvelope, MembersOrganization, ReposData, ReposEnvelope, ReposOrganization,
    RepositoryConnection, SamlIdentityProvider,
};

fn page_info(has_next_page: bool, end_cursor: Option<&str>) -> PageInfo {
    PageInfo { has_next_page, end_cursor: end_cursor.map(|c| c.to_string()) }
}

fn members_org(
    member_edges: bool,
    provider: bool,
    ext_edges: bool,
) -> MembersOrganization {
    MembersOrganization {
        members_with_role: MemberConnection {
            edges: if member_edges { Some(vec![]) } else { None },
            page_info: page_info(false, None),
        },
        saml_identity_provider: if provider {
            Some(SamlIdentityProvider {
                external_identities: IdentityConnection {
                    edges: if ext_edges { Some(vec![]) } else { None },
                    page_info: page_info(false, None),
                },
            })
        } else {
            None
        },
    }
}

#[test]
fn graphql_errors_take_precedence_over_data() {
    let env = MembersEnvelope {
        data: Some(MembersData { organization: Some(members_org(true, true, true)) }),
        errors: Some(vec![GraphQlErrorEntry { message: "boom".to_string() }]),
    };
    match extract_members(env) {
        Err(ExtractError::GraphQl { message }) => assert_eq!(message, "boom"),
        _ => panic!("an envelope with errors must fail as a GraphQL error"),
    }
}

#[test]
fn graphql_error_messages_are_joined() {
    let env = ReposEnvelope {
        data: None,
        errors: Some(vec![
            GraphQlErrorEntry { message: "first".to_string() },
            GraphQlErrorEntry { message: "second".to_string() },
        ]),
    };
    match extract_repositories(env) {
        Err(ExtractError::GraphQl { message }) => assert_eq!(message, "first\n    second"),
        _ => panic!("expected a GraphQL error"),
    }
}

#[test]
fn empty_errors_list_is_not_a_failure() {
    let env = MembersEnvelope {
        data: Some(MembersData { organization: Some(members_org(true, true, true)) }),
        errors: Some(vec![]),
    };
    assert!(extract_members(env).is_ok());
}

#[test]
fn missing_data_is_missing_organization() {
    let env = MembersEnvelope { data: None, errors: None };
    match extract_members(env) {
        Err(ExtractError::MissingData { node }) => assert_eq!(node, MissingNode::Organization),
        _ => panic!("expected missing organization"),
    }
}

#[test]
fn missing_organization_node() {
    let env = MembersEnvelope {
        data: Some(MembersData { organization: None }),
        errors: None,
    };
    match extract_members(env) {
        Err(ExtractError::MissingData { node }) => assert_eq!(node, MissingNode::Organization),
        _ => panic!("expected missing organization"),
    }
}

#[test]
fn missing_members_list() {
    let env = MembersEnvelope {
        data: Some(MembersData { organization: Some(members_org(false, true, true)) }),
        errors: None,
    };
    match extract_members(env) {
        Err(ExtractError::MissingData { node }) => assert_eq!(node, MissingNode::MembersList),
        _ => panic!("expected missing members list"),
    }
}

#[test]
fn missing_identity_provider() {
    let env = MembersEnvelope {
        data: Some(MembersData { organization: Some(members_org(true, false, false)) }),
        errors: None,
    };
    match extract_members(env) {
        Err(ExtractError::MissingData { node }) => {
            assert_eq!(node, MissingNode::ExternalIdentityInfo)
        }
        _ => panic!("expected missing identity provider"),
    }
}

#[test]
fn missing_saml_identity_list() {
    let env = MembersEnvelope {
        data: Some(MembersData { organization: Some(members_org(true, true, false)) }),
        errors: None,
    };
    match extract_members(env) {
        Err(ExtractError::MissingData { node }) => {
            assert_eq!(node, MissingNode::SamlIdentityList)
        }
        _ => panic!("expected missing SAML identity list"),
    }
}

#[test]
fn members_page_comes_back_unchanged() {
    let env = MembersEnvelope {
        data: Some(MembersData {
            organization: Some(MembersOrganization {
                members_with_role: MemberConnection {
                    edges: Some(vec![None]),
                    page_info: page_info(true, Some("mc")),
                },
                saml_identity_provider: Some(SamlIdentityProvider {
                    external_identities: IdentityConnection {
                        edges: Some(vec![]),
                        page_info: page_info(false, Some("ec")),
                    },
                }),
            }),
        }),
        errors: None,
    };
    let page = extract_members(env).unwrap();
    assert_eq!(page.members.len(), 1);
    assert!(page.members_page_info.has_next_page);
    assert_eq!(page.members_page_info.end_cursor.as_deref(), Some("mc"));
    assert_eq!(page.ext_ids.len(), 0);
    assert!(!page.ext_ids_page_info.has_next_page);
    assert_eq!(page.ext_ids_page_info.end_cursor.as_deref(), Some("ec"));
}

#[test]
fn missing_repositories_list() {
    let env = ReposEnvelope {
        data: Some(ReposData {
            organization: Some(ReposOrganization {
                repositories: RepositoryConnection {
                    edges: None,
                    page_info: page_info(false, None),
                },
            }),
        }),
        errors: None,
    };
    match extract_repositories(env) {
        Err(ExtractError::MissingData { node }) => {
            assert_eq!(node, MissingNode::RepositoriesList)
        }
        _ => panic!("expected missing repositories list"),
    }
}

#[test]
fn repositories_page_comes_back_unchanged() {
    let env = ReposEnvelope {
        data: Some(ReposData {
            organization: Some(ReposOrganization {
                repositories: RepositoryConnection {
                    edges: Some(vec![]),
                    page_info: page_info(true, Some("rc")),
                },
            }),
        }),
        errors: None,
    };
    let page = extract_repositories(env).unwrap();
    assert_eq!(page.repositories.len(), 0);
    assert!(page.page_info.has_next_page);
    assert_eq!(page.page_info.end_cursor.as_deref(), Some("rc"));
}
