use org_export::data::{
    LanguageConnection, LanguageEdge, LanguageNode, PageInfo, RepositoryEdge, RepositoryNode,
};
use org_export::reconcile::MemberRow;
use org_export::table::{
    check_languages_pagination, languages_cell, member_cells, members_table, repo_cells,
    repos_table,
};

fn repo_node(name: &str, languages: Option<LanguageConnection>) -> RepositoryNode {
    RepositoryNode {
        id: format!("R_{}", name),
        database_id: Some(99),
        name: name.to_string(),
        created_at: "2020-01-01T00:00:00Z".to_string(),
        updated_at: "2021-02-03T04:05:06Z".to_string(),
        is_fork: false,
        is_private: true,
        primary_language: Some(LanguageNode { name: "Rust".to_string() }),
        languages,
        description: None,
    }
}

fn languages(entries: &[(&str, i64)], has_next_page: bool, end_cursor: Option<&str>) -> LanguageConnection {
    LanguageConnection {
        edges: Some(
            entries
                .iter()
                .map(|(n, s)| {
                    Some(LanguageEdge { size: *s, node: LanguageNode { name: n.to_string() } })
                })
                .collect(),
        ),
        page_info: PageInfo { has_next_page, end_cursor: end_cursor.map(|c| c.to_string()) },
    }
}

#[test]
fn members_table_with_zero_records_is_just_the_header() {
    let table = members_table(&vec![]);
    assert_eq!(table.len(), 1);
    assert_eq!(
        table[0],
        vec![
            "id",
            "database_id",
            "login",
            "name",
            "role",
            "has_two_factor_enabled",
            "saml_name_id",
        ]
    );
}

#[test]
fn repos_table_with_zero_records_is_just_the_header() {
    let table = repos_table(&vec![]);
    assert_eq!(table.len(), 1);
    assert_eq!(
        table[0],
        vec![
            "id",
            "database_id",
            "name",
            "created_at",
            "updated_at",
            "is_fork",
            "is_private",
            "primary_language",
            "languages",
            "description",
        ]
    );
}

#[test]
fn member_row_cells_render_optional_fields_empty() {
    let row = MemberRow {
        id: "M1".to_string(),
        database_id: None,
        login: "octo".to_string(),
        name: None,
        role: None,
        has_two_factor_enabled: None,
        saml_name_id: None,
    };
    assert_eq!(member_cells(&row), vec!["M1", "", "octo", "", "", "", ""]);
}

#[test]
fn member_row_cells_render_present_fields() {
    let row = MemberRow {
        id: "M2".to_string(),
        database_id: Some(-7),
        login: "hub".to_string(),
        name: Some("Octo Cat".to_string()),
        role: Some("ADMIN".to_string()),
        has_two_factor_enabled: Some(false),
        saml_name_id: Some("octo@corp".to_string()),
    };
    assert_eq!(
        member_cells(&row),
        vec!["M2", "-7", "hub", "Octo Cat", "ADMIN", "false", "octo@corp"]
    );
}

#[test]
fn languages_cell_joins_name_size_pairs() {
    let l = languages(&[("Rust", 100), ("C", 5)], false, None);
    assert_eq!(languages_cell(&Some(l)), "Rust:100;C:5");
    assert_eq!(languages_cell(&None), "");
    let empty = languages(&[], false, None);
    assert_eq!(languages_cell(&Some(empty)), "");
}

#[test]
fn repo_cells_lay_out_ten_columns() {
    let node = repo_node("tool", Some(languages(&[("Go", 42)], false, None)));
    assert_eq!(
        repo_cells(&node),
        vec![
            "R_tool",
            "99",
            "tool",
            "2020-01-01T00:00:00Z",
            "2021-02-03T04:05:06Z",
            "false",
            "true",
            "Rust",
            "Go:42",
            "",
        ]
    );
}

#[test]
fn repos_table_skips_absent_edges_and_nodes() {
    let batches = vec![
        vec![None, Some(RepositoryEdge { node: None })],
        vec![Some(RepositoryEdge { node: Some(repo_node("one", None)) })],
    ];
    let table = repos_table(&batches);
    assert_eq!(table.len(), 2);
    assert_eq!(table[1][2], "one");
}

#[test]
fn stranded_language_pagination_aborts_the_run() {
    // The second repository of the batch needs language pagination; the
    // first is fully paginated. The run still aborts, naming the second.
    let fine = RepositoryEdge { node: Some(repo_node("fine", Some(languages(&[("C", 1)], false, None)))) };
    let stranded = RepositoryEdge {
        node: Some(repo_node("stranded", Some(languages(&[("C", 1)], true, Some("LC"))))),
    };
    let batches = vec![vec![Some(fine), Some(stranded)]];
    let err = check_languages_pagination(&batches).expect_err("must abort");
    assert_eq!(err.repository_name, "stranded");
    assert_eq!(err.repository_id, "R_stranded");
    assert_eq!(err.end_cursor.as_deref(), Some("LC"));
}

#[test]
fn fully_paginated_languages_pass_the_check() {
    let fine = RepositoryEdge { node: Some(repo_node("fine", Some(languages(&[], false, None)))) };
    let bare = RepositoryEdge { node: Some(repo_node("bare", None)) };
    let batches = vec![vec![Some(fine)], vec![Some(bare), None]];
    assert!(check_languages_pagination(&batches).is_ok());
}

#[test]
fn members_table_rows_follow_the_header() {
    let row = MemberRow {
        id: "X".to_string(),
        database_id: Some(5),
        login: "x".to_string(),
        name: None,
        role: None,
        has_two_factor_enabled: Some(true),
        saml_name_id: Some("x@corp".to_string()),
    };
    let table = members_table(&vec![row]);
    assert_eq!(table.len(), 2);
    assert_eq!(table[1], vec!["X", "5", "x", "", "", "true", "x@corp"]);
}
