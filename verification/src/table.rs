//! The tabular writer's verified half: fixed headers, one row of cells
//! per record in accumulation order, optional fields rendered empty when
//! absent. The surrounding application only streams the finished cells
//! into a CSV file.
//!
//! Before repository rows are laid out, the accumulated batches are
//! checked for a language breakdown that itself reports a further page:
//! that is fatal for the whole run, with the repository named.

use vstd::prelude::*;
use vstd::string::*;
use crate::data::{
    LanguageConnection, LanguageEdge, RepositoryEdge, RepositoryNode,
    UnsupportedPagination,
};
use crate::reconcile::{clone_opt_string, spec_flat_batches, MemberRow};
use crate::text::{i64_to_dec, join_strings, spec_dec_signed, spec_join};

verus! {

/// The character sequences of one row of cells.
pub open spec fn spec_cells_view(row: Vec<String>) -> Seq<Seq<char>> {
    row@.map_values(|s: String| s@)
}

/// The character sequences of a whole table.
pub open spec fn spec_table_view(t: Seq<Vec<String>>) -> Seq<Seq<Seq<char>>> {
    t.map_values(|row: Vec<String>| spec_cells_view(row))
}

proof fn lemma_table_view_push(t: Seq<Vec<String>>, row: Vec<String>)
    ensures
        spec_table_view(t.push(row)) == spec_table_view(t).push(spec_cells_view(row)),
{
    assert(spec_table_view(t.push(row)) =~= spec_table_view(t).push(spec_cells_view(row)));
}

/// An optional text field's cell: the text, or empty when absent.
pub open spec fn spec_opt_str_cell(o: Option<String>) -> Seq<char> {
    match o {
        Some(s) => s@,
        None => Seq::empty(),
    }
}

/// An optional numeric field's cell: the decimal value, or empty.
pub open spec fn spec_opt_i64_cell(o: Option<i64>) -> Seq<char> {
    match o {
        Some(v) => spec_dec_signed(v as int),
        None => Seq::empty(),
    }
}

/// A flag's cell.
pub open spec fn spec_bool_cell(b: bool) -> Seq<char> {
    if b {
        "true"@
    } else {
        "false"@
    }
}

/// An optional flag's cell: the flag, or empty.
pub open spec fn spec_opt_bool_cell(o: Option<bool>) -> Seq<char> {
    match o {
        Some(b) => spec_bool_cell(b),
        None => Seq::empty(),
    }
}

/// Renders an optional text field.
fn opt_str_cell(o: &Option<String>) -> (r: String)
    ensures
        r@ == spec_opt_str_cell(*o),
{
    match o {
        Some(s) => s.clone(),
        None => String::new(),
    }
}

/// Renders an optional numeric field.
fn opt_i64_cell(o: &Option<i64>) -> (r: String)
    ensures
        r@ == spec_opt_i64_cell(*o),
{
    match o {
        Some(v) => i64_to_dec(*v),
        None => String::new(),
    }
}

/// Renders a flag.
fn bool_cell(b: bool) -> (r: String)
    ensures
        r@ == spec_bool_cell(b),
{
    if b {
        String::from_str("true")
    } else {
        String::from_str("false")
    }
}

/// Renders an optional flag.
fn opt_bool_cell(o: &Option<bool>) -> (r: String)
    ensures
        r@ == spec_opt_bool_cell(*o),
{
    match o {
        Some(b) => bool_cell(*b),
        None => String::new(),
    }
}

/// The members-flow header: seven fixed columns.
pub open spec fn spec_members_header() -> Seq<Seq<char>> {
    seq![
        "id"@,
        "database_id"@,
        "login"@,
        "name"@,
        "role"@,
        "has_two_factor_enabled"@,
        "saml_name_id"@,
    ]
}

/// The repositories-flow header: ten fixed columns.
pub open spec fn spec_repos_header() -> Seq<Seq<char>> {
    seq![
        "id"@,
        "database_id"@,
        "name"@,
        "created_at"@,
        "updated_at"@,
        "is_fork"@,
        "is_private"@,
        "primary_language"@,
        "languages"@,
        "description"@,
    ]
}

/// The seven cells of one joined member row.
pub open spec fn spec_member_cells(r: MemberRow) -> Seq<Seq<char>> {
    seq![
        r.id@,
        spec_opt_i64_cell(r.database_id),
        r.login@,
        spec_opt_str_cell(r.name),
        spec_opt_str_cell(r.role),
        spec_opt_bool_cell(r.has_two_factor_enabled),
        spec_opt_str_cell(r.saml_name_id),
    ]
}

/// The whole members table: the header row, then one row per record in
/// accumulation order. Zero records still yield exactly the header.
pub open spec fn spec_members_table(rows: Seq<MemberRow>) -> Seq<Seq<Seq<char>>> {
    seq![spec_members_header()] + rows.map_values(|r: MemberRow| spec_member_cells(r))
}

fn members_header() -> (h: Vec<String>)
    ensures
        spec_cells_view(h) == spec_members_header(),
{
    let mut h: Vec<String> = Vec::new();
    h.push(String::from_str("id"));
    h.push(String::from_str("database_id"));
    h.push(String::from_str("login"));
    h.push(String::from_str("name"));
    h.push(String::from_str("role"));
    h.push(String::from_str("has_two_factor_enabled"));
    h.push(String::from_str("saml_name_id"));
    proof {
        assert(spec_cells_view(h) =~= spec_members_header());
    }
    h
}

/// The cells of one joined member row.
pub fn member_cells(r: &MemberRow) -> (c: Vec<String>)
    ensures
        spec_cells_view(c) == spec_member_cells(*r),
{
    let mut c: Vec<String> = Vec::new();
    c.push(r.id.clone());
    c.push(opt_i64_cell(&r.database_id));
    c.push(r.login.clone());
    c.push(opt_str_cell(&r.name));
    c.push(opt_str_cell(&r.role));
    c.push(opt_bool_cell(&r.has_two_factor_enabled));
    c.push(opt_str_cell(&r.saml_name_id));
    proof {
        assert(spec_cells_view(c) =~= spec_member_cells(*r));
    }
    c
}

/// Lays the joined member rows out as the members CSV table.
#[verifier::loop_isolation(false)]
pub fn members_table(rows: &Vec<MemberRow>) -> (t: Vec<Vec<String>>)
    ensures
        spec_table_view(t@) == spec_members_table(rows@),
        t@.len() == rows@.len() + 1,
{
    let mut t: Vec<Vec<String>> = Vec::new();
    t.push(members_header());
    proof {
        assert(spec_table_view(t@) =~= spec_members_table(rows@.take(0)));
    }
    let mut i: usize = 0;
    while i < rows.len()
        invariant
            0 <= i <= rows@.len(),
            t@.len() == i + 1,
            spec_table_view(t@) == spec_members_table(rows@.take(i as int)),
        decreases rows@.len() - i,
    {
        let ghost tprev = t@;
        let cells = member_cells(&rows[i]);
        t.push(cells);
        proof {
            lemma_table_view_push(tprev, cells);
            assert(rows@.take(i as int + 1) =~= rows@.take(i as int).push(rows@[i as int]));
            assert(spec_members_table(rows@.take(i as int)).push(
                spec_member_cells(rows@[i as int]),
            ) =~= spec_members_table(rows@.take(i as int + 1)));
        }
        i = i + 1;
    }
    proof {
        assert(rows@.take(rows@.len() as int) =~= rows@);
    }
    t
}

/// One language entry's fragment: the language name, a colon, the byte
/// count.
pub open spec fn spec_language_part(e: LanguageEdge) -> Seq<char> {
    e.node.name@ + ":"@ + spec_dec_signed(e.size as int)
}

/// The fragments of a language edge list, in order, absent edges skipped.
pub open spec fn spec_language_parts(edges: Seq<Option<LanguageEdge>>) -> Seq<Seq<char>>
    decreases edges.len(),
{
    if edges.len() == 0 {
        Seq::empty()
    } else {
        let rest = spec_language_parts(edges.drop_last());
        match edges.last() {
            Some(e) => rest.push(spec_language_part(e)),
            None => rest,
        }
    }
}

/// The languages cell of a repository: its fragments joined with
/// semicolons; empty when the breakdown or its edge list is absent.
pub open spec fn spec_languages_cell(l: Option<LanguageConnection>) -> Seq<char> {
    match l {
        Some(c) => match c.edges {
            Some(edges) => spec_join(spec_language_parts(edges@), ";"@),
            None => Seq::empty(),
        },
        None => Seq::empty(),
    }
}

fn language_part(e: &LanguageEdge) -> (r: String)
    ensures
        r@ == spec_language_part(*e),
{
    let mut r = e.node.name.clone();
    r.append(":");
    let d = i64_to_dec(e.size);
    r.append(d.as_str());
    r
}

/// Renders the languages cell of one repository.
#[verifier::loop_isolation(false)]
pub fn languages_cell(l: &Option<LanguageConnection>) -> (r: String)
    ensures
        r@ == spec_languages_cell(*l),
{
    match l {
        Some(c) => match &c.edges {
            Some(edges) => {
                let mut parts: Vec<String> = Vec::new();
                let mut i: usize = 0;
                while i < edges.len()
                    invariant
                        0 <= i <= edges@.len(),
                        parts@.map_values(|p: String| p@) == spec_language_parts(
                            edges@.take(i as int),
                        ),
                    decreases edges@.len() - i,
                {
                    proof {
                        assert(edges@.take(i as int + 1) =~= edges@.take(i as int).push(
                            edges@[i as int],
                        ));
                        assert(edges@.take(i as int + 1).drop_last() =~= edges@.take(i as int));
                    }
                    match &edges[i] {
                        Some(e) => {
                            parts.push(language_part(e));
                            proof {
                                assert(parts@.map_values(|p: String| p@)
                                    =~= spec_language_parts(edges@.take(i as int)).push(
                                    spec_language_part(edges@[i as int].unwrap()),
                                ));
                            }
                        },
                        None => {},
                    }
                    i = i + 1;
                }
                proof {
                    assert(edges@.take(edges@.len() as int) =~= edges@);
                }
                join_strings(&parts, ";")
            },
            None => String::new(),
        },
        None => String::new(),
    }
}

/// The ten cells of one repository record.
pub open spec fn spec_repo_cells(n: RepositoryNode) -> Seq<Seq<char>> {
    seq![
        n.id@,
        spec_opt_i64_cell(n.database_id),
        n.name@,
        n.created_at@,
        n.updated_at@,
        spec_bool_cell(n.is_fork),
        spec_bool_cell(n.is_private),
        match n.primary_language {
            Some(l) => l.name@,
            None => Seq::empty(),
        },
        spec_languages_cell(n.languages),
        spec_opt_str_cell(n.description),
    ]
}

/// The cells of one repository record.
pub fn repo_cells(n: &RepositoryNode) -> (c: Vec<String>)
    ensures
        spec_cells_view(c) == spec_repo_cells(*n),
{
    let mut c: Vec<String> = Vec::new();
    c.push(n.id.clone());
    c.push(opt_i64_cell(&n.database_id));
    c.push(n.name.clone());
    c.push(n.created_at.clone());
    c.push(n.updated_at.clone());
    c.push(bool_cell(n.is_fork));
    c.push(bool_cell(n.is_private));
    match &n.primary_language {
        Some(l) => c.push(l.name.clone()),
        None => c.push(String::new()),
    }
    c.push(languages_cell(&n.languages));
    c.push(opt_str_cell(&n.description));
    proof {
        assert(spec_cells_view(c) =~= spec_repo_cells(*n));
    }
    c
}

/// The repository records of a flat edge sequence, in order, absent edges
/// and absent nodes skipped.
pub open spec fn spec_repo_records(rs: Seq<Option<RepositoryEdge>>) -> Seq<RepositoryNode>
    decreases rs.len(),
{
    if rs.len() == 0 {
        Seq::empty()
    } else {
        let rest = spec_repo_records(rs.drop_last());
        match rs.last() {
            Some(edge) => match edge.node {
                Some(node) => rest.push(node),
                None => rest,
            },
            None => rest,
        }
    }
}

/// The whole repositories table: the header row, then one row per record
/// in accumulation order. Zero records still yield exactly the header.
pub open spec fn spec_repos_table(rs: Seq<Option<RepositoryEdge>>) -> Seq<Seq<Seq<char>>> {
    seq![spec_repos_header()] + spec_repo_records(rs).map_values(
        |n: RepositoryNode| spec_repo_cells(n),
    )
}

fn repos_header() -> (h: Vec<String>)
    ensures
        spec_cells_view(h) == spec_repos_header(),
{
    let mut h: Vec<String> = Vec::new();
    h.push(String::from_str("id"));
    h.push(String::from_str("database_id"));
    h.push(String::from_str("name"));
    h.push(String::from_str("created_at"));
    h.push(String::from_str("updated_at"));
    h.push(String::from_str("is_fork"));
    h.push(String::from_str("is_private"));
    h.push(String::from_str("primary_language"));
    h.push(String::from_str("languages"));
    h.push(String::from_str("description"));
    proof {
        assert(spec_cells_view(h) =~= spec_repos_header());
    }
    h
}

/// Lays the accumulated repository batches out as the repositories CSV
/// table, flattening in accumulation order and skipping absent edges and
/// nodes.
#[verifier::loop_isolation(false)]
pub fn repos_table(batches: &Vec<Vec<Option<RepositoryEdge>>>) -> (t: Vec<Vec<String>>)
    ensures
        spec_table_view(t@) == spec_repos_table(spec_flat_batches(batches@)),
{
    let mut t: Vec<Vec<String>> = Vec::new();
    t.push(repos_header());
    proof {
        assert(spec_flat_batches(batches@.take(0)) =~= Seq::<Option<RepositoryEdge>>::empty());
        assert(spec_table_view(t@) =~= spec_repos_table(spec_flat_batches(batches@.take(0))));
    }
    let mut b: usize = 0;
    while b < batches.len()
        invariant
            0 <= b <= batches@.len(),
            spec_table_view(t@) == spec_repos_table(spec_flat_batches(batches@.take(b as int))),
        decreases batches@.len() - b,
    {
        let ghost flat_before = spec_flat_batches(batches@.take(b as int));
        let batch = &batches[b];
        let mut e: usize = 0;
        proof {
            assert(batch@.take(0) =~= Seq::<Option<RepositoryEdge>>::empty());
            assert(flat_before + batch@.take(0) =~= flat_before);
        }
        while e < batch.len()
            invariant
                0 <= e <= batch@.len(),
                spec_table_view(t@) == spec_repos_table(flat_before + batch@.take(e as int)),
            decreases batch@.len() - e,
        {
            let ghost prefix = flat_before + batch@.take(e as int);
            proof {
                assert(flat_before + batch@.take(e as int + 1) =~= prefix.push(batch@[e as int]));
                assert(prefix.push(batch@[e as int]).drop_last() =~= prefix);
                assert(prefix.push(batch@[e as int]).last() == batch@[e as int]);
            }
            match &batch[e] {
                Some(edge) => match &edge.node {
                    Some(node) => {
                        let ghost tprev = t@;
                        let cells = repo_cells(node);
                        t.push(cells);
                        proof {
                            lemma_table_view_push(tprev, cells);
                            assert(spec_repo_records(prefix.push(batch@[e as int]))
                                == spec_repo_records(prefix).push(*node));
                            assert(spec_repos_table(prefix).push(spec_repo_cells(*node))
                                =~= spec_repos_table(prefix.push(batch@[e as int])));
                        }
                    },
                    None => {},
                },
                None => {},
            }
            e = e + 1;
        }
        proof {
            assert(batch@.take(batch@.len() as int) =~= batch@);
            assert(batches@.take(b as int + 1).drop_last() =~= batches@.take(b as int));
            assert(spec_flat_batches(batches@.take(b as int + 1)) =~= flat_before + batch@);
        }
        b = b + 1;
    }
    proof {
        assert(batches@.take(batches@.len() as int) =~= batches@);
    }
    t
}

/// Whether a repository's language breakdown reports a further page of
/// its own.
pub open spec fn spec_needs_sub_pagination(n: RepositoryNode) -> bool {
    match n.languages {
        Some(c) => c.page_info.has_next_page,
        None => false,
    }
}

/// Whether a repository edge carries a stranded language breakdown.
pub open spec fn spec_edge_stranded(e: Option<RepositoryEdge>) -> bool {
    match e {
        Some(edge) => match edge.node {
            Some(n) => spec_needs_sub_pagination(n),
            None => false,
        },
        None => false,
    }
}

/// What a stranded edge is reported as: the repository's name and id, and
/// the breakdown's stranded cursor.
pub open spec fn spec_stranded_report(e: Option<RepositoryEdge>) -> UnsupportedPagination
    recommends
        spec_edge_stranded(e),
{
    let n = e.unwrap().node.unwrap();
    UnsupportedPagination {
        repository_name: n.name,
        repository_id: n.id,
        end_cursor: n.languages.unwrap().page_info.end_cursor,
    }
}

/// Scans every accumulated repository for a language breakdown that needs
/// pagination of its own. Any such repository aborts the run, even when
/// every other repository in its batch is fully paginated; the error
/// names it and carries the stranded cursor.
#[verifier::loop_isolation(false)]
pub fn check_languages_pagination(batches: &Vec<Vec<Option<RepositoryEdge>>>) -> (r: Result<
    (),
    UnsupportedPagination,
>)
    ensures
        r is Ok <==> (forall|bi: int, ei: int|
            0 <= bi < batches@.len() && 0 <= ei < batches@[bi]@.len()
                ==> !spec_edge_stranded(#[trigger] batches@[bi]@[ei])),
        r is Err ==> exists|bi: int, ei: int|
            0 <= bi < batches@.len() && 0 <= ei < batches@[bi]@.len() && spec_edge_stranded(
                #[trigger] batches@[bi]@[ei],
            ) && r.unwrap_err() == spec_stranded_report(batches@[bi]@[ei]),
{
    let mut b: usize = 0;
    while b < batches.len()
        invariant
            0 <= b <= batches@.len(),
            forall|bi: int, ei: int|
                0 <= bi < b && 0 <= ei < batches@[bi]@.len() ==> !spec_edge_stranded(
                    #[trigger] batches@[bi]@[ei],
                ),
        decreases batches@.len() - b,
    {
        let batch = &batches[b];
        let mut e: usize = 0;
        while e < batch.len()
            invariant
                0 <= e <= batch@.len(),
                forall|ei: int| 0 <= ei < e ==> !spec_edge_stranded(#[trigger] batch@[ei]),
            decreases batch@.len() - e,
        {
            match &batch[e] {
                Some(edge) => match &edge.node {
                    Some(node) => match &node.languages {
                        Some(c) => {
                            if c.page_info.has_next_page {
                                return Err(
                                    UnsupportedPagination {
                                        repository_name: node.name.clone(),
                                        repository_id: node.id.clone(),
                                        end_cursor: clone_opt_string(&c.page_info.end_cursor),
                                    },
                                );
                            }
                        },
                        None => {},
                    },
                    None => {},
                },
                None => {},
            }
            e = e + 1;
        }
        b = b + 1;
    }
    Ok(())
}

} // verus!
