use org_export::data::{IdentityEdge, MemberEdge, PageInfo, RepositoryEdge};
use org_export::extract::{MembersPage, ReposPage};
use org_export::paginate::{paginate_members, paginate_repositories};

fn pi(has_next_page: bool, end_cursor: Option<&str>) -> PageInfo {
    PageInfo { has_next_page, end_cursor: end_cursor.map(|c| c.to_string()) }
}

fn member_edges(n: usize) -> Vec<Option<MemberEdge>> {
    let mut v = Vec::new();
    for _ in 0..n {
        v.push(Some(MemberEdge { role: None, has_two_factor_enabled: None, node: None }));
    }
    v
}

fn identity_edges(n: usize) -> Vec<Option<IdentityEdge>> {
    let mut v = Vec::new();
    for _ in 0..n {
        v.push(Some(IdentityEdge { node: None }));
    }
    v
}

fn members_page(
    members_n: usize,
    members_pi: PageInfo,
    ext_n: usize,
    ext_pi: PageInfo,
) -> MembersPage {
    MembersPage {
        members: member_edges(members_n),
        members_page_info: members_pi,
        ext_ids: identity_edges(ext_n),
        ext_ids_page_info: ext_pi,
    }
}

#[test]
fn members_pagination_terminates_and_accumulates_all() {
    let pages = vec![
        members_page(2, pi(true, Some("m0")), 1, pi(true, Some("e0"))),
        members_page(0, pi(true, Some("m1")), 3, pi(false, None)),
        members_page(4, pi(false, None), 0, pi(false, None)),
    ];
    let st = paginate_members(pages).expect("all edges eventually finish");
    assert_eq!(st.next_seq, 3);
    let member_total: usize = st.members.batches.iter().map(|b| b.len()).sum();
    let ext_total: usize = st.ext_ids.batches.iter().map(|b| b.len()).sum();
    assert_eq!(member_total, 2 + 0 + 4);
    assert_eq!(ext_total, 1 + 3 + 0);
    assert_eq!(st.members.batches.len(), 3);
    assert_eq!(st.ext_ids.batches.len(), 3);
}

#[test]
fn members_pagination_runs_out_while_an_edge_continues() {
    let pages = vec![
        members_page(1, pi(true, Some("m0")), 1, pi(true, Some("e0"))),
        members_page(1, pi(true, Some("m1")), 1, pi(true, Some("e1"))),
    ];
    assert!(paginate_members(pages).is_none());
}

#[test]
fn cursors_advance_independently() {
    // The members edge finishes on its second page; the identities edge
    // keeps going until the fifth. The driver must run all five
    // iterations, with the members cursor frozen where it stopped.
    let mut pages = Vec::new();
    for i in 0..5 {
        let members_pi = if i < 1 {
            pi(true, Some(&format!("m{}", i)))
        } else {
            pi(false, Some(&format!("m{}", i)))
        };
        let ext_pi = if i < 4 {
            pi(true, Some(&format!("e{}", i)))
        } else {
            pi(false, Some(&format!("e{}", i)))
        };
        pages.push(members_page(1, members_pi, 1, ext_pi));
    }
    let st = paginate_members(pages).expect("both edges finish by the fifth page");
    assert_eq!(st.next_seq, 5);
    assert_eq!(st.members.cursor.as_deref(), Some("m0"));
    assert_eq!(st.ext_ids.cursor.as_deref(), Some("e3"));
}

#[test]
fn first_page_with_no_next_stops_immediately() {
    let pages = vec![
        members_page(1, pi(false, Some("m0")), 1, pi(false, Some("e0"))),
        members_page(9, pi(false, None), 9, pi(false, None)),
    ];
    let st = paginate_members(pages).expect("the first page finishes both edges");
    assert_eq!(st.next_seq, 1);
    assert_eq!(st.members.batches.len(), 1);
    // Neither cursor ever advanced: no edge reported a further page.
    assert!(st.members.cursor.is_none());
    assert!(st.ext_ids.cursor.is_none());
}

fn repos_page(n: usize, info: PageInfo) -> ReposPage {
    let mut v: Vec<Option<RepositoryEdge>> = Vec::new();
    for _ in 0..n {
        v.push(None);
    }
    ReposPage { repositories: v, page_info: info }
}

#[test]
fn repositories_pagination_terminates_and_accumulates_all() {
    let pages = vec![
        repos_page(3, pi(true, Some("r0"))),
        repos_page(2, pi(true, Some("r1"))),
        repos_page(0, pi(false, None)),
    ];
    let st = paginate_repositories(pages).expect("the edge eventually finishes");
    assert_eq!(st.next_seq, 3);
    let total: usize = st.repositories.batches.iter().map(|b| b.len()).sum();
    assert_eq!(total, 5);
    assert_eq!(st.repositories.cursor.as_deref(), Some("r1"));
}

#[test]
fn repositories_pagination_runs_out() {
    let pages = vec![repos_page(1, pi(true, Some("r0")))];
    assert!(paginate_repositories(pages).is_none());
}
