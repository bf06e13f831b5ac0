//! The pagination driver: one tracker per independently advancing
//! connection edge, a state machine per query flow that absorbs extracted
//! pages, and a pure driver that folds a page sequence.
//!
//! A cursor advances to a page's `end_cursor` only while that edge still
//! reports a further page; a finished edge's cursor is never touched
//! again. A flow keeps going while any of its edges reports a further
//! page, and stops in the first iteration where every edge is done.

use vstd::prelude::*;
use crate::data::{IdentityEdge, MemberEdge, PageInfo, RepositoryEdge};
use crate::extract::{MembersPage, ReposPage};

verus! {

/// How one edge's cursor moves when a page with marker `pi` is absorbed:
/// to the page's `end_cursor` if a further page exists, else unchanged.
pub open spec fn spec_advance(cursor: Option<String>, pi: PageInfo) -> Option<String> {
    if pi.has_next_page {
        pi.end_cursor
    } else {
        cursor
    }
}

/// The abstract state of one edge tracker.
pub struct TrackerModel<E> {
    pub cursor: Option<String>,
    pub batches: Seq<Vec<Option<E>>>,
}

/// The fresh tracker state: no cursor yet, nothing accumulated.
pub open spec fn spec_tracker_init<E>() -> TrackerModel<E> {
    TrackerModel { cursor: None, batches: Seq::empty() }
}

/// The tracker state after absorbing one page of `edges` under marker
/// `pi`.
pub open spec fn spec_tracker_absorb<E>(
    t: TrackerModel<E>,
    edges: Vec<Option<E>>,
    pi: PageInfo,
) -> TrackerModel<E> {
    TrackerModel { cursor: spec_advance(t.cursor, pi), batches: t.batches.push(edges) }
}

/// Cursor and accumulator of one paginated connection edge.
pub struct EdgeTracker<E> {
    pub cursor: Option<String>,
    pub batches: Vec<Vec<Option<E>>>,
}

impl<E> EdgeTracker<E> {
    /// The tracker's abstract state.
    pub open spec fn model(self) -> TrackerModel<E> {
        TrackerModel { cursor: self.cursor, batches: self.batches@ }
    }

    /// A fresh tracker: the first request carries no cursor.
    pub fn new() -> (t: EdgeTracker<E>)
        ensures
            t.model() == spec_tracker_init::<E>(),
    {
        let t = EdgeTracker { cursor: None, batches: Vec::new() };
        proof {
            assert(t.model().batches =~= spec_tracker_init::<E>().batches);
        }
        t
    }

    /// Absorbs one page: appends the edge list to the accumulator and
    /// advances the cursor only while a further page exists.
    pub fn absorb(&mut self, edges: Vec<Option<E>>, page_info: PageInfo) -> (has_next: bool)
        ensures
            has_next == page_info.has_next_page,
            final(self).model() == spec_tracker_absorb(old(self).model(), edges, page_info),
    {
        self.batches.push(edges);
        let has_next = page_info.has_next_page;
        if has_next {
            self.cursor = page_info.end_cursor;
        }
        has_next
    }
}

/// Whether a members-flow page demands another iteration: it does while
/// either edge reports a further page.
pub open spec fn spec_members_continue(page: MembersPage) -> bool {
    page.members_page_info.has_next_page || page.ext_ids_page_info.has_next_page
}

/// The members tracker state after absorbing a page sequence in order.
pub open spec fn spec_members_tracker_after(pages: Seq<MembersPage>) -> TrackerModel<MemberEdge>
    decreases pages.len(),
{
    if pages.len() == 0 {
        spec_tracker_init()
    } else {
        spec_tracker_absorb(
            spec_members_tracker_after(pages.drop_last()),
            pages.last().members,
            pages.last().members_page_info,
        )
    }
}

/// The external identities tracker state after absorbing a page sequence.
pub open spec fn spec_ext_ids_tracker_after(pages: Seq<MembersPage>) -> TrackerModel<IdentityEdge>
    decreases pages.len(),
{
    if pages.len() == 0 {
        spec_tracker_init()
    } else {
        spec_tracker_absorb(
            spec_ext_ids_tracker_after(pages.drop_last()),
            pages.last().ext_ids,
            pages.last().ext_ids_page_info,
        )
    }
}

/// The members-flow pagination state: two independently advancing edges
/// and the sequence number of the next request.
pub struct MembersPagination {
    pub members: EdgeTracker<MemberEdge>,
    pub ext_ids: EdgeTracker<IdentityEdge>,
    pub next_seq: u64,
}

impl MembersPagination {
    /// The state before the first request: both cursors absent, request
    /// sequence numbers starting at zero.
    pub fn new() -> (s: MembersPagination)
        ensures
            s.members.model() == spec_tracker_init::<MemberEdge>(),
            s.ext_ids.model() == spec_tracker_init::<IdentityEdge>(),
            s.next_seq == 0,
    {
        MembersPagination { members: EdgeTracker::new(), ext_ids: EdgeTracker::new(), next_seq: 0 }
    }

    /// Absorbs one extracted page into both trackers and says whether the
    /// flow must request again: it must while either edge reports a
    /// further page.
    pub fn absorb_page(&mut self, page: MembersPage) -> (cont: bool)
        requires
            old(self).next_seq < u64::MAX,
        ensures
            cont == spec_members_continue(page),
            final(self).members.model() == spec_tracker_absorb(
                old(self).members.model(),
                page.members,
                page.members_page_info,
            ),
            final(self).ext_ids.model() == spec_tracker_absorb(
                old(self).ext_ids.model(),
                page.ext_ids,
                page.ext_ids_page_info,
            ),
            final(self).next_seq == old(self).next_seq + 1,
    {
        let MembersPage { members, members_page_info, ext_ids, ext_ids_page_info } = page;
        let members_next = self.members.absorb(members, members_page_info);
        let ext_ids_next = self.ext_ids.absorb(ext_ids, ext_ids_page_info);
        self.next_seq = self.next_seq + 1;
        members_next || ext_ids_next
    }
}

/// The repositories tracker state after absorbing a page sequence.
pub open spec fn spec_repos_tracker_after(pages: Seq<ReposPage>) -> TrackerModel<RepositoryEdge>
    decreases pages.len(),
{
    if pages.len() == 0 {
        spec_tracker_init()
    } else {
        spec_tracker_absorb(
            spec_repos_tracker_after(pages.drop_last()),
            pages.last().repositories,
            pages.last().page_info,
        )
    }
}

/// The repositories-flow pagination state: a single edge.
pub struct ReposPagination {
    pub repositories: EdgeTracker<RepositoryEdge>,
    pub next_seq: u64,
}

impl ReposPagination {
    /// The state before the first request.
    pub fn new() -> (s: ReposPagination)
        ensures
            s.repositories.model() == spec_tracker_init::<RepositoryEdge>(),
            s.next_seq == 0,
    {
        ReposPagination { repositories: EdgeTracker::new(), next_seq: 0 }
    }

    /// Absorbs one extracted page and says whether the flow must request
    /// again.
    pub fn absorb_page(&mut self, page: ReposPage) -> (cont: bool)
        requires
            old(self).next_seq < u64::MAX,
        ensures
            cont == page.page_info.has_next_page,
            final(self).repositories.model() == spec_tracker_absorb(
                old(self).repositories.model(),
                page.repositories,
                page.page_info,
            ),
            final(self).next_seq == old(self).next_seq + 1,
    {
        let ReposPage { repositories, page_info } = page;
        let has_next = self.repositories.absorb(repositories, page_info);
        self.next_seq = self.next_seq + 1;
        has_next
    }
}

/// Folds a whole members-flow page sequence, in order, stopping at the
/// first page where both edges are done. `None` means the sequence ran
/// out while an edge still reported a further page. On success the state
/// is exactly the fold of the consumed prefix, and the number of
/// iterations is pinned by the first all-done page.
#[verifier::loop_isolation(false)]
pub fn paginate_members(pages: Vec<MembersPage>) -> (r: Option<MembersPagination>)
    ensures
        r is Some <==> exists|k: int|
            0 <= k < pages@.len() && !spec_members_continue(pages@[k]),
        r is None ==> forall|j: int|
            0 <= j < pages@.len() ==> spec_members_continue(pages@[j]),
        r is Some ==> ({
            let s = r.unwrap();
            let k = s.next_seq - 1;
            &&& 0 <= k < pages@.len()
            &&& !spec_members_continue(pages@[k as int])
            &&& (forall|j: int| 0 <= j < k ==> spec_members_continue(pages@[j]))
            &&& s.members.model() == spec_members_tracker_after(pages@.take(k as int + 1))
            &&& s.ext_ids.model() == spec_ext_ids_tracker_after(pages@.take(k as int + 1))
        }),
{
    let ghost orig = pages@;
    let mut rest = pages;
    let mut st = MembersPagination::new();
    proof {
        assert(rest.len() == orig.len());
        assert(orig.take(0) =~= Seq::<MembersPage>::empty());
    }
    while rest.len() > 0
        invariant
            orig.len() <= usize::MAX,
            st.next_seq <= orig.len(),
            rest@ == orig.skip(st.next_seq as int),
            st.members.model() == spec_members_tracker_after(orig.take(st.next_seq as int)),
            st.ext_ids.model() == spec_ext_ids_tracker_after(orig.take(st.next_seq as int)),
            forall|j: int| 0 <= j < st.next_seq ==> spec_members_continue(orig[j]),
        decreases rest@.len(),
    {
        let ghost i = st.next_seq as int;
        let page = rest.remove(0);
        proof {
            assert(page == orig[i]);
            assert(rest@ =~= orig.skip(i + 1));
        }
        let cont = st.absorb_page(page);
        proof {
            assert(orig.take(i + 1).drop_last() =~= orig.take(i));
            assert(orig.take(i + 1).last() == orig[i]);
            assert(st.members.model() == spec_members_tracker_after(orig.take(i + 1)));
            assert(st.ext_ids.model() == spec_ext_ids_tracker_after(orig.take(i + 1)));
        }
        if !cont {
            proof {
                assert(0 <= i < orig.len() && !spec_members_continue(orig[i]));
            }
            return Some(st);
        }
    }
    proof {
        assert(orig.take(orig.len() as int) =~= orig);
    }
    None
}

/// Folds a whole repositories-flow page sequence, stopping at the first
/// page that reports no further page.
#[verifier::loop_isolation(false)]
pub fn paginate_repositories(pages: Vec<ReposPage>) -> (r: Option<ReposPagination>)
    ensures
        r is Some <==> exists|k: int|
            0 <= k < pages@.len() && !pages@[k].page_info.has_next_page,
        r is None ==> forall|j: int|
            0 <= j < pages@.len() ==> pages@[j].page_info.has_next_page,
        r is Some ==> ({
            let s = r.unwrap();
            let k = s.next_seq - 1;
            &&& 0 <= k < pages@.len()
            &&& !pages@[k as int].page_info.has_next_page
            &&& (forall|j: int| 0 <= j < k ==> pages@[j].page_info.has_next_page)
            &&& s.repositories.model() == spec_repos_tracker_after(pages@.take(k as int + 1))
        }),
{
    let ghost orig = pages@;
    let mut rest = pages;
    let mut st = ReposPagination::new();
    proof {
        assert(rest.len() == orig.len());
        assert(orig.take(0) =~= Seq::<ReposPage>::empty());
    }
    while rest.len() > 0
        invariant
            orig.len() <= usize::MAX,
            st.next_seq <= orig.len(),
            rest@ == orig.skip(st.next_seq as int),
            st.repositories.model() == spec_repos_tracker_after(orig.take(st.next_seq as int)),
            forall|j: int| 0 <= j < st.next_seq ==> orig[j].page_info.has_next_page,
        decreases rest@.len(),
    {
        let ghost i = st.next_seq as int;
        let page = rest.remove(0);
        proof {
            assert(page == orig[i]);
            assert(rest@ =~= orig.skip(i + 1));
        }
        let cont = st.absorb_page(page);
        proof {
            assert(orig.take(i + 1).drop_last() =~= orig.take(i));
            assert(orig.take(i + 1).last() == orig[i]);
            assert(st.repositories.model() == spec_repos_tracker_after(orig.take(i + 1)));
        }
        if !cont {
            proof {
                assert(0 <= i < orig.len() && !orig[i].page_info.has_next_page);
            }
            return Some(st);
        }
    }
    proof {
        assert(orig.take(orig.len() as int) =~= orig);
    }
    None
}

/// The number of edge entries in an accumulator: the sum of the batch
/// lengths.
pub open spec fn spec_batches_total<E>(batches: Seq<Vec<Option<E>>>) -> nat
    decreases batches.len(),
{
    if batches.len() == 0 {
        0
    } else {
        spec_batches_total(batches.drop_last()) + batches.last()@.len()
    }
}

/// The sum of the member edge-list lengths over a page sequence.
pub open spec fn spec_members_record_total(pages: Seq<MembersPage>) -> nat
    decreases pages.len(),
{
    if pages.len() == 0 {
        0
    } else {
        spec_members_record_total(pages.drop_last()) + pages.last().members@.len()
    }
}

/// The sum of the repository edge-list lengths over a page sequence.
pub open spec fn spec_repos_record_total(pages: Seq<ReposPage>) -> nat
    decreases pages.len(),
{
    if pages.len() == 0 {
        0
    } else {
        spec_repos_record_total(pages.drop_last()) + pages.last().repositories@.len()
    }
}

/// Absorbing a page sequence loses nothing and invents nothing: each batch
/// of the members accumulator is exactly the corresponding page's edge
/// list, so the accumulated record count equals the sum of the edge-list
/// lengths over all iterations.
pub proof fn lemma_members_accumulates_every_page(pages: Seq<MembersPage>)
    ensures
        spec_members_tracker_after(pages).batches == pages.map_values(
            |p: MembersPage| p.members,
        ),
        spec_batches_total(spec_members_tracker_after(pages).batches)
            == spec_members_record_total(pages),
    decreases pages.len(),
{
    if pages.len() == 0 {
        assert(spec_members_tracker_after(pages).batches =~= pages.map_values(
            |p: MembersPage| p.members,
        ));
    } else {
        lemma_members_accumulates_every_page(pages.drop_last());
        assert(spec_members_tracker_after(pages).batches =~= pages.map_values(
            |p: MembersPage| p.members,
        ));
        assert(spec_members_tracker_after(pages).batches.drop_last()
            =~= spec_members_tracker_after(pages.drop_last()).batches);
    }
}

/// The repositories accumulator likewise holds every page's edge list.
pub proof fn lemma_repos_accumulates_every_page(pages: Seq<ReposPage>)
    ensures
        spec_repos_tracker_after(pages).batches == pages.map_values(
            |p: ReposPage| p.repositories,
        ),
        spec_batches_total(spec_repos_tracker_after(pages).batches) == spec_repos_record_total(
            pages,
        ),
    decreases pages.len(),
{
    if pages.len() == 0 {
        assert(spec_repos_tracker_after(pages).batches =~= pages.map_values(
            |p: ReposPage| p.repositories,
        ));
    } else {
        lemma_repos_accumulates_every_page(pages.drop_last());
        assert(spec_repos_tracker_after(pages).batches =~= pages.map_values(
            |p: ReposPage| p.repositories,
        ));
        assert(spec_repos_tracker_after(pages).batches.drop_last()
            =~= spec_repos_tracker_after(pages.drop_last()).batches);
    }
}

/// Independent cursor advancement, frozen side: across any stretch of
/// iterations in which the members edge reports no further page, the
/// members cursor does not move, however far the sibling edge advances.
pub proof fn lemma_members_cursor_frozen(pages: Seq<MembersPage>, a: int, b: int)
    requires
        0 <= a <= b <= pages.len(),
        forall|i: int| a <= i < b ==> !pages[i].members_page_info.has_next_page,
    ensures
        spec_members_tracker_after(pages.take(b)).cursor == spec_members_tracker_after(
            pages.take(a),
        ).cursor,
    decreases b - a,
{
    if a < b {
        lemma_members_cursor_frozen(pages, a, b - 1);
        assert(pages.take(b).drop_last() =~= pages.take(b - 1));
        assert(pages.take(b).last() == pages[b - 1]);
    }
}

/// Independent cursor advancement, moving side: an iteration whose page
/// still reports a further members page leaves the members cursor at that
/// page's `end_cursor`.
pub proof fn lemma_members_cursor_advances(pages: Seq<MembersPage>, b: int)
    requires
        0 < b <= pages.len(),
        pages[b - 1].members_page_info.has_next_page,
    ensures
        spec_members_tracker_after(pages.take(b)).cursor == pages[b
            - 1].members_page_info.end_cursor,
{
    assert(pages.take(b).last() == pages[b - 1]);
}

/// The external identities cursor is frozen in the same way while its own
/// edge is done.
pub proof fn lemma_ext_ids_cursor_frozen(pages: Seq<MembersPage>, a: int, b: int)
    requires
        0 <= a <= b <= pages.len(),
        forall|i: int| a <= i < b ==> !pages[i].ext_ids_page_info.has_next_page,
    ensures
        spec_ext_ids_tracker_after(pages.take(b)).cursor == spec_ext_ids_tracker_after(
            pages.take(a),
        ).cursor,
    decreases b - a,
{
    if a < b {
        lemma_ext_ids_cursor_frozen(pages, a, b - 1);
        assert(pages.take(b).drop_last() =~= pages.take(b - 1));
        assert(pages.take(b).last() == pages[b - 1]);
    }
}

/// The external identities cursor advances to its own page marker's
/// `end_cursor` while that edge reports a further page.
pub proof fn lemma_ext_ids_cursor_advances(pages: Seq<MembersPage>, b: int)
    requires
        0 < b <= pages.len(),
        pages[b - 1].ext_ids_page_info.has_next_page,
    ensures
        spec_ext_ids_tracker_after(pages.take(b)).cursor == pages[b
            - 1].ext_ids_page_info.end_cursor,
{
    assert(pages.take(b).last() == pages[b - 1]);
}

} // verus!
