//! The cross-set reconciler: flattens the accumulated external identity
//! batches into a user-id keyed mapping (a later occurrence of a key
//! overwrites an earlier one), then joins the flattened member batches
//! against it. A member with no mapping entry gets an absent SSO name,
//! never an error.

use vstd::prelude::*;
use crate::data::{IdentityEdge, MemberEdge};
use crate::paginate::spec_batches_total;

verus! {

/// Clones an optional string exactly.
pub fn clone_opt_string(o: &Option<String>) -> (r: Option<String>)
    ensures
        r == *o,
{
    match o {
        Some(s) => Some(s.clone()),
        None => None,
    }
}

/// The batches flattened into one sequence, page order first, within-page
/// edge order second.
pub open spec fn spec_flat_batches<E>(batches: Seq<Vec<Option<E>>>) -> Seq<Option<E>>
    decreases batches.len(),
{
    if batches.len() == 0 {
        Seq::empty()
    } else {
        spec_flat_batches(batches.drop_last()) + batches.last()@
    }
}

/// Flattening loses no entry: the flat sequence is exactly as long as the
/// batch lengths sum, so an accumulated record count can be read either
/// way.
pub proof fn lemma_flat_batches_length<E>(batches: Seq<Vec<Option<E>>>)
    ensures
        spec_flat_batches(batches).len() == spec_batches_total(batches),
    decreases batches.len(),
{
    if batches.len() > 0 {
        lemma_flat_batches_length::<E>(batches.drop_last());
    }
}

/// Whether an identity edge links to a platform user. Only linked edges
/// are join candidates; the rest are skipped.
pub open spec fn spec_is_linked(e: Option<IdentityEdge>) -> bool {
    match e {
        Some(edge) => match edge.node {
            Some(node) => node.user is Some,
            None => false,
        },
        None => false,
    }
}

/// The join key of a linked identity edge: the linked user's id.
pub open spec fn spec_link_key(e: Option<IdentityEdge>) -> Seq<char>
    recommends
        spec_is_linked(e),
{
    e.unwrap().node.unwrap().user.unwrap().id@
}

/// The SSO name a linked identity edge carries, if any.
pub open spec fn spec_link_value(e: Option<IdentityEdge>) -> Option<String>
    recommends
        spec_is_linked(e),
{
    match e.unwrap().node.unwrap().saml_identity {
        Some(s) => s.name_id,
        None => None,
    }
}

/// The mapping a flat identity sequence denotes: unlinked edges are
/// skipped, and a later occurrence of a key overwrites an earlier one.
pub open spec fn spec_identity_map(ids: Seq<Option<IdentityEdge>>) -> Map<
    Seq<char>,
    Option<String>,
>
    decreases ids.len(),
{
    if ids.len() == 0 {
        Map::empty()
    } else {
        let m = spec_identity_map(ids.drop_last());
        if spec_is_linked(ids.last()) {
            m.insert(spec_link_key(ids.last()), spec_link_value(ids.last()))
        } else {
            m
        }
    }
}

/// Appending a linked identity edge makes its user id map to exactly the
/// name it carries, whatever earlier pages said of that user.
pub proof fn lemma_later_identity_overwrites(ids: Seq<Option<IdentityEdge>>, e: Option<
    IdentityEdge,
>)
    requires
        spec_is_linked(e),
    ensures
        spec_identity_map(ids.push(e)).contains_key(spec_link_key(e)),
        spec_identity_map(ids.push(e))[spec_link_key(e)] == spec_link_value(e),
{
    assert(ids.push(e).drop_last() =~= ids);
}

/// The mapping of a flat identity sequence holds, for each key, the value
/// of the last linked occurrence of that key.
pub proof fn lemma_identity_map_is_last_write(ids: Seq<Option<IdentityEdge>>, i: int)
    requires
        0 <= i < ids.len(),
        spec_is_linked(ids[i]),
        forall|j: int|
            (i < j < ids.len() && spec_is_linked(ids[j])) ==> spec_link_key(ids[j])
                != spec_link_key(ids[i]),
    ensures
        spec_identity_map(ids).contains_key(spec_link_key(ids[i])),
        spec_identity_map(ids)[spec_link_key(ids[i])] == spec_link_value(ids[i]),
    decreases ids.len(),
{
    if i < ids.len() - 1 {
        assert(ids.drop_last()[i] == ids[i]);
        lemma_identity_map_is_last_write(ids.drop_last(), i);
    }
}

/// One entry of the identity mapping.
#[derive(Debug)]
pub struct SamlEntry {
    pub user_id: String,
    pub saml_name_id: Option<String>,
}

/// The mapping entries denote: each entry's key maps to its value, later
/// entries overwriting earlier ones.
pub open spec fn spec_entries_map(entries: Seq<SamlEntry>) -> Map<Seq<char>, Option<String>>
    decreases entries.len(),
{
    if entries.len() == 0 {
        Map::empty()
    } else {
        spec_entries_map(entries.drop_last()).insert(
            entries.last().user_id@,
            entries.last().saml_name_id,
        )
    }
}

proof fn lemma_entries_map_update(entries: Seq<SamlEntry>, i: int, e: SamlEntry)
    requires
        0 <= i < entries.len(),
        e.user_id@ == entries[i].user_id@,
        forall|j: int|
            (0 <= j < entries.len() && j != i) ==> entries[j].user_id@ != e.user_id@,
    ensures
        spec_entries_map(entries.update(i, e)) == spec_entries_map(entries).insert(
            e.user_id@,
            e.saml_name_id,
        ),
    decreases entries.len(),
{
    let u = entries.update(i, e);
    if i == entries.len() - 1 {
        assert(u.drop_last() =~= entries.drop_last());
        assert(u.last() == e);
        assert(spec_entries_map(entries.drop_last()).insert(
            entries[i].user_id@,
            entries[i].saml_name_id,
        ).insert(e.user_id@, e.saml_name_id) =~= spec_entries_map(entries.drop_last()).insert(
            e.user_id@,
            e.saml_name_id,
        ));
    } else {
        assert(u.drop_last() =~= entries.drop_last().update(i, e));
        assert(u.last() == entries.last());
        assert(entries.drop_last()[i] == entries[i]);
        lemma_entries_map_update(entries.drop_last(), i, e);
        let k2 = entries.last().user_id@;
        assert(entries[entries.len() - 1].user_id@ != e.user_id@);
        assert(spec_entries_map(entries.drop_last()).insert(e.user_id@, e.saml_name_id).insert(
            k2,
            entries.last().saml_name_id,
        ) =~= spec_entries_map(entries.drop_last()).insert(k2, entries.last().saml_name_id).insert(
            e.user_id@,
            e.saml_name_id,
        ));
    }
}

proof fn lemma_entries_map_found(entries: Seq<SamlEntry>, i: int)
    requires
        0 <= i < entries.len(),
        forall|j: int|
            (0 <= j < entries.len() && j != i) ==> entries[j].user_id@ != entries[i].user_id@,
    ensures
        spec_entries_map(entries).contains_key(entries[i].user_id@),
        spec_entries_map(entries)[entries[i].user_id@] == entries[i].saml_name_id,
    decreases entries.len(),
{
    if i < entries.len() - 1 {
        assert(entries.drop_last()[i] == entries[i]);
        lemma_entries_map_found(entries.drop_last(), i);
        assert(entries[entries.len() - 1].user_id@ != entries[i].user_id@);
    }
}

proof fn lemma_entries_map_absent(entries: Seq<SamlEntry>, k: Seq<char>)
    requires
        forall|j: int| 0 <= j < entries.len() ==> entries[j].user_id@ != k,
    ensures
        !spec_entries_map(entries).contains_key(k),
    decreases entries.len(),
{
    if entries.len() > 0 {
        lemma_entries_map_absent(entries.drop_last(), k);
    }
}

/// The user-id keyed mapping from SSO identities, with one entry per key.
#[derive(Debug)]
pub struct IdentityMap {
    pub entries: Vec<SamlEntry>,
}

impl IdentityMap {
    /// Well-formed: no two entries share a key.
    pub open spec fn wf(self) -> bool {
        forall|i: int, j: int|
            0 <= i < j < self.entries@.len() ==> self.entries@[i].user_id@
                != self.entries@[j].user_id@
    }

    /// The mapping this value denotes.
    pub open spec fn as_map(self) -> Map<Seq<char>, Option<String>> {
        spec_entries_map(self.entries@)
    }

    /// The empty mapping.
    pub fn new() -> (m: IdentityMap)
        ensures
            m.wf(),
            m.as_map() == Map::<Seq<char>, Option<String>>::empty(),
    {
        IdentityMap { entries: Vec::new() }
    }

    /// Binds `user_id` to `saml_name_id`, overwriting any earlier binding
    /// of the same key.
    #[verifier::loop_isolation(false)]
    pub fn insert(&mut self, user_id: String, saml_name_id: Option<String>)
        requires
            old(self).wf(),
        ensures
            final(self).wf(),
            final(self).as_map() == old(self).as_map().insert(user_id@, saml_name_id),
    {
        let n = self.entries.len();
        let mut i: usize = 0;
        while i < n
            invariant
                0 <= i <= n,
                n == self.entries@.len(),
                self.entries@ == old(self).entries@,
                forall|j: int| 0 <= j < i ==> self.entries@[j].user_id@ != user_id@,
            decreases n - i,
        {
            if self.entries[i].user_id == user_id {
                let entry = SamlEntry { user_id, saml_name_id };
                self.entries.remove(i);
                self.entries.insert(i, entry);
                proof {
                    assert(self.entries@ =~= old(self).entries@.update(i as int, entry));
                    lemma_entries_map_update(old(self).entries@, i as int, entry);
                    assert forall|p: int, q: int|
                        0 <= p < q < self.entries@.len() implies self.entries@[p].user_id@
                        != self.entries@[q].user_id@ by {
                        assert(old(self).entries@[p].user_id@ != old(self).entries@[q].user_id@);
                    }
                }
                return ;
            }
            i = i + 1;
        }
        let ghost before = self.entries@;
        self.entries.push(SamlEntry { user_id, saml_name_id });
        proof {
            assert(self.entries@.drop_last() =~= before);
            assert forall|p: int, q: int|
                0 <= p < q < self.entries@.len() implies self.entries@[p].user_id@
                != self.entries@[q].user_id@ by {
                if q < self.entries@.len() - 1 {
                    assert(before[p].user_id@ != before[q].user_id@);
                } else {
                    assert(self.entries@[q].user_id@ == user_id@);
                    assert(before[p].user_id@ != user_id@);
                }
            }
        }
    }

    /// Looks a user id up: `None` when the key is unbound, else the bound
    /// (possibly absent) SSO name.
    #[verifier::loop_isolation(false)]
    pub fn lookup(&self, user_id: &String) -> (r: Option<Option<String>>)
        requires
            self.wf(),
        ensures
            r == if self.as_map().contains_key(user_id@) {
                Some(self.as_map()[user_id@])
            } else {
                None::<Option<String>>
            },
    {
        let n = self.entries.len();
        let mut i: usize = 0;
        while i < n
            invariant
                0 <= i <= n,
                forall|j: int| 0 <= j < i ==> self.entries@[j].user_id@ != user_id@,
            decreases n - i,
        {
            if self.entries[i].user_id == *user_id {
                proof {
                    assert forall|j: int|
                        (0 <= j < self.entries@.len() && j != i) implies self.entries@[j].user_id@
                        != self.entries@[i as int].user_id@ by {}
                    lemma_entries_map_found(self.entries@, i as int);
                }
                return Some(clone_opt_string(&self.entries[i].saml_name_id));
            }
            i = i + 1;
        }
        proof {
            lemma_entries_map_absent(self.entries@, user_id@);
        }
        None
    }
}

/// Builds the identity mapping from the accumulated identity batches, in
/// one ordered pass: page order first, within-page order second, so a key
/// recurring on a later page ends up with the later value.
#[verifier::loop_isolation(false)]
pub fn build_identity_map(batches: &Vec<Vec<Option<IdentityEdge>>>) -> (m: IdentityMap)
    ensures
        m.wf(),
        m.as_map() == spec_identity_map(spec_flat_batches(batches@)),
{
    let mut m = IdentityMap::new();
    proof {
        assert(spec_flat_batches(batches@.take(0)) =~= Seq::<Option<IdentityEdge>>::empty());
    }
    let mut b: usize = 0;
    while b < batches.len()
        invariant
            0 <= b <= batches@.len(),
            m.wf(),
            m.as_map() == spec_identity_map(spec_flat_batches(batches@.take(b as int))),
        decreases batches@.len() - b,
    {
        let ghost flat_before = spec_flat_batches(batches@.take(b as int));
        let batch = &batches[b];
        let mut e: usize = 0;
        proof {
            assert(batch@.take(0) =~= Seq::<Option<IdentityEdge>>::empty());
            assert(flat_before + batch@.take(0) =~= flat_before);
        }
        while e < batch.len()
            invariant
                0 <= e <= batch@.len(),
                m.wf(),
                m.as_map() == spec_identity_map(flat_before + batch@.take(e as int)),
            decreases batch@.len() - e,
        {
            let ghost prefix = flat_before + batch@.take(e as int);
            proof {
                assert(flat_before + batch@.take(e as int + 1) =~= prefix.push(batch@[e as int]));
                assert(prefix.push(batch@[e as int]).drop_last() =~= prefix);
                assert(prefix.push(batch@[e as int]).last() == batch@[e as int]);
            }
            match &batch[e] {
                Some(edge) => match &edge.node {
                    Some(node) => match &node.user {
                        Some(user) => {
                            let value = match &node.saml_identity {
                                Some(s) => clone_opt_string(&s.name_id),
                                None => None,
                            };
                            m.insert(user.id.clone(), value);
                        },
                        None => {},
                    },
                    None => {},
                },
                None => {},
            }
            proof {
                assert(spec_identity_map(prefix.push(batch@[e as int])) == if spec_is_linked(
                    batch@[e as int],
                ) {
                    spec_identity_map(prefix).insert(
                        spec_link_key(batch@[e as int]),
                        spec_link_value(batch@[e as int]),
                    )
                } else {
                    spec_identity_map(prefix)
                });
            }
            e = e + 1;
        }
        proof {
            assert(batch@.take(batch@.len() as int) =~= batch@);
            assert(batches@.take(b as int + 1).drop_last() =~= batches@.take(b as int));
            assert(spec_flat_batches(batches@.take(b as int + 1)) =~= flat_before + batch@);
        }
        b = b + 1;
    }
    proof {
        assert(batches@.take(batches@.len() as int) =~= batches@);
    }
    m
}

/// One joined output row of the members flow.
#[derive(Debug)]
pub struct MemberRow {
    pub id: String,
    pub database_id: Option<i64>,
    pub login: String,
    pub name: Option<String>,
    pub role: Option<String>,
    pub has_two_factor_enabled: Option<bool>,
    pub saml_name_id: Option<String>,
}

/// The row a member edge joins to under mapping `m`: an unbound id yields
/// an absent SSO name.
pub open spec fn spec_joined_row(edge: MemberEdge, m: Map<Seq<char>, Option<String>>) -> MemberRow
    recommends
        edge.node is Some,
{
    let node = edge.node.unwrap();
    MemberRow {
        id: node.id,
        database_id: node.database_id,
        login: node.login,
        name: node.name,
        role: edge.role,
        has_two_factor_enabled: edge.has_two_factor_enabled,
        saml_name_id: if m.contains_key(node.id@) {
            m[node.id@]
        } else {
            None
        },
    }
}

/// The joined rows of a flat member sequence: edges with an absent node
/// are skipped, the rest keep their order.
pub open spec fn spec_member_rows(
    ms: Seq<Option<MemberEdge>>,
    m: Map<Seq<char>, Option<String>>,
) -> Seq<MemberRow>
    decreases ms.len(),
{
    if ms.len() == 0 {
        Seq::empty()
    } else {
        let rest = spec_member_rows(ms.drop_last(), m);
        match ms.last() {
            Some(edge) => if edge.node is Some {
                rest.push(spec_joined_row(edge, m))
            } else {
                rest
            },
            None => rest,
        }
    }
}

/// Joins the flattened member batches against the identity mapping, in
/// accumulation order.
#[verifier::loop_isolation(false)]
pub fn join_members(batches: &Vec<Vec<Option<MemberEdge>>>, map: &IdentityMap) -> (rows: Vec<
    MemberRow,
>)
    requires
        map.wf(),
    ensures
        rows@ == spec_member_rows(spec_flat_batches(batches@), map.as_map()),
{
    let mut rows: Vec<MemberRow> = Vec::new();
    proof {
        assert(spec_flat_batches(batches@.take(0)) =~= Seq::<Option<MemberEdge>>::empty());
    }
    let mut b: usize = 0;
    while b < batches.len()
        invariant
            0 <= b <= batches@.len(),
            rows@ == spec_member_rows(
                spec_flat_batches(batches@.take(b as int)),
                map.as_map(),
            ),
        decreases batches@.len() - b,
    {
        let ghost flat_before = spec_flat_batches(batches@.take(b as int));
        let batch = &batches[b];
        let mut e: usize = 0;
        proof {
            assert(batch@.take(0) =~= Seq::<Option<MemberEdge>>::empty());
            assert(flat_before + batch@.take(0) =~= flat_before);
        }
        while e < batch.len()
            invariant
                0 <= e <= batch@.len(),
                rows@ == spec_member_rows(flat_before + batch@.take(e as int), map.as_map()),
            decreases batch@.len() - e,
        {
            let ghost prefix = flat_before + batch@.take(e as int);
            proof {
                assert(flat_before + batch@.take(e as int + 1) =~= prefix.push(batch@[e as int]));
                assert(prefix.push(batch@[e as int]).drop_last() =~= prefix);
                assert(prefix.push(batch@[e as int]).last() == batch@[e as int]);
            }
            match &batch[e] {
                Some(edge) => match &edge.node {
                    Some(node) => {
                        let saml_name_id = match map.lookup(&node.id) {
                            Some(v) => v,
                            None => None,
                        };
                        let row = MemberRow {
                            id: node.id.clone(),
                            database_id: node.database_id,
                            login: node.login.clone(),
                            name: clone_opt_string(&node.name),
                            role: clone_opt_string(&edge.role),
                            has_two_factor_enabled: edge.has_two_factor_enabled,
                            saml_name_id,
                        };
                        rows.push(row);
                        proof {
                            assert(rows@.drop_last() =~= spec_member_rows(prefix, map.as_map()));
                            assert(rows@.last() == spec_joined_row(
                                batch@[e as int].unwrap(),
                                map.as_map(),
                            ));
                            assert(rows@ =~= spec_member_rows(prefix, map.as_map()).push(
                                spec_joined_row(batch@[e as int].unwrap(), map.as_map()),
                            ));
                        }
                    },
                    None => {},
                },
                None => {},
            }
            e = e + 1;
        }
        proof {
            assert(batch@.take(batch@.len() as int) =~= batch@);
            assert(batches@.take(b as int + 1).drop_last() =~= batches@.take(b as int));
            assert(spec_flat_batches(batches@.take(b as int + 1)) =~= flat_before + batch@);
        }
        b = b + 1;
    }
    proof {
        assert(batches@.take(batches@.len() as int) =~= batches@);
    }
    rows
}

} // verus!
