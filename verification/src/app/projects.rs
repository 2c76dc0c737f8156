//! Router lists and projects: storing an edited router, the routers a
//! project shows, and the selection after a deletion.

use vstd::prelude::*;

use crate::router::{has_id, Project, RouterConfig, RouterModel};
use crate::text::{chars_of, string_of, trim, trim_chars};

verus! {

pub open spec fn router_view_fn() -> spec_fn(RouterConfig) -> RouterModel {
    |r: RouterConfig| r@
}

pub open spec fn routers_view(rs: Seq<RouterConfig>) -> Seq<RouterModel> {
    rs.map_values(router_view_fn())
}

/// The first position of the router with this id.
pub open spec fn router_position(rs: Seq<RouterModel>, id: u128, i: int) -> Option<int>
    decreases rs.len() - i,
{
    if i < 0 || i >= rs.len() {
        None
    } else if rs[i].id == id {
        Some(i)
    } else {
        router_position(rs, id, i + 1)
    }
}

/// Storing a router: it replaces the router with its id, or is added at
/// the end.
pub open spec fn upserted(rs: Seq<RouterModel>, r: RouterModel) -> Seq<RouterModel> {
    match router_position(rs, r.id, 0) {
        Some(p) => rs.update(p, r),
        None => rs.push(r),
    }
}

/// Stores a router in a list; tells whether one with its id was replaced.
pub fn upsert_router(routers: &mut Vec<RouterConfig>, r: RouterConfig) -> (replaced: bool)
    ensures
        routers_view(final(routers)@) == upserted(routers_view(old(routers)@), r@),
        replaced == (router_position(routers_view(old(routers)@), r@.id, 0) is Some),
{
    let ghost before = routers@;
    let mut i: usize = 0;
    while i < routers.len()
        invariant
            i <= routers.len(),
            routers@ == before,
            before == old(routers)@,
            router_position(routers_view(before), r.id, 0) == router_position(
                routers_view(before),
                r.id,
                i as int,
            ),
        decreases routers.len() - i,
    {
        assert(routers_view(before)[i as int] == routers@[i as int]@);
        if routers[i].id == r.id {
            let ghost rv = r@;
            routers.set(i, r);
            assert(routers_view(routers@) =~= routers_view(before).update(i as int, rv));
            return true;
        }
        i = i + 1;
    }
    let ghost rv = r@;
    routers.push(r);
    assert(routers_view(routers@) =~= routers_view(before).push(rv));
    false
}

/// The selection after a row was deleted from a list that now has `len`
/// rows: the same row, or the last one, or none on an empty list.
pub open spec fn selection_after_delete(idx: nat, len: nat) -> Option<nat> {
    if len == 0 {
        None
    } else if idx < len - 1 {
        Some(idx)
    } else {
        Some((len - 1) as nat)
    }
}

pub fn select_after_delete(idx: usize, len: usize) -> (r: Option<usize>)
    ensures
        r matches Some(i) ==> selection_after_delete(idx as nat, len as nat) == Some(i as nat),
        r is None <==> selection_after_delete(idx as nat, len as nat) is None,
        r matches Some(i) ==> i < len,
{
    if len == 0 {
        None
    } else if idx < len - 1 {
        Some(idx)
    } else {
        Some(len - 1)
    }
}

/// The routers of a project, in the order of the full list.
pub open spec fn routers_in(rs: Seq<RouterModel>, ids: Seq<u128>) -> Seq<RouterModel>
    decreases rs.len(),
{
    if rs.len() == 0 {
        seq![]
    } else if has_id(ids, rs.last().id) {
        routers_in(rs.drop_last(), ids).push(rs.last())
    } else {
        routers_in(rs.drop_last(), ids)
    }
}

fn contains_id(ids: &Vec<u128>, id: u128) -> (r: bool)
    ensures
        r == has_id(ids@, id),
{
    let mut i: usize = 0;
    while i < ids.len()
        invariant
            i <= ids.len(),
            forall|j: int| 0 <= j < i ==> ids@[j] != id,
        decreases ids.len() - i,
    {
        if ids[i] == id {
            return true;
        }
        i = i + 1;
    }
    false
}

/// Copies of the routers of a project (all routers without one).
pub fn visible_routers(all: &Vec<RouterConfig>, ids: Option<&Vec<u128>>) -> (r: Vec<RouterConfig>)
    ensures
        routers_view(r@) == (match ids {
            Some(v) => routers_in(routers_view(all@), v@),
            None => routers_view(all@),
        }),
{
    let mut out: Vec<RouterConfig> = Vec::new();
    let mut i: usize = 0;
    while i < all.len()
        invariant
            i <= all.len(),
            routers_view(out@) == (match ids {
                Some(v) => routers_in(routers_view(all@.take(i as int)), v@),
                None => routers_view(all@.take(i as int)),
            }),
        decreases all.len() - i,
    {
        let keep = match ids {
            Some(v) => contains_id(v, all[i].id),
            None => true,
        };
        let ghost before = out@;
        proof {
            let t = all@.take(i + 1);
            assert(t.drop_last() =~= all@.take(i as int));
            assert(routers_view(t).drop_last() =~= routers_view(all@.take(i as int)));
            assert(routers_view(t).last() == all@[i as int]@);
        }
        if keep {
            out.push(all[i].duplicate());
            assert(routers_view(out@) =~= routers_view(before).push(all@[i as int]@));
        }
        proof {
            if ids is None {
                assert(routers_view(all@.take(i + 1)) =~= routers_view(all@.take(i as int)).push(
                    all@[i as int]@,
                ));
            }
        }
        i = i + 1;
    }
    assert(all@.take(all.len() as int) =~= all@);
    out
}

/// The first project with this id.
pub fn find_project(projects: &Vec<Project>, id: u128) -> (r: Option<usize>)
    ensures
        r matches Some(i) ==> i < projects.len() && projects@[i as int].id == id && forall|j: int|
            0 <= j < i ==> projects@[j].id != id,
        r is None ==> forall|j: int| 0 <= j < projects.len() ==> projects@[j].id != id,
{
    let mut i: usize = 0;
    while i < projects.len()
        invariant
            i <= projects.len(),
            forall|j: int| 0 <= j < i ==> projects@[j].id != id,
        decreases projects.len() - i,
    {
        if projects[i].id == id {
            return Some(i);
        }
        i = i + 1;
    }
    None
}

/// The name a new project gets from the typed text: trimmed, and only when
/// something is left.
pub fn project_name_input(buf: &str) -> (r: Option<String>)
    ensures
        r matches Some(n) ==> n@ == trim(buf@) && n@.len() > 0,
        r is None <==> trim(buf@).len() == 0,
{
    let t = trim_chars(&chars_of(buf));
    if t.len() == 0 {
        None
    } else {
        Some(string_of(&t))
    }
}

/// Two lists with the same ids find an id at the same place.
proof fn lemma_position_same_ids(a: Seq<RouterModel>, b: Seq<RouterModel>, id: u128, i: int)
    requires
        a.len() == b.len(),
        forall|j: int| 0 <= j < a.len() ==> (#[trigger] a[j]).id == b[j].id,
    ensures
        router_position(a, id, i) == router_position(b, id, i),
    decreases a.len() - i,
{
    if 0 <= i < a.len() {
        lemma_position_same_ids(a, b, id, i + 1);
    }
}

/// A router added at the end is found only where no earlier one is.
proof fn lemma_position_push(rs: Seq<RouterModel>, x: RouterModel, id: u128, i: int)
    requires
        0 <= i <= rs.len(),
    ensures
        router_position(rs.push(x), id, i) == match router_position(rs, id, i) {
            Some(p) => Some(p),
            None => if x.id == id {
                Some(rs.len() as int)
            } else {
                None
            },
        },
    decreases rs.len() - i,
{
    let s = rs.push(x);
    if i < rs.len() {
        assert(s[i] == rs[i]);
        lemma_position_push(rs, x, id, i + 1);
    } else {
        assert(s[i] == x);
        assert(router_position(s, id, i + 1) is None);
        assert(router_position(rs, id, i) is None);
    }
}

/// Storing a router: looking its id up afterwards finds that router,
/// looking up any other id finds what it found before, and the list grows by
/// one exactly when no router had the id.
pub proof fn law_upsert_router_lookup(rs: Seq<RouterModel>, r: RouterModel, id: u128)
    ensures
        ({
            let u = upserted(rs, r);
            &&& router_position(u, r.id, 0) is Some
            &&& u[router_position(u, r.id, 0)->0] == r
            &&& id != r.id ==> router_position(u, id, 0) == router_position(rs, id, 0)
            &&& (id != r.id && router_position(rs, id, 0) is Some) ==> u[router_position(
                rs,
                id,
                0,
            )->0] == rs[router_position(rs, id, 0)->0]
            &&& u.len() == rs.len() + if router_position(rs, r.id, 0) is None {
                1int
            } else {
                0int
            }
        }),
{
    let u = upserted(rs, r);
    lemma_position_found(rs, r.id, 0);
    lemma_position_found(rs, id, 0);
    match router_position(rs, r.id, 0) {
        Some(p) => {
            assert forall|j: int| 0 <= j < u.len() implies (#[trigger] u[j]).id == rs[j].id by {}
            lemma_position_same_ids(u, rs, r.id, 0);
            lemma_position_same_ids(u, rs, id, 0);
        },
        None => {
            lemma_position_push(rs, r, r.id, 0);
            lemma_position_push(rs, r, id, 0);
            if let Some(q) = router_position(rs, id, 0) {
                assert(u[q] == rs[q]);
            }
        },
    }
}

/// Where the search finds an id, the router there has it.
proof fn lemma_position_found(rs: Seq<RouterModel>, id: u128, i: int)
    ensures
        router_position(rs, id, i) matches Some(p) ==> 0 <= p < rs.len() && rs[p].id == id,
    decreases rs.len() - i,
{
    if 0 <= i < rs.len() {
        lemma_position_found(rs, id, i + 1);
    }
}

/// The routers of a project are exactly the routers of the full list whose
/// id the project holds.
pub proof fn law_routers_in_members(rs: Seq<RouterModel>, ids: Seq<u128>)
    ensures
        forall|i: int|
            0 <= i < rs.len() && ids.contains(rs[i].id) ==> routers_in(rs, ids).contains(
                #[trigger] rs[i],
            ),
        forall|j: int|
            0 <= j < routers_in(rs, ids).len() ==> ids.contains(
                (#[trigger] routers_in(rs, ids)[j]).id,
            ) && rs.contains(routers_in(rs, ids)[j]),
    decreases rs.len(),
{
    let r = routers_in(rs, ids);
    if rs.len() > 0 {
        let d = rs.drop_last();
        let x = rs.last();
        law_routers_in_members(d, ids);
        let rd = routers_in(d, ids);
        assert(has_id(ids, x.id) == ids.contains(x.id)) by {
            if ids.contains(x.id) {
                let k = choose|k: int| 0 <= k < ids.len() && ids[k] == x.id;
                assert(ids[k] == x.id);
            }
        }
        assert forall|i: int| 0 <= i < rs.len() && ids.contains(rs[i].id) implies r.contains(
            #[trigger] rs[i],
        ) by {
            if i < d.len() {
                assert(rs[i] == d[i]);
                let k = choose|k: int| 0 <= k < rd.len() && rd[k] == d[i];
                if has_id(ids, x.id) {
                    assert(r[k] == rd[k]);
                }
            } else {
                assert(r[rd.len() as int] == x);
            }
        }
        assert forall|j: int| 0 <= j < r.len() implies ids.contains((#[trigger] r[j]).id)
            && rs.contains(r[j]) by {
            if j < rd.len() {
                if has_id(ids, x.id) {
                    assert(r[j] == rd[j]);
                }
                let k = choose|k: int| 0 <= k < d.len() && d[k] == rd[j];
                assert(rs[k] == d[k]);
            } else {
                assert(rs[rs.len() - 1] == x);
            }
        }
    }
}

} // verus!
