//! What an update of the settings did to the session profiles, for the audit
//! log: profiles created, deleted and changed, matched by id.
//!
//! Profiles are matched as a map keyed by id would match them: of several
//! profiles with one id, the last one counts.

use vstd::prelude::*;

use crate::profiles::{FilterValue, SessionFilter, SessionProfile};
use crate::text::str_eq;

verus! {

/// A change to the session profiles.
#[derive(Debug)]
pub enum ProfileChange {
    Created { id: u128, name: String, filter_count: usize },
    Deleted { id: u128, name: String },
    Updated {
        id: u128,
        before_name: String,
        before_filter_count: usize,
        after_name: String,
        after_filter_count: usize,
    },
}

/// Abstract value of a [`ProfileChange`].
pub enum ProfileChangeView {
    Created { id: u128, name: Seq<char>, filter_count: nat },
    Deleted { id: u128, name: Seq<char> },
    Updated {
        id: u128,
        before_name: Seq<char>,
        before_filter_count: nat,
        after_name: Seq<char>,
        after_filter_count: nat,
    },
}

impl View for ProfileChange {
    type V = ProfileChangeView;

    open spec fn view(&self) -> ProfileChangeView {
        match self {
            ProfileChange::Created { id, name, filter_count } => ProfileChangeView::Created {
                id: *id,
                name: name@,
                filter_count: *filter_count as nat,
            },
            ProfileChange::Deleted { id, name } => ProfileChangeView::Deleted { id: *id, name: name@ },
            ProfileChange::Updated {
                id,
                before_name,
                before_filter_count,
                after_name,
                after_filter_count,
            } => ProfileChangeView::Updated {
                id: *id,
                before_name: before_name@,
                before_filter_count: *before_filter_count as nat,
                after_name: after_name@,
                after_filter_count: *after_filter_count as nat,
            },
        }
    }
}

/// The abstract values of changes.
pub open spec fn changes_view(cs: Seq<ProfileChange>) -> Seq<ProfileChangeView> {
    cs.map_values(|c: ProfileChange| c@)
}

/// The index of the last profile with `id`, or -1 when there is none.
pub open spec fn last_with_id(ps: Seq<SessionProfile>, id: u128) -> int
    decreases ps.len(),
{
    if ps.len() == 0 {
        -1
    } else if ps.last().id == id {
        ps.len() - 1
    } else {
        last_with_id(ps.drop_last(), id)
    }
}

proof fn lemma_last_with_id_bounds(ps: Seq<SessionProfile>, id: u128)
    ensures
        -1 <= last_with_id(ps, id) < ps.len(),
        last_with_id(ps, id) >= 0 ==> ps[last_with_id(ps, id)].id == id,
    decreases ps.len(),
{
    if ps.len() > 0 && ps.last().id != id {
        lemma_last_with_id_bounds(ps.drop_last(), id);
    }
}

/// Whether two filters read the same.
pub open spec fn same_filter(a: SessionFilter, b: SessionFilter) -> bool {
    &&& a.field@ == b.field@
    &&& a.op == b.op
    &&& match (a.value, b.value) {
        (None, None) => true,
        (Some(FilterValue::Number(x)), Some(FilterValue::Number(y))) => x == y,
        (Some(FilterValue::Text(x)), Some(FilterValue::Text(y))) => x@ == y@,
        (Some(FilterValue::Other), Some(FilterValue::Other)) => true,
        _ => false,
    }
}

/// Whether two profiles read the same: name, logic and filters.
pub open spec fn same_profile(a: SessionProfile, b: SessionProfile) -> bool {
    &&& a.id == b.id
    &&& a.name@ == b.name@
    &&& a.logic == b.logic
    &&& a.filters@.len() == b.filters@.len()
    &&& forall|k: int| 0 <= k < a.filters@.len() ==> same_filter(#[trigger] a.filters@[k], b.filters@[k])
}

/// The profiles among the first `n` of `after` that `before` lacks.
pub open spec fn created_spec(before: Seq<SessionProfile>, after: Seq<SessionProfile>, n: nat) -> Seq<
    ProfileChangeView,
>
    decreases n,
{
    if n == 0 {
        Seq::empty()
    } else {
        let j = n - 1;
        let p = after[j];
        created_spec(before, after, (n - 1) as nat) + if last_with_id(after, p.id) == j
            && last_with_id(before, p.id) < 0 {
            seq![
                ProfileChangeView::Created {
                    id: p.id,
                    name: p.name@,
                    filter_count: p.filters@.len(),
                },
            ]
        } else {
            Seq::empty()
        }
    }
}

/// The profiles among the first `n` of `before` that `after` lacks.
pub open spec fn deleted_spec(before: Seq<SessionProfile>, after: Seq<SessionProfile>, n: nat) -> Seq<
    ProfileChangeView,
>
    decreases n,
{
    if n == 0 {
        Seq::empty()
    } else {
        let i = n - 1;
        let p = before[i];
        deleted_spec(before, after, (n - 1) as nat) + if last_with_id(before, p.id) == i
            && last_with_id(after, p.id) < 0 {
            seq![ProfileChangeView::Deleted { id: p.id, name: p.name@ }]
        } else {
            Seq::empty()
        }
    }
}

/// The profiles among the first `n` of `before` that `after` holds changed.
pub open spec fn updated_spec(before: Seq<SessionProfile>, after: Seq<SessionProfile>, n: nat) -> Seq<
    ProfileChangeView,
>
    decreases n,
{
    if n == 0 {
        Seq::empty()
    } else {
        let i = n - 1;
        let p = before[i];
        let k = last_with_id(after, p.id);
        updated_spec(before, after, (n - 1) as nat) + if last_with_id(before, p.id) == i && k >= 0
            && !same_profile(p, after[k]) {
            seq![
                ProfileChangeView::Updated {
                    id: p.id,
                    before_name: p.name@,
                    before_filter_count: p.filters@.len(),
                    after_name: after[k].name@,
                    after_filter_count: after[k].filters@.len(),
                },
            ]
        } else {
            Seq::empty()
        }
    }
}

fn last_index(ps: &Vec<SessionProfile>, id: &u128) -> (r: Option<usize>)
    ensures
        match r {
            Some(i) => i as int == last_with_id(ps@, *id),
            None => last_with_id(ps@, *id) == -1,
        },
{
    let mut i: usize = ps.len();
    proof {
        assert(ps@.subrange(0, i as int) =~= ps@);
    }
    while i > 0
        invariant
            i <= ps@.len(),
            last_with_id(ps@, *id) == last_with_id(ps@.subrange(0, i as int), *id),
        decreases i,
    {
        let ghost pre = ps@.subrange(0, i as int);
        proof {
            assert(pre.drop_last() =~= ps@.subrange(0, i as int - 1));
            assert(pre.last() == ps@[i as int - 1]);
        }
        if ps[i - 1].id == *id {
            return Some(i - 1);
        }
        i = i - 1;
    }
    proof {
        assert(ps@.subrange(0, 0) =~= Seq::<SessionProfile>::empty());
    }
    None
}

fn same_filter_exec(a: &SessionFilter, b: &SessionFilter) -> (r: bool)
    ensures
        r == same_filter(*a, *b),
{
    if !str_eq(a.field.as_str(), b.field.as_str()) || a.op != b.op {
        return false;
    }
    match (&a.value, &b.value) {
        (None, None) => true,
        (Some(FilterValue::Number(x)), Some(FilterValue::Number(y))) => *x == *y,
        (Some(FilterValue::Text(x)), Some(FilterValue::Text(y))) => str_eq(x.as_str(), y.as_str()),
        (Some(FilterValue::Other), Some(FilterValue::Other)) => true,
        _ => false,
    }
}

fn same_profile_exec(a: &SessionProfile, b: &SessionProfile) -> (r: bool)
    ensures
        r == same_profile(*a, *b),
{
    if a.id != b.id || !str_eq(a.name.as_str(), b.name.as_str()) || a.logic != b.logic
        || a.filters.len() != b.filters.len() {
        return false;
    }
    let mut k: usize = 0;
    while k < a.filters.len()
        invariant
            k <= a.filters@.len(),
            a.filters@.len() == b.filters@.len(),
            forall|q: int| 0 <= q < k ==> same_filter(#[trigger] a.filters@[q], b.filters@[q]),
        decreases a.filters.len() - k,
    {
        if !same_filter_exec(&a.filters[k], &b.filters[k]) {
            return false;
        }
        k = k + 1;
    }
    true
}

fn push_change(out: &mut Vec<ProfileChange>, c: ProfileChange)
    ensures
        changes_view(final(out)@) == changes_view(old(out)@).push(c@),
{
    let ghost before = out@;
    out.push(c);
    proof {
        assert(changes_view(out@) =~= changes_view(before).push(c@));
    }
}

/// The changes an update made to the profiles, matched by id: first the
/// profiles created (in the order of `after`), then those deleted and those
/// changed (in the order of `before`).
pub fn profile_changes(before: &Vec<SessionProfile>, after: &Vec<SessionProfile>) -> (r: Vec<
    ProfileChange,
>)
    ensures
        changes_view(r@) == created_spec(before@, after@, after@.len()) + deleted_spec(
            before@,
            after@,
            before@.len(),
        ) + updated_spec(before@, after@, before@.len()),
{
    let mut out: Vec<ProfileChange> = Vec::new();
    let mut j: usize = 0;
    while j < after.len()
        invariant
            j <= after@.len(),
            changes_view(out@) == created_spec(before@, after@, j as nat),
        decreases after.len() - j,
    {
        let p = &after[j];
        let mine = last_index(after, &p.id);
        let theirs = last_index(before, &p.id);
        if mine == Some(j) && theirs.is_none() {
            push_change(
                &mut out,
                ProfileChange::Created { id: p.id, name: p.name.clone(), filter_count: p.filters.len() },
            );
        } else {
            proof {
                assert(changes_view(out@) =~= created_spec(before@, after@, j as nat) + Seq::<
                    ProfileChangeView,
                >::empty());
            }
        }
        j = j + 1;
    }
    let ghost created = changes_view(out@);
    let mut i: usize = 0;
    while i < before.len()
        invariant
            i <= before@.len(),
            created == created_spec(before@, after@, after@.len()),
            changes_view(out@) == created + deleted_spec(before@, after@, i as nat),
        decreases before.len() - i,
    {
        let p = &before[i];
        let mine = last_index(before, &p.id);
        let theirs = last_index(after, &p.id);
        let ghost b = changes_view(out@);
        if mine == Some(i) && theirs.is_none() {
            push_change(&mut out, ProfileChange::Deleted { id: p.id, name: p.name.clone() });
            proof {
                assert(changes_view(out@) =~= created + deleted_spec(before@, after@, i as nat + 1));
            }
        } else {
            proof {
                assert(changes_view(out@) =~= created + deleted_spec(before@, after@, i as nat + 1));
            }
        }
        i = i + 1;
    }
    let ghost deleted = changes_view(out@);
    let mut i: usize = 0;
    while i < before.len()
        invariant
            i <= before@.len(),
            deleted == created_spec(before@, after@, after@.len()) + deleted_spec(
                before@,
                after@,
                before@.len(),
            ),
            changes_view(out@) == deleted + updated_spec(before@, after@, i as nat),
        decreases before.len() - i,
    {
        let p = &before[i];
        let mine = last_index(before, &p.id);
        let theirs = last_index(after, &p.id);
        proof {
            lemma_last_with_id_bounds(after@, p.id);
        }
        match theirs {
            Some(k) => {
                if mine == Some(i) && !same_profile_exec(p, &after[k]) {
                    let q = &after[k];
                    push_change(
                        &mut out,
                        ProfileChange::Updated {
                            id: p.id,
                            before_name: p.name.clone(),
                            before_filter_count: p.filters.len(),
                            after_name: q.name.clone(),
                            after_filter_count: q.filters.len(),
                        },
                    );
                    proof {
                        assert(changes_view(out@) =~= deleted + updated_spec(before@, after@, i as nat + 1));
                    }
                } else {
                    proof {
                        assert(changes_view(out@) =~= deleted + updated_spec(before@, after@, i as nat + 1));
                    }
                }
            },
            None => {
                proof {
                    assert(changes_view(out@) =~= deleted + updated_spec(before@, after@, i as nat + 1));
                }
            },
        }
        i = i + 1;
    }
    out
}

proof fn lemma_last_with_id_at_least(ps: Seq<SessionProfile>, j: int)
    requires
        0 <= j < ps.len(),
    ensures
        last_with_id(ps, ps[j].id) >= j,
    decreases ps.len(),
{
    if ps.last().id != ps[j].id {
        assert(j < ps.len() - 1);
        assert(ps.drop_last()[j] == ps[j]);
        lemma_last_with_id_at_least(ps.drop_last(), j);
    }
}

proof fn lemma_unchanged_parts(ps: Seq<SessionProfile>, n: nat)
    requires
        n <= ps.len(),
    ensures
        created_spec(ps, ps, n) == Seq::<ProfileChangeView>::empty(),
        deleted_spec(ps, ps, n) == Seq::<ProfileChangeView>::empty(),
        updated_spec(ps, ps, n) == Seq::<ProfileChangeView>::empty(),
    decreases n,
{
    if n > 0 {
        let j = n - 1;
        lemma_unchanged_parts(ps, (n - 1) as nat);
        lemma_last_with_id_at_least(ps, j);
        lemma_last_with_id_bounds(ps, ps[j].id);
        let k = last_with_id(ps, ps[j].id);
        if k == j {
            assert(same_profile(ps[j], ps[k]));
        }
        assert(created_spec(ps, ps, n) =~= Seq::<ProfileChangeView>::empty());
        assert(deleted_spec(ps, ps, n) =~= Seq::<ProfileChangeView>::empty());
        assert(updated_spec(ps, ps, n) =~= Seq::<ProfileChangeView>::empty());
    }
}

/// An update that leaves the profiles as they were records no change.
pub proof fn lemma_no_changes_without_edits(ps: Seq<SessionProfile>)
    ensures
        created_spec(ps, ps, ps.len()) + deleted_spec(ps, ps, ps.len()) + updated_spec(
            ps,
            ps,
            ps.len(),
        ) == Seq::<ProfileChangeView>::empty(),
{
    lemma_unchanged_parts(ps, ps.len());
    assert(Seq::<ProfileChangeView>::empty() + Seq::<ProfileChangeView>::empty() + Seq::<
        ProfileChangeView,
    >::empty() =~= Seq::<ProfileChangeView>::empty());
}

} // verus!
