//! Aggregation of per-organization lookup outcomes into one ordered row list.
//!
//! For each organization, in input order: an organization that failed
//! verification contributes nothing; a verified one contributes one row per
//! detail-lookup outcome, in the order the member listing returned them. A
//! failed member listing is folded into the empty list beforehand, so it is
//! indistinguishable from a memberless organization downstream.

use vstd::prelude::*;

use crate::rows::DetailModel;
use crate::rows::DetailOutcome;
use crate::rows::DisplayRow;
use crate::rows::RowModel;
use crate::rows::UserModel;
use crate::rows::UserRecord;
use crate::rows::normalize;
use crate::rows::spec_normalize;

verus! {

/// Everything gathered about one organization identifier.
pub enum OrgOutcome {
    /// Verification failed: the organization does not exist or is not
    /// reachable with the current credential.
    Absent,
    /// Verification resolved the organization's name, and the member listing
    /// produced these per-user detail-lookup outcomes, in listing order.
    Verified { name: String, outcomes: Vec<DetailOutcome> },
}

/// Mathematical model of an `OrgOutcome`.
pub ghost enum OrgModel {
    Absent,
    Verified { name: Seq<char>, outcomes: Seq<DetailModel> },
}

impl DeepView for OrgOutcome {
    type V = OrgModel;

    open spec fn deep_view(&self) -> OrgModel {
        match self {
            OrgOutcome::Absent => OrgModel::Absent,
            OrgOutcome::Verified { name, outcomes } => OrgModel::Verified {
                name: name@,
                outcomes: outcomes.deep_view(),
            },
        }
    }
}

/// The rows one verified organization contributes: one per outcome, in order.
pub open spec fn spec_rows_for_org(org_name: Seq<char>, outcomes: Seq<DetailModel>) -> Seq<
    RowModel,
> {
    outcomes.map_values(|o: DetailModel| spec_normalize(org_name, o))
}

/// The rows one organization contributes: none when it is absent.
pub open spec fn spec_org_rows(org: OrgModel) -> Seq<RowModel> {
    match org {
        OrgModel::Absent => Seq::empty(),
        OrgModel::Verified { name, outcomes } => spec_rows_for_org(name, outcomes),
    }
}

/// The full aggregated result: each organization's rows, in input order.
pub open spec fn spec_aggregate(orgs: Seq<OrgModel>) -> Seq<RowModel>
    decreases orgs.len(),
{
    if orgs.len() == 0 {
        Seq::empty()
    } else {
        spec_org_rows(orgs[0]) + spec_aggregate(orgs.drop_first())
    }
}

/// The member list a fetch yields: the service's list on success, the empty
/// list on failure.
pub fn users_from_listing(fetched: Option<Vec<UserRecord>>) -> (r: Vec<UserRecord>)
    ensures
        r.deep_view() == (match fetched {
            Option::Some(users) => users.deep_view(),
            Option::None => Seq::<UserModel>::empty(),
        }),
{
    match fetched {
        Option::Some(users) => users,
        Option::None => {
            let r: Vec<UserRecord> = Vec::new();
            proof {
                assert(r.deep_view() =~= Seq::<UserModel>::empty());
            }
            r
        },
    }
}

/// Builds the rows of one verified organization: exactly one row per
/// detail-lookup outcome, in listing order.
pub fn rows_for_org(org_name: &str, outcomes: &Vec<DetailOutcome>) -> (r: Vec<DisplayRow>)
    ensures
        r.deep_view() == spec_rows_for_org(org_name@, outcomes.deep_view()),
{
    let mut r: Vec<DisplayRow> = Vec::new();
    let mut i: usize = 0;
    proof {
        assert(outcomes.deep_view().take(0) =~= Seq::<DetailModel>::empty());
        assert(r.deep_view() =~= spec_rows_for_org(org_name@, outcomes.deep_view().take(0)));
    }
    while i < outcomes.len()
        invariant
            i <= outcomes.len(),
            r@.len() == i as int,
            r.deep_view() == spec_rows_for_org(org_name@, outcomes.deep_view().take(i as int)),
        decreases outcomes.len() - i,
    {
        let row = normalize(org_name, &outcomes[i]);
        let ghost prev = r@;
        r.push(row);
        proof {
            let dv = outcomes.deep_view();
            let j: int = i as int;
            assert(dv.len() == outcomes@.len());
            assert(dv.take(j).len() == j);
            assert(dv.take(j + 1).len() == j + 1);
            assert(dv[j] == outcomes@[j].deep_view());
            assert(row.deep_view() == spec_normalize(org_name@, dv[j]));
            assert(r@ == prev.push(row));
            assert forall|k: int| 0 <= k < j + 1 implies r.deep_view()[k] == spec_rows_for_org(
                org_name@,
                dv.take(j + 1),
            )[k] by {
                assert(dv.take(j + 1)[k] == dv[k]);
                assert(r.deep_view()[k] == r@[k].deep_view());
                if k < j {
                    assert(r@[k] == prev[k]);
                    assert(prev[k].deep_view() == spec_rows_for_org(org_name@, dv.take(j))[k]);
                    assert(dv.take(j)[k] == dv[k]);
                } else {
                    assert(r@[j] == row);
                }
            }
            assert(r.deep_view().len() == j + 1);
            assert(spec_rows_for_org(org_name@, dv.take(j + 1)).len() == j + 1);
            assert(r.deep_view() =~= spec_rows_for_org(org_name@, dv.take(j + 1)));
        }
        i += 1;
    }
    proof {
        assert(outcomes.deep_view().take(outcomes.len() as int) =~= outcomes.deep_view());
    }
    r
}

/// Merges all organizations' rows in input order.
pub fn aggregate(orgs: &Vec<OrgOutcome>) -> (r: Vec<DisplayRow>)
    ensures
        r.deep_view() == spec_aggregate(orgs.deep_view()),
{
    let mut r: Vec<DisplayRow> = Vec::new();
    let mut i: usize = 0;
    proof {
        assert(orgs.deep_view().take(0) =~= Seq::<OrgModel>::empty());
        assert(r.deep_view() =~= spec_aggregate(orgs.deep_view().take(0)));
        assert(r@.len() == 0);
    }
    while i < orgs.len()
        invariant
            i <= orgs.len(),
            r.deep_view() == spec_aggregate(orgs.deep_view().take(i as int)),
            r@.len() == spec_aggregate(orgs.deep_view().take(i as int)).len(),
        decreases orgs.len() - i,
    {
        let ghost dv = orgs.deep_view();
        let ghost j: int = i as int;
        let ghost prev = r@;
        proof {
            assert(dv.take(j + 1) =~= dv.take(j).push(dv[j]));
            lemma_aggregate_snoc(dv.take(j), dv[j]);
            assert(dv[j] == orgs@[j].deep_view());
        }
        match &orgs[i] {
            OrgOutcome::Absent => {
                proof {
                    assert(dv[j] is Absent);
                    assert(spec_org_rows(dv[j]) =~= Seq::<RowModel>::empty());
                    assert(spec_aggregate(dv.take(j)) + Seq::<RowModel>::empty()
                        =~= spec_aggregate(dv.take(j)));
                    assert(r.deep_view() == spec_aggregate(dv.take(j + 1)));
                }
            },
            OrgOutcome::Verified { name, outcomes } => {
                let mut rows = rows_for_org(name.as_str(), outcomes);
                let ghost rows_prev = rows@;
                let ghost rows_dv = rows.deep_view();
                proof {
                    assert(rows_dv.len() == rows_prev.len());
                    assert(spec_org_rows(dv[j]) == spec_rows_for_org(name@, outcomes.deep_view()));
                    assert(rows_dv == spec_org_rows(dv[j]));
                    assert forall|k: int|
                        0 <= k < rows_prev.len() implies rows_dv[k] == rows_prev[k].deep_view() by {
                    }
                }
                r.append(&mut rows);
                proof {
                    assert(r@ == prev + rows_prev);
                    assert(prev.len() == spec_aggregate(dv.take(j)).len());
                    assert forall|k: int|
                        0 <= k < r@.len() implies r.deep_view()[k] == (spec_aggregate(dv.take(j))
                            + rows_dv)[k] by {
                        assert(r.deep_view()[k] == r@[k].deep_view());
                        if k < prev.len() {
                            assert(r@[k] == prev[k]);
                            assert(prev[k].deep_view() == spec_aggregate(dv.take(j))[k]);
                        } else {
                            assert(r@[k] == rows_prev[k - prev.len()]);
                            assert(rows_dv[k - prev.len()] == rows_prev[k - prev.len()].deep_view());
                        }
                    }
                    assert(r.deep_view().len() == r@.len());
                    assert((spec_aggregate(dv.take(j)) + rows_dv).len() == prev.len()
                        + rows_prev.len());
                    assert(r.deep_view() =~= spec_aggregate(dv.take(j)) + rows_dv);
                    assert(r.deep_view() == spec_aggregate(dv.take(j + 1)));
                }
            },
        }
        i += 1;
    }
    proof {
        assert(orgs.deep_view().take(orgs.len() as int) =~= orgs.deep_view());
    }
    r
}

/// The emails-only output: one entry per row, each the row's email field.
pub open spec fn spec_emails(rows: Seq<RowModel>) -> Seq<Seq<char>> {
    rows.map_values(|row: RowModel| row.email)
}

/// Extracts the emails-only output lines: exactly one per aggregated row,
/// each equal to that row's email field, in the same order.
pub fn emails_of(rows: &Vec<DisplayRow>) -> (r: Vec<String>)
    ensures
        r.deep_view() == spec_emails(rows.deep_view()),
        r@.len() == rows@.len(),
{
    let mut r: Vec<String> = Vec::new();
    let mut i: usize = 0;
    proof {
        assert(rows.deep_view().take(0) =~= Seq::<RowModel>::empty());
        assert(r.deep_view() =~= spec_emails(rows.deep_view().take(0)));
    }
    while i < rows.len()
        invariant
            i <= rows.len(),
            r@.len() == i as int,
            r.deep_view() == spec_emails(rows.deep_view().take(i as int)),
        decreases rows.len() - i,
    {
        let line = rows[i].email.clone();
        let ghost prev = r@;
        r.push(line);
        proof {
            let dv = rows.deep_view();
            let j: int = i as int;
            assert(dv.len() == rows@.len());
            assert(dv.take(j).len() == j);
            assert(dv.take(j + 1).len() == j + 1);
            assert(dv[j] == rows@[j].deep_view());
            assert(line@ == dv[j].email);
            assert(r@ == prev.push(line));
            assert forall|k: int| 0 <= k < j + 1 implies r.deep_view()[k] == spec_emails(
                dv.take(j + 1),
            )[k] by {
                assert(dv.take(j + 1)[k] == dv[k]);
                assert(r.deep_view()[k] == r@[k]@);
                if k < j {
                    assert(r@[k] == prev[k]);
                    assert(prev[k]@ == spec_emails(dv.take(j))[k]);
                    assert(dv.take(j)[k] == dv[k]);
                } else {
                    assert(r@[j] == line);
                }
            }
            assert(r.deep_view().len() == j + 1);
            assert(spec_emails(dv.take(j + 1)).len() == j + 1);
            assert(r.deep_view() =~= spec_emails(dv.take(j + 1)));
        }
        i += 1;
    }
    proof {
        assert(rows.deep_view().take(rows.len() as int) =~= rows.deep_view());
    }
    r
}

/// Appending one more organization appends exactly that organization's rows
/// after everything already aggregated.
pub proof fn lemma_aggregate_snoc(orgs: Seq<OrgModel>, org: OrgModel)
    ensures
        spec_aggregate(orgs.push(org)) == spec_aggregate(orgs) + spec_org_rows(org),
    decreases orgs.len(),
{
    if orgs.len() == 0 {
        assert(orgs.push(org)[0] == org);
        assert(orgs.push(org).drop_first() =~= Seq::<OrgModel>::empty());
        assert(spec_aggregate(orgs.push(org)) == spec_org_rows(org) + spec_aggregate(
            Seq::<OrgModel>::empty(),
        ));
        assert(spec_org_rows(org) + Seq::<RowModel>::empty() =~= spec_org_rows(org));
        assert(spec_aggregate(orgs) + spec_org_rows(org) =~= spec_org_rows(org));
    } else {
        let rest = orgs.drop_first();
        assert(orgs.push(org)[0] == orgs[0]);
        assert(orgs.push(org).drop_first() =~= rest.push(org));
        lemma_aggregate_snoc(rest, org);
        assert(spec_aggregate(orgs.push(org)) == spec_org_rows(orgs[0]) + (spec_aggregate(rest)
            + spec_org_rows(org)));
        assert(spec_org_rows(orgs[0]) + (spec_aggregate(rest) + spec_org_rows(org)) =~= (
        spec_org_rows(orgs[0]) + spec_aggregate(rest)) + spec_org_rows(org));
    }
}

/// Output order respects input order: the rows of a concatenation of two
/// organization lists are the rows of the first followed by the rows of the
/// second, whatever failed inside either.
pub proof fn lemma_aggregate_concat(a: Seq<OrgModel>, b: Seq<OrgModel>)
    ensures
        spec_aggregate(a + b) == spec_aggregate(a) + spec_aggregate(b),
    decreases a.len(),
{
    if a.len() == 0 {
        assert(a + b =~= b);
        assert(spec_aggregate(a) + spec_aggregate(b) =~= spec_aggregate(b));
    } else {
        assert((a + b)[0] == a[0]);
        assert((a + b).drop_first() =~= a.drop_first() + b);
        lemma_aggregate_concat(a.drop_first(), b);
        assert(spec_org_rows(a[0]) + (spec_aggregate(a.drop_first()) + spec_aggregate(b)) =~= (
        spec_org_rows(a[0]) + spec_aggregate(a.drop_first())) + spec_aggregate(b));
    }
}

/// An organization that failed verification contributes zero rows, and the
/// result is as if the remaining organizations alone had been processed.
pub proof fn lemma_absent_adds_nothing(orgs: Seq<OrgModel>, i: int)
    requires
        0 <= i < orgs.len(),
        orgs[i] is Absent,
    ensures
        spec_aggregate(orgs) == spec_aggregate(orgs.remove(i)),
{
    let pre = orgs.subrange(0, i);
    let mid = seq![orgs[i]];
    let post = orgs.subrange(i + 1, orgs.len() as int);
    assert(orgs =~= (pre + mid) + post);
    lemma_aggregate_concat(pre + mid, post);
    lemma_aggregate_concat(pre, mid);
    assert(mid[0] == orgs[i]);
    assert(mid.drop_first() =~= Seq::<OrgModel>::empty());
    assert(spec_aggregate(mid) == spec_org_rows(orgs[i]) + spec_aggregate(
        Seq::<OrgModel>::empty(),
    ));
    assert(spec_aggregate(mid) =~= Seq::<RowModel>::empty());
    lemma_aggregate_concat(pre, post);
    assert(orgs.remove(i) =~= pre + post);
    assert((spec_aggregate(pre) + Seq::<RowModel>::empty()) + spec_aggregate(post)
        =~= spec_aggregate(pre) + spec_aggregate(post));
}

/// A verified organization yields exactly one row per detail-lookup outcome
/// — none dropped, none duplicated — and each row is that outcome's
/// normalization; an empty member list yields zero rows.
pub proof fn lemma_one_row_per_user(org_name: Seq<char>, outcomes: Seq<DetailModel>)
    ensures
        spec_rows_for_org(org_name, outcomes).len() == outcomes.len(),
        forall|i: int|
            0 <= i < outcomes.len() ==> spec_rows_for_org(org_name, outcomes)[i]
                == spec_normalize(org_name, outcomes[i]),
{
}

} // verus!
