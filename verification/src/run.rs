//! One whole scan, modelled over the per-candidate outcomes.
//!
//! The running program probes every candidate on its own task and the
//! aggregator prints records in whatever order the tasks finish. What that
//! order cannot change — which records exist at all — is stated and proved
//! here over [`run_outcomes`], the sequence of records a scan of the given
//! candidates produces when taken in listing order.
use vstd::prelude::*;
use vstd::multiset::Multiset;
use vstd::seq_lib::group_to_multiset_ensures;
use vstd::seq_lib::lemma_multiset_commutative;

use crate::probe::ObsModel;
use crate::probe::Observation;
use crate::probe::outcome_of;
use crate::probe::replay;
use crate::report::InspectionResult;
use crate::report::ResultModel;

verus! {

/// The records a scan of `s` produces, in listing order: each candidate
/// contributes its probe's outcome, or nothing.
pub open spec fn run_outcomes(s: Seq<ObsModel>) -> Seq<ResultModel>
    decreases s.len(),
{
    if s.len() == 0 {
        Seq::empty()
    } else {
        match outcome_of(s.first()) {
            Some(r) => seq![r] + run_outcomes(s.drop_first()),
            None => run_outcomes(s.drop_first()),
        }
    }
}

/// The models of a sequence of observations.
pub open spec fn obs_models(s: Seq<Observation>) -> Seq<ObsModel> {
    s.map_values(|o: Observation| o@)
}

/// The models of a sequence of result records.
pub open spec fn results_model(s: Seq<InspectionResult>) -> Seq<ResultModel> {
    s.map_values(|r: InspectionResult| r@)
}

/// Appending one candidate appends its outcome, if any.
proof fn lemma_run_outcomes_push(s: Seq<ObsModel>, o: ObsModel)
    ensures
        run_outcomes(s.push(o)) == run_outcomes(s) + (match outcome_of(o) {
            Some(r) => seq![r],
            None => Seq::<ResultModel>::empty(),
        }),
    decreases s.len(),
{
    let tail = (match outcome_of(o) {
        Some(r) => seq![r],
        None => Seq::<ResultModel>::empty(),
    });
    if s.len() == 0 {
        assert(s.push(o)[0] == o);
        assert(s.push(o).first() == o);
        assert(s.push(o).drop_first() =~= Seq::<ObsModel>::empty());
        assert(run_outcomes(Seq::<ObsModel>::empty()) == Seq::<ResultModel>::empty());
        assert(run_outcomes(s) == Seq::<ResultModel>::empty());
        assert(run_outcomes(s.push(o)) =~= run_outcomes(s) + tail);
    } else {
        assert(s.push(o)[0] == s[0]);
        assert(s.push(o).first() == s.first());
        assert(s.push(o).drop_first() =~= s.drop_first().push(o));
        lemma_run_outcomes_push(s.drop_first(), o);
        assert(run_outcomes(s.push(o)) =~= run_outcomes(s) + tail);
    }
}

/// Probe every candidate in listing order and collect what the probes emit.
/// The collected records are exactly the scan's outcomes.
pub fn collect_results(observations: Vec<Observation>) -> (r: Vec<InspectionResult>)
    ensures
        results_model(r@) == run_outcomes(obs_models(observations@)),
{
    let ghost all = observations@;
    let mut obs = observations;
    let mut out: Vec<InspectionResult> = Vec::new();
    proof {
        assert(obs@ =~= all.skip(0));
        assert(obs_models(all.take(0)) =~= Seq::<ObsModel>::empty());
        assert(results_model(out@) =~= run_outcomes(obs_models(all.take(0))));
    }
    while obs.len() != 0
        invariant
            obs@.len() <= all.len(),
            obs@ == all.skip(all.len() - obs@.len()),
            results_model(out@) == run_outcomes(obs_models(all.take(all.len() - obs@.len()))),
        decreases obs@.len(),
    {
        let ghost k = all.len() - obs@.len();
        proof {
            assert(0 <= k < all.len());
            assert(all.skip(k)[0] == all[k]);
        }
        let o = obs.remove(0);
        proof {
            assert(o == all[k]);
            assert(obs@ =~= all.skip(k + 1));
            assert(obs_models(all.take(k + 1)) =~= obs_models(all.take(k)).push(all[k]@));
            lemma_run_outcomes_push(obs_models(all.take(k)), all[k]@);
        }
        let produced = replay(o);
        match produced {
            Some(record) => {
                out.push(record);
            },
            None => (),
        }
        proof {
            assert(results_model(out@) =~= run_outcomes(obs_models(all.take(k + 1))));
        }
    }
    proof {
        assert(all.take(all.len() as int) =~= all);
    }
    out
}

/// How many candidates carry a repository marker.
pub open spec fn count_marked(s: Seq<ObsModel>) -> nat
    decreases s.len(),
{
    if s.len() == 0 {
        0
    } else {
        (if s.first().marker {
            1nat
        } else {
            0nat
        }) + count_marked(s.drop_first())
    }
}

/// How many marked candidates fail before a record can be built: the open
/// failed or the head could not be read.
pub open spec fn count_failed(s: Seq<ObsModel>) -> nat
    decreases s.len(),
{
    if s.len() == 0 {
        0
    } else {
        (if s.first().marker && !(s.first().opened && s.first().head is Some) {
            1nat
        } else {
            0nat
        }) + count_failed(s.drop_first())
    }
}

/// A scan of candidates with M markers, E of which fail to open or to
/// report a head, emits exactly M - E records: at most M and at least M - E.
pub proof fn lemma_emission_bounds(s: Seq<ObsModel>)
    ensures
        count_failed(s) <= count_marked(s),
        run_outcomes(s).len() + count_failed(s) == count_marked(s),
        run_outcomes(s).len() <= count_marked(s),
    decreases s.len(),
{
    if s.len() != 0 {
        lemma_emission_bounds(s.drop_first());
    }
}

/// Every emitted record is the outcome of some marked candidate, and names
/// that candidate's path.
pub proof fn lemma_results_from_marked(s: Seq<ObsModel>)
    ensures
        forall|k: int| #![trigger run_outcomes(s)[k]]
            0 <= k < run_outcomes(s).len() ==> exists|j: int|
                0 <= j < s.len() && s[j].marker && #[trigger] outcome_of(s[j]) == Some(
                    run_outcomes(s)[k],
                ) && run_outcomes(s)[k].repo == s[j].path,
    decreases s.len(),
{
    if s.len() != 0 {
        lemma_results_from_marked(s.drop_first());
        let rest = run_outcomes(s.drop_first());
        assert forall|k: int| #![trigger run_outcomes(s)[k]]
            0 <= k < run_outcomes(s).len() implies exists|j: int|
            0 <= j < s.len() && s[j].marker && #[trigger] outcome_of(s[j]) == Some(
                run_outcomes(s)[k],
            ) && run_outcomes(s)[k].repo == s[j].path by {
            match outcome_of(s.first()) {
                Some(r) => {
                    if k == 0 {
                        assert(s[0].marker && outcome_of(s[0]) == Some(run_outcomes(s)[k])
                            && run_outcomes(s)[k].repo == s[0].path);
                    } else {
                        assert(run_outcomes(s)[k] == rest[k - 1]);
                        let j0 = choose|j0: int|
                            0 <= j0 < s.drop_first().len() && s.drop_first()[j0].marker
                                && #[trigger] outcome_of(s.drop_first()[j0]) == Some(rest[k - 1])
                                && rest[k - 1].repo == s.drop_first()[j0].path;
                        assert(s.drop_first()[j0] == s[j0 + 1]);
                        assert(0 <= j0 + 1 < s.len() && s[j0 + 1].marker && outcome_of(s[j0 + 1])
                            == Some(run_outcomes(s)[k]) && run_outcomes(s)[k].repo == s[j0
                            + 1].path);
                    }
                },
                None => {
                    assert(run_outcomes(s)[k] == rest[k]);
                    let j0 = choose|j0: int|
                        0 <= j0 < s.drop_first().len() && s.drop_first()[j0].marker
                            && #[trigger] outcome_of(s.drop_first()[j0]) == Some(rest[k]) && rest[
                        k].repo == s.drop_first()[j0].path;
                    assert(s.drop_first()[j0] == s[j0 + 1]);
                    assert(0 <= j0 + 1 < s.len() && s[j0 + 1].marker && outcome_of(s[j0 + 1])
                        == Some(run_outcomes(s)[k]) && run_outcomes(s)[k].repo == s[j0 + 1].path);
                },
            }
        }
    }
}

/// No record of a scan names the path of a candidate without a repository
/// marker (assuming no marked candidate shares that path).
pub proof fn lemma_non_repo_unreported(s: Seq<ObsModel>, i: int)
    requires
        0 <= i < s.len(),
        forall|j: int| 0 <= j < s.len() && #[trigger] s[j].path == s[i].path ==> !s[j].marker,
    ensures
        forall|k: int|
            0 <= k < run_outcomes(s).len() ==> #[trigger] run_outcomes(s)[k].repo != s[i].path,
{
    lemma_results_from_marked(s);
    assert forall|k: int|
        0 <= k < run_outcomes(s).len() implies #[trigger] run_outcomes(s)[k].repo
        != s[i].path by {
        let j = choose|j: int|
            0 <= j < s.len() && s[j].marker && #[trigger] outcome_of(s[j]) == Some(
                run_outcomes(s)[k],
            ) && run_outcomes(s)[k].repo == s[j].path;
        if run_outcomes(s)[k].repo == s[i].path {
            assert(s[j].path == s[i].path);
            assert(!s[j].marker);
        }
    }
}

/// How many records of `rs` name the path `p`.
pub open spec fn count_for_path(rs: Seq<ResultModel>, p: Seq<char>) -> nat
    decreases rs.len(),
{
    if rs.len() == 0 {
        0
    } else {
        (if rs.first().repo == p {
            1nat
        } else {
            0nat
        }) + count_for_path(rs.drop_first(), p)
    }
}

/// Records that never name `p` count zero for it.
proof fn lemma_count_for_path_zero(rs: Seq<ResultModel>, p: Seq<char>)
    requires
        forall|k: int| 0 <= k < rs.len() ==> #[trigger] rs[k].repo != p,
    ensures
        count_for_path(rs, p) == 0,
    decreases rs.len(),
{
    if rs.len() != 0 {
        assert(rs[0].repo != p);
        assert(forall|k: int|
            0 <= k < rs.drop_first().len() ==> #[trigger] rs.drop_first()[k].repo != p);
        lemma_count_for_path_zero(rs.drop_first(), p);
    }
}

/// Each candidate directory is consumed by exactly one probe, so when no two
/// candidates share a path, no path is named by more than one record.
pub proof fn lemma_one_record_per_path(s: Seq<ObsModel>, p: Seq<char>)
    requires
        forall|i: int, j: int| 0 <= i < j < s.len() ==> #[trigger] s[i].path != #[trigger] s[j].path,
    ensures
        count_for_path(run_outcomes(s), p) <= 1,
    decreases s.len(),
{
    if s.len() != 0 {
        let rest = s.drop_first();
        assert(forall|i: int, j: int|
            0 <= i < j < rest.len() ==> #[trigger] rest[i].path != #[trigger] rest[j].path) by {
            assert(forall|i: int| 0 <= i < rest.len() ==> rest[i] == s[i + 1]);
        }
        lemma_one_record_per_path(rest, p);
        match outcome_of(s.first()) {
            Some(r) => {
                let out = run_outcomes(s);
                assert(out == seq![r] + run_outcomes(rest));
                assert(out.first() == r);
                assert(out.drop_first() =~= run_outcomes(rest));
                if r.repo == p {
                    assert(r.repo == s[0].path);
                    lemma_results_from_marked(rest);
                    assert forall|k: int|
                        0 <= k < run_outcomes(rest).len() implies #[trigger] run_outcomes(
                        rest,
                    )[k].repo != p by {
                        let j = choose|j: int|
                            0 <= j < rest.len() && rest[j].marker && #[trigger] outcome_of(rest[j])
                                == Some(run_outcomes(rest)[k]) && run_outcomes(rest)[k].repo
                                == rest[j].path;
                        assert(rest[j] == s[j + 1]);
                        assert(s[0].path != s[j + 1].path);
                    }
                    lemma_count_for_path_zero(run_outcomes(rest), p);
                }
            },
            None => {},
        }
    }
}

/// The records one candidate contributes, as a multiset: one or none.
pub open spec fn outcome_multiset(o: Option<ResultModel>) -> Multiset<ResultModel> {
    match o {
        Some(r) => Multiset::empty().insert(r),
        None => Multiset::empty(),
    }
}

/// The scan's records, as a multiset, split off at the first candidate.
proof fn lemma_run_multiset_first(s: Seq<ObsModel>)
    requires
        s.len() != 0,
    ensures
        run_outcomes(s).to_multiset() == outcome_multiset(outcome_of(s.first())).add(
            run_outcomes(s.drop_first()).to_multiset(),
        ),
{
    broadcast use group_to_multiset_ensures;

    match outcome_of(s.first()) {
        Some(r) => {
            lemma_multiset_commutative(seq![r], run_outcomes(s.drop_first()));
            assert(seq![r] =~= Seq::<ResultModel>::empty().push(r));
            assert(Seq::<ResultModel>::empty().to_multiset() =~= Multiset::<ResultModel>::empty());
            assert(seq![r].to_multiset() =~= Multiset::<ResultModel>::empty().insert(r));
            assert(run_outcomes(s).to_multiset() =~= outcome_multiset(outcome_of(s.first())).add(
                run_outcomes(s.drop_first()).to_multiset(),
            ));
        },
        None => {
            assert(run_outcomes(s).to_multiset() =~= outcome_multiset(outcome_of(s.first())).add(
                run_outcomes(s.drop_first()).to_multiset(),
            ));
        },
    }
}

/// The scan's records, as a multiset, split off at any one candidate.
proof fn lemma_run_multiset_remove(s: Seq<ObsModel>, j: int)
    requires
        0 <= j < s.len(),
    ensures
        run_outcomes(s).to_multiset() == outcome_multiset(outcome_of(s[j])).add(
            run_outcomes(s.remove(j)).to_multiset(),
        ),
    decreases j,
{
    if j == 0 {
        assert(s.remove(0) =~= s.drop_first());
        lemma_run_multiset_first(s);
    } else {
        lemma_run_multiset_first(s);
        assert(s.remove(j)[0] == s[0]);
        assert(s.remove(j).first() == s.first());
        assert(s.remove(j).drop_first() =~= s.drop_first().remove(j - 1));
        assert(s.drop_first()[j - 1] == s[j]);
        lemma_run_multiset_first(s.remove(j));
        lemma_run_multiset_remove(s.drop_first(), j - 1);
        assert(run_outcomes(s).to_multiset() =~= outcome_multiset(outcome_of(s[j])).add(
            run_outcomes(s.remove(j)).to_multiset(),
        ));
    }
}

/// Listing the candidates in another order changes only the order records
/// arrive in, never which records a scan emits: the same candidates, as a
/// multiset, yield the same records, as a multiset.
pub proof fn lemma_order_independent(s1: Seq<ObsModel>, s2: Seq<ObsModel>)
    requires
        s1.to_multiset() == s2.to_multiset(),
    ensures
        run_outcomes(s1).to_multiset() == run_outcomes(s2).to_multiset(),
    decreases s1.len(),
{
    broadcast use group_to_multiset_ensures;

    if s1.len() == 0 {
        assert(s1.to_multiset().len() == s1.len());
        assert(s2.to_multiset().len() == s2.len());
        assert(s2.len() == 0);
    } else {
        let x = s1.first();
        assert(s1.contains(x));
        assert(s2.to_multiset().count(x) > 0);
        assert(s2.contains(x));
        let j = choose|j: int| 0 <= j < s2.len() && s2[j] == x;
        assert(s1.remove(0) =~= s1.drop_first());
        assert(s1.remove(0).to_multiset() == s1.to_multiset().remove(x));
        assert(s2.remove(j).to_multiset() == s2.to_multiset().remove(x));
        lemma_order_independent(s1.drop_first(), s2.remove(j));
        lemma_run_multiset_first(s1);
        lemma_run_multiset_remove(s2, j);
    }
}

/// A scan of no candidates emits no records.
pub proof fn lemma_empty_scan()
    ensures
        run_outcomes(Seq::<ObsModel>::empty()) == Seq::<ResultModel>::empty(),
{
}

} // verus!
