use vstd::prelude::*;

use crate::error::SeedsError;
use crate::seeder::{
    contains_version, dup_at, has_kind, mixed_kinds, sorted_by_version, spec_dirty_version,
    spec_first_dup, spec_first_missing, spec_lookup, spec_revert_index, spec_run_plan,
};
use crate::seeds::{AppliedSeeds, Seeds};
use crate::seeds_type::SeedsType;

verus! {

/// Dirty blocking: the dirty check reports a version exactly when some
/// record was left partially applied, and it reports the first such record's
/// version; a run or revert planned against such records therefore fails
/// with that version before any script is considered.
pub proof fn lemma_dirty_version_spec(a: Seq<AppliedSeeds>)
    ensures
        spec_dirty_version(a) is None <==> (forall|i: int|
            0 <= i < a.len() ==> a[i].success),
        spec_dirty_version(a) matches Some(v) ==> exists|i: int|
            0 <= i < a.len() && !a[i].success && a[i].version == v
                && (forall|j: int| 0 <= j < i ==> a[j].success),
    decreases a.len(),
{
    if a.len() == 0 {
    } else if !a[0].success {
        assert(!a[0].success && a[0].version == spec_dirty_version(a)->Some_0);
    } else {
        let d = a.drop_first();
        lemma_dirty_version_spec(d);
        assert forall|i: int| 0 <= i < d.len() implies d[i] == a[i + 1] by {}
        if spec_dirty_version(a) is None {
            assert forall|i: int| 0 <= i < a.len() implies a[i].success by {
                if i > 0 {
                    assert(d[i - 1] == a[i]);
                }
            }
        }
        if forall|i: int| 0 <= i < a.len() ==> a[i].success {
            assert forall|i: int| 0 <= i < d.len() implies d[i].success by {
                assert(d[i] == a[i + 1]);
            }
        }
        if spec_dirty_version(a) is Some {
            let v = spec_dirty_version(a)->Some_0;
            let i = choose|i: int| 0 <= i < a.drop_first().len()
                && !a.drop_first()[i].success && a.drop_first()[i].version == v
                && (forall|j: int| 0 <= j < i ==> a.drop_first()[j].success);
            assert(!a[i + 1].success && a[i + 1].version == v);
            assert forall|j: int| 0 <= j < i + 1 implies a[j].success by {
                if j > 0 {
                    assert(d[j - 1] == a[j]);
                }
            }
        }
    }
}

/// Missing-version tolerance, exact side: the missing check reports a
/// version exactly when some applied record's version is absent from the
/// registry, and what it reports is such a record's version.
pub proof fn lemma_first_missing_spec(s: Seq<Seeds>, a: Seq<AppliedSeeds>)
    ensures
        spec_first_missing(s, a) is None <==> (forall|i: int|
            0 <= i < a.len() ==> contains_version(s, a[i].version)),
        spec_first_missing(s, a) matches Some(v) ==> exists|i: int|
            0 <= i < a.len() && a[i].version == v && !contains_version(s, v),
    decreases a.len(),
{
    if a.len() == 0 {
    } else if !contains_version(s, a[0].version) {
    } else {
        let d = a.drop_first();
        lemma_first_missing_spec(s, d);
        assert forall|i: int| 0 <= i < d.len() implies d[i] == a[i + 1] by {}
        if spec_first_missing(s, a) is None {
            assert forall|i: int| 0 <= i < a.len() implies contains_version(
                s,
                a[i].version,
            ) by {
                if i > 0 {
                    assert(d[i - 1] == a[i]);
                }
            }
        }
        if forall|i: int| 0 <= i < a.len() ==> contains_version(s, a[i].version) {
            assert forall|i: int| 0 <= i < d.len() implies contains_version(
                s,
                d[i].version,
            ) by {
                assert(d[i] == a[i + 1]);
            }
        }
        if spec_first_missing(s, a) is Some {
            let v = spec_first_missing(s, a)->Some_0;
            let i = choose|i: int| 0 <= i < a.drop_first().len()
                && a.drop_first()[i].version == v && !contains_version(s, v);
            assert(a[i + 1].version == v);
        }
    }
}

/// A lookup answers `None` exactly when no record carries the version, and
/// an answer is one of the records that do.
pub proof fn lemma_lookup_spec(a: Seq<AppliedSeeds>, v: i64)
    ensures
        spec_lookup(a, v) is None <==> (forall|i: int|
            0 <= i < a.len() ==> a[i].version != v),
        spec_lookup(a, v) matches Some(rec) ==> rec.version == v && exists|i: int|
            0 <= i < a.len() && a[i] == rec,
    decreases a.len(),
{
    if a.len() == 0 {
    } else if a[0].version == v {
        assert(a[0] == spec_lookup(a, v)->Some_0);
    } else {
        let d = a.drop_first();
        lemma_lookup_spec(d, v);
        assert forall|i: int| 0 <= i < d.len() implies d[i] == a[i + 1] by {}
        if spec_lookup(a, v) is None {
            assert forall|i: int| 0 <= i < a.len() implies a[i].version != v by {
                if i > 0 {
                    assert(d[i - 1] == a[i]);
                }
            }
        }
        if forall|i: int| 0 <= i < a.len() ==> a[i].version != v {
            assert forall|i: int| 0 <= i < d.len() implies d[i].version != v by {
                assert(d[i] == a[i + 1]);
            }
        }
        if spec_lookup(a, v) is Some {
            let rec = spec_lookup(a, v)->Some_0;
            let i = choose|i: int| 0 <= i < a.drop_first().len()
                && a.drop_first()[i] == rec;
            assert(a[i + 1] == rec);
        }
    }
}

/// A lookup over concatenated records prefers the earlier ones.
pub proof fn lemma_lookup_append(a: Seq<AppliedSeeds>, b: Seq<AppliedSeeds>, v: i64)
    ensures
        spec_lookup(a + b, v) == if spec_lookup(a, v) is Some {
            spec_lookup(a, v)
        } else {
            spec_lookup(b, v)
        },
    decreases a.len(),
{
    if a.len() == 0 {
        assert(a + b =~= b);
    } else {
        assert((a + b)[0] == a[0]);
        assert((a + b).drop_first() =~= a.drop_first() + b);
        lemma_lookup_append(a.drop_first(), b, v);
    }
}

/// The dirty check over concatenated records reports the earlier dirty
/// record first.
pub proof fn lemma_dirty_append(a: Seq<AppliedSeeds>, b: Seq<AppliedSeeds>)
    ensures
        spec_dirty_version(a + b) == if spec_dirty_version(a) is Some {
            spec_dirty_version(a)
        } else {
            spec_dirty_version(b)
        },
    decreases a.len(),
{
    if a.len() == 0 {
        assert(a + b =~= b);
    } else {
        assert((a + b)[0] == a[0]);
        assert((a + b).drop_first() =~= a.drop_first() + b);
        lemma_dirty_append(a.drop_first(), b);
    }
}

/// The missing check over concatenated records reports the earlier orphan
/// first.
pub proof fn lemma_first_missing_append(s: Seq<Seeds>, a: Seq<AppliedSeeds>, b: Seq<AppliedSeeds>)
    ensures
        spec_first_missing(s, a + b) == if spec_first_missing(s, a) is Some {
            spec_first_missing(s, a)
        } else {
            spec_first_missing(s, b)
        },
    decreases a.len(),
{
    if a.len() == 0 {
        assert(a + b =~= b);
    } else {
        assert((a + b)[0] == a[0]);
        assert((a + b).drop_first() =~= a.drop_first() + b);
        lemma_first_missing_append(s, a.drop_first(), b);
    }
}

/// What a planned run consists of, considering scripts from position `i`
/// on: the planned positions are exactly the forward scripts without an
/// applied record, in ascending order; a clean outcome means every recorded
/// forward script still matches its checksum; a failed outcome names a
/// recorded forward script whose checksum changed.
pub proof fn lemma_run_plan_shape(s: Seq<Seeds>, a: Seq<AppliedSeeds>, i: int)
    requires
        0 <= i,
    ensures
        forall|k: int| 0 <= k < spec_run_plan(s, a, i).0.len()
            ==> i <= #[trigger] spec_run_plan(s, a, i).0[k] < s.len()
                && s[spec_run_plan(s, a, i).0[k]].seeds_type != SeedsType::ReversibleDown
                && spec_lookup(a, s[spec_run_plan(s, a, i).0[k]].version) is None,
        forall|k1: int, k2: int| 0 <= k1 < k2 < spec_run_plan(s, a, i).0.len()
            ==> #[trigger] spec_run_plan(s, a, i).0[k1]
                < #[trigger] spec_run_plan(s, a, i).0[k2],
        spec_run_plan(s, a, i).1 is Ok ==> forall|j: int|
            i <= j < s.len() && s[j].seeds_type != SeedsType::ReversibleDown
                && spec_lookup(a, #[trigger] s[j].version) is None
                ==> spec_run_plan(s, a, i).0.contains(j),
        spec_run_plan(s, a, i).1 is Ok ==> forall|j: int|
            i <= j < s.len() && s[j].seeds_type != SeedsType::ReversibleDown
                && spec_lookup(a, #[trigger] s[j].version) is Some
                ==> spec_lookup(a, s[j].version)->Some_0.checksum@ == s[j].checksum@,
        spec_run_plan(s, a, i).1 is Err ==> exists|j: int|
            i <= j < s.len() && s[j].seeds_type != SeedsType::ReversibleDown
                && spec_lookup(a, #[trigger] s[j].version) is Some
                && spec_lookup(a, s[j].version)->Some_0.checksum@ != s[j].checksum@
                && spec_run_plan(s, a, i).1 == Err::<(), SeedsError>(
                SeedsError::VersionMismatch(s[j].version),
            ),
    decreases s.len() - i,
{
    if i < 0 || i >= s.len() {
    } else if s[i].seeds_type == SeedsType::ReversibleDown {
        lemma_run_plan_shape(s, a, i + 1);
    } else {
        match spec_lookup(a, s[i].version) {
            Some(rec) => {
                if rec.checksum@ == s[i].checksum@ {
                    lemma_run_plan_shape(s, a, i + 1);
                    if spec_run_plan(s, a, i).1 is Ok {
                        assert forall|j: int|
                            i <= j < s.len() && s[j].seeds_type != SeedsType::ReversibleDown
                                && spec_lookup(a, #[trigger] s[j].version) is Some
                            implies spec_lookup(a, s[j].version)->Some_0.checksum@
                                == s[j].checksum@ by {
                            if j != i {
                                assert(i + 1 <= j);
                            }
                        }
                    }
                } else {
                    assert(i <= i < s.len() && s[i].seeds_type != SeedsType::ReversibleDown
                        && spec_lookup(a, s[i].version) is Some
                        && spec_lookup(a, s[i].version)->Some_0.checksum@ != s[i].checksum@
                        && spec_run_plan(s, a, i).1 == Err::<(), SeedsError>(
                        SeedsError::VersionMismatch(s[i].version),
                    ));
                }
            },
            None => {
                lemma_run_plan_shape(s, a, i + 1);
                let rest = spec_run_plan(s, a, i + 1);
                let plan = spec_run_plan(s, a, i);
                assert(plan.0 == seq![i] + rest.0 && plan.1 == rest.1);
                assert(plan.0[0] == i);
                assert(forall|k: int| 1 <= k < plan.0.len()
                    ==> #[trigger] plan.0[k] == rest.0[k - 1]);
                if plan.1 is Ok {
                    assert forall|j: int|
                        i <= j < s.len() && s[j].seeds_type != SeedsType::ReversibleDown
                            && spec_lookup(a, #[trigger] s[j].version) is Some
                        implies spec_lookup(a, s[j].version)->Some_0.checksum@
                            == s[j].checksum@ by {
                        assert(j != i);
                        assert(i + 1 <= j);
                    }
                    assert forall|j: int|
                        i <= j < s.len() && s[j].seeds_type != SeedsType::ReversibleDown
                            && spec_lookup(a, #[trigger] s[j].version) is None
                        implies plan.0.contains(j) by {
                        if j == i {
                            assert(plan.0[0] == j);
                        } else {
                            assert(rest.0.contains(j));
                            let k = choose|k: int| 0 <= k < rest.0.len() && rest.0[k] == j;
                            assert(plan.0[k + 1] == j);
                        }
                    }
                }
            },
        }
    }
}

/// Drift detection: a planned run ends cleanly exactly when no recorded
/// forward script's checksum has changed, and a changed checksum makes it
/// end with that version's mismatch error.
pub proof fn lemma_drift_detected(s: Seq<Seeds>, a: Seq<AppliedSeeds>)
    ensures
        spec_run_plan(s, a, 0).1 is Ok <==> (forall|j: int|
            0 <= j < s.len() && s[j].seeds_type != SeedsType::ReversibleDown
                && spec_lookup(a, #[trigger] s[j].version) is Some
                ==> spec_lookup(a, s[j].version)->Some_0.checksum@ == s[j].checksum@),
        spec_run_plan(s, a, 0).1 is Err ==> (spec_run_plan(s, a, 0).1 matches Err(e)
            && (e matches SeedsError::VersionMismatch(v) && exists|j: int|
            0 <= j < s.len() && s[j].seeds_type != SeedsType::ReversibleDown
                && #[trigger] s[j].version == v && spec_lookup(a, v) is Some
                && spec_lookup(a, v)->Some_0.checksum@ != s[j].checksum@)),
{
    lemma_run_plan_shape(s, a, 0);
    if spec_run_plan(s, a, 0).1 is Err {
        let j = choose|j: int|
            0 <= j < s.len() && s[j].seeds_type != SeedsType::ReversibleDown
                && spec_lookup(a, #[trigger] s[j].version) is Some
                && spec_lookup(a, s[j].version)->Some_0.checksum@ != s[j].checksum@
                && spec_run_plan(s, a, 0).1 == Err::<(), SeedsError>(
                SeedsError::VersionMismatch(s[j].version),
            );
        assert(s[j].version == spec_run_plan(s, a, 0).1->Err_0->VersionMismatch_0);
    }
}

/// Revert single-step: the revert target, when there is one, is the
/// reverse-half script with the highest version among those whose version
/// is recorded as applied, and there is none exactly when no reverse half
/// is applied; a revert therefore undoes at most that one version.
pub proof fn lemma_revert_single_step(s: Seq<Seeds>, a: Seq<AppliedSeeds>)
    requires
        sorted_by_version(s),
    ensures
        match spec_revert_index(s, a, s.len() as int) {
            Some(k) => 0 <= k < s.len() && s[k].seeds_type == SeedsType::ReversibleDown
                && spec_lookup(a, s[k].version) is Some && (forall|j: int|
                0 <= j < s.len() && s[j].seeds_type == SeedsType::ReversibleDown
                    && spec_lookup(a, #[trigger] s[j].version) is Some
                    ==> s[j].version <= s[k].version),
            None => forall|j: int|
                0 <= j < s.len() && s[j].seeds_type == SeedsType::ReversibleDown
                    ==> spec_lookup(a, #[trigger] s[j].version) is None,
        },
{
    lemma_revert_index_props(s, a, s.len() as int);
    if spec_revert_index(s, a, s.len() as int) is Some {
        let k = spec_revert_index(s, a, s.len() as int)->Some_0;
        assert forall|j: int|
            0 <= j < s.len() && s[j].seeds_type == SeedsType::ReversibleDown
                && spec_lookup(a, #[trigger] s[j].version) is Some
            implies s[j].version <= s[k].version by {
            if j > k {
                assert(spec_lookup(a, s[j].version) is None);
            }
        }
    }
}

/// The revert scan below `i` finds the last applicable position, and finds
/// none exactly when none is applicable.
proof fn lemma_revert_index_props(s: Seq<Seeds>, a: Seq<AppliedSeeds>, i: int)
    requires
        i <= s.len(),
    ensures
        match spec_revert_index(s, a, i) {
            Some(k) => 0 <= k < i && s[k].seeds_type == SeedsType::ReversibleDown
                && spec_lookup(a, s[k].version) is Some && (forall|j: int|
                k < j < i && s[j].seeds_type == SeedsType::ReversibleDown
                    ==> spec_lookup(a, #[trigger] s[j].version) is None),
            None => forall|j: int|
                0 <= j < i && s[j].seeds_type == SeedsType::ReversibleDown
                    ==> spec_lookup(a, #[trigger] s[j].version) is None,
        },
    decreases i,
{
    if i <= 0 {
    } else if s[i - 1].seeds_type == SeedsType::ReversibleDown
        && spec_lookup(a, s[i - 1].version) is Some {
    } else {
        lemma_revert_index_props(s, a, i - 1);
    }
}

/// Below `j`, no script repeats an earlier `(version, kind)` pair once the
/// duplicate scan from `j` reports nothing.
proof fn lemma_first_dup_none(s: Seq<Seeds>, j: int)
    requires
        0 <= j,
        spec_first_dup(s, j) is None,
    ensures
        forall|k: int| j <= k < s.len() ==> !dup_at(s, k),
    decreases s.len() - j,
{
    if j >= s.len() {
    } else {
        lemma_first_dup_none(s, j + 1);
    }
}

/// A registry that passes validation has no two forward scripts with one
/// version: the side condition under which a clean run is idempotent.
pub proof fn lemma_validate_distinct_versions(s: Seq<Seeds>)
    requires
        !mixed_kinds(s),
        spec_first_dup(s, 0) is None,
    ensures
        forall|i1: int, i2: int| 0 <= i1 < i2 < s.len()
            && s[i1].seeds_type != SeedsType::ReversibleDown
            && s[i2].seeds_type != SeedsType::ReversibleDown
            ==> s[i1].version != s[i2].version,
{
    lemma_first_dup_none(s, 0);
    assert forall|i1: int, i2: int|
        0 <= i1 < i2 < s.len() && s[i1].seeds_type != SeedsType::ReversibleDown
            && s[i2].seeds_type != SeedsType::ReversibleDown
        implies s[i1].version != s[i2].version by {
        if s[i1].version == s[i2].version {
            if s[i1].seeds_type == s[i2].seeds_type {
                assert(dup_at(s, i2));
            } else {
                assert(has_kind(s, SeedsType::Simple));
                assert(has_kind(s, SeedsType::ReversibleUp));
            }
        }
    }
}

/// Idempotence: a run that was planned cleanly, once its planned scripts
/// are recorded as successfully applied with their current checksums,
/// leaves records against which the next planned run applies nothing and
/// ends cleanly — and which are neither dirty nor missing a version.
///
/// The registry side condition — no two forward scripts share a version —
/// holds of every registry that passes validation.
pub proof fn lemma_run_idempotent(s: Seq<Seeds>, a: Seq<AppliedSeeds>, recs: Seq<AppliedSeeds>)
    requires
        forall|i1: int, i2: int| 0 <= i1 < i2 < s.len()
            && s[i1].seeds_type != SeedsType::ReversibleDown
            && s[i2].seeds_type != SeedsType::ReversibleDown
            ==> s[i1].version != s[i2].version,
        spec_dirty_version(a) is None,
        spec_first_missing(s, a) is None,
        spec_run_plan(s, a, 0).1 is Ok,
        recs.len() == spec_run_plan(s, a, 0).0.len(),
        forall|k: int| 0 <= k < recs.len()
            ==> #[trigger] recs[k].version == s[spec_run_plan(s, a, 0).0[k]].version
                && recs[k].checksum@ == s[spec_run_plan(s, a, 0).0[k]].checksum@
                && recs[k].success,
    ensures
        spec_dirty_version(a + recs) is None,
        spec_first_missing(s, a + recs) is None,
        spec_run_plan(s, a + recs, 0).0 == Seq::<int>::empty(),
        spec_run_plan(s, a + recs, 0).1 is Ok,
{
    let acts = spec_run_plan(s, a, 0).0;
    lemma_run_plan_shape(s, a, 0);

    lemma_dirty_version_spec(recs);
    lemma_dirty_append(a, recs);

    lemma_first_missing_spec(s, recs);
    assert forall|k: int| 0 <= k < recs.len() implies contains_version(
        s,
        recs[k].version,
    ) by {
        assert(s[acts[k]].version == recs[k].version);
    }
    lemma_first_missing_append(s, a, recs);

    // Every forward script is now recorded with a matching checksum.
    assert forall|j: int|
        0 <= j < s.len() && s[j].seeds_type != SeedsType::ReversibleDown
        implies spec_lookup(a + recs, #[trigger] s[j].version) is Some
            && spec_lookup(a + recs, s[j].version)->Some_0.checksum@ == s[j].checksum@ by {
        lemma_lookup_append(a, recs, s[j].version);
        if spec_lookup(a, s[j].version) is Some {
        } else {
            assert(acts.contains(j));
            let k = choose|k: int| 0 <= k < acts.len() && acts[k] == j;
            assert(recs[k].version == s[j].version);
            lemma_lookup_spec(recs, s[j].version);
            assert(spec_lookup(recs, s[j].version) is Some);
            let rec = spec_lookup(recs, s[j].version)->Some_0;
            let kw = choose|kw: int| 0 <= kw < recs.len() && recs[kw] == rec;
            assert(recs[kw].version == s[j].version);
            assert(s[acts[kw]].version == s[j].version);
            assert(acts[kw] == j) by {
                if acts[kw] != j {
                    assert(s[acts[kw]].seeds_type != SeedsType::ReversibleDown);
                }
            }
            assert(rec.checksum@ == s[j].checksum@);
        }
    }

    // Hence the next planned run has nothing pending and no mismatch.
    lemma_run_plan_shape(s, a + recs, 0);
    let next = spec_run_plan(s, a + recs, 0);
    if next.1 is Err {
        let j = choose|j: int|
            0 <= j < s.len() && s[j].seeds_type != SeedsType::ReversibleDown
                && spec_lookup(a + recs, #[trigger] s[j].version) is Some
                && spec_lookup(a + recs, s[j].version)->Some_0.checksum@ != s[j].checksum@
                && next.1 == Err::<(), SeedsError>(
                SeedsError::VersionMismatch(s[j].version),
            );
        assert(false);
    }
    if next.0.len() > 0 {
        assert(0 <= next.0[0] < s.len()
            && s[next.0[0]].seeds_type != SeedsType::ReversibleDown
            && spec_lookup(a + recs, s[next.0[0]].version) is None);
        assert(false);
    }
    assert(next.0 =~= Seq::<int>::empty());
}

} // verus!
