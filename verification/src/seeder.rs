use vstd::prelude::*;

use crate::error::SeedsError;
use crate::seeds::{checksum_eq, AppliedSeeds, Seeds};
use crate::seeds_type::SeedsType;

verus! {

/// Versions never decrease along the sequence.
pub open spec fn sorted_by_version(s: Seq<Seeds>) -> bool {
    forall|i: int, j: int| 0 <= i < j < s.len() ==> s[i].version <= s[j].version
}

/// Some script in `s` carries version `v`.
pub open spec fn contains_version(s: Seq<Seeds>, v: i64) -> bool {
    exists|i: int| 0 <= i < s.len() && s[i].version == v
}

/// The first applied record for version `v`, if any.
pub open spec fn spec_lookup(a: Seq<AppliedSeeds>, v: i64) -> Option<AppliedSeeds>
    decreases a.len(),
{
    if a.len() == 0 {
        None
    } else if a[0].version == v {
        Some(a[0])
    } else {
        spec_lookup(a.drop_first(), v)
    }
}

/// The version of the first record that was left partially applied, if any.
pub open spec fn spec_dirty_version(a: Seq<AppliedSeeds>) -> Option<i64>
    decreases a.len(),
{
    if a.len() == 0 {
        None
    } else if !a[0].success {
        Some(a[0].version)
    } else {
        spec_dirty_version(a.drop_first())
    }
}

/// The version of the first applied record that no script in `s` carries,
/// if any.
pub open spec fn spec_first_missing(s: Seq<Seeds>, a: Seq<AppliedSeeds>) -> Option<i64>
    decreases a.len(),
{
    if a.len() == 0 {
        None
    } else if !contains_version(s, a[0].version) {
        Some(a[0].version)
    } else {
        spec_first_missing(s, a.drop_first())
    }
}

/// The version of the first record with `success == false`, scanning the
/// records in order.
pub fn dirty_version(applied: &Vec<AppliedSeeds>) -> (r: Option<i64>)
    ensures
        r == spec_dirty_version(applied@),
{
    let mut i: usize = 0;
    assert(applied@.skip(0) =~= applied@);
    while i < applied.len()
        invariant
            i <= applied@.len(),
            spec_dirty_version(applied@) == spec_dirty_version(applied@.skip(i as int)),
        decreases applied@.len() - i,
    {
        assert(applied@.skip(i as int)[0] == applied@[i as int]);
        if !applied[i].success {
            return Some(applied[i].version);
        }
        assert(applied@.skip(i as int).drop_first() =~= applied@.skip(i as int + 1));
        i = i + 1;
    }
    None
}

/// Linear search for the first record with the given version.
pub fn find_applied(applied: &Vec<AppliedSeeds>, version: i64) -> (r: Option<usize>)
    ensures
        match r {
            Some(i) => i < applied@.len() && applied@[i as int].version == version
                && spec_lookup(applied@, version) == Some(applied@[i as int]),
            None => spec_lookup(applied@, version) is None,
        },
{
    let mut i: usize = 0;
    assert(applied@.skip(0) =~= applied@);
    while i < applied.len()
        invariant
            i <= applied@.len(),
            spec_lookup(applied@, version)
                == spec_lookup(applied@.skip(i as int), version),
        decreases applied@.len() - i,
    {
        assert(applied@.skip(i as int)[0] == applied@[i as int]);
        if applied[i].version == version {
            return Some(i);
        }
        assert(applied@.skip(i as int).drop_first() =~= applied@.skip(i as int + 1));
        i = i + 1;
    }
    None
}

/// Whether the scripts are already in non-decreasing version order, as the
/// registry requires of its input.
pub fn is_sorted_by_version(seeds: &Vec<Seeds>) -> (r: bool)
    ensures
        r == sorted_by_version(seeds@),
{
    let mut i: usize = 1;
    while i < seeds.len()
        invariant
            1 <= i,
            i <= seeds@.len() || seeds@.len() < 1,
            forall|a: int, b: int| 0 <= a < b < i && b < seeds@.len()
                ==> seeds@[a].version <= seeds@[b].version,
        decreases seeds@.len() - i,
    {
        if seeds[i - 1].version > seeds[i].version {
            return false;
        }
        assert forall|a: int, b: int|
            0 <= a < b < i + 1 && b < seeds@.len()
            implies seeds@[a].version <= seeds@[b].version by {
            if b == i && a < i - 1 {
                assert(seeds@[a].version <= seeds@[i - 1].version);
            }
        }
        i = i + 1;
    }
    true
}

/// Inserting an element anywhere adds exactly that element to the
/// sequence's multiset.
proof fn lemma_insert_to_multiset(s: Seq<Seeds>, j: int, x: Seeds)
    requires
        0 <= j <= s.len(),
    ensures
        s.insert(j, x).to_multiset() == s.to_multiset().insert(x),
{
    broadcast use vstd::seq_lib::group_to_multiset_ensures;

    let l = s.subrange(0, j);
    let r = s.subrange(j, s.len() as int);
    assert(s =~= l + r);
    assert(s.insert(j, x) =~= l.push(x) + r);
    vstd::seq_lib::lemma_multiset_commutative(l, r);
    vstd::seq_lib::lemma_multiset_commutative(l.push(x), r);
    assert(l.push(x).to_multiset() =~= l.to_multiset().insert(x));
    assert(l.to_multiset().insert(x).add(r.to_multiset())
        =~= l.to_multiset().add(r.to_multiset()).insert(x));
}

/// Sorts resolved scripts into non-decreasing version order by insertion,
/// keeping the relative order of scripts with equal versions. The registry
/// requires its input ordered; a script source that does not already order
/// what it yields goes through this first.
pub fn sort_by_version(seeds: &mut Vec<Seeds>)
    ensures
        sorted_by_version(final(seeds)@),
        final(seeds)@.to_multiset() == old(seeds)@.to_multiset(),
        final(seeds)@.len() == old(seeds)@.len(),
{
    broadcast use vstd::seq_lib::group_to_multiset_ensures;

    let n: usize = seeds.len();
    let mut i: usize = 1;
    while i < n
        invariant
            n == seeds@.len(),
            1 <= i,
            seeds@.to_multiset() == old(seeds)@.to_multiset(),
            forall|a: int, b: int| 0 <= a < b < i && b < n
                ==> seeds@[a].version <= seeds@[b].version,
        decreases n - i,
    {
        let mut j: usize = i;
        while j > 0 && seeds[j - 1].version > seeds[i].version
            invariant
                j <= i < n,
                n == seeds@.len(),
                forall|b: int| j <= b < i ==> seeds@[b].version
                    > seeds@[i as int].version,
            decreases j,
        {
            j = j - 1;
        }
        if j < i {
            let ghost orig = seeds@;
            let x = seeds.remove(i);
            let ghost mid = seeds@;
            seeds.insert(j, x);
            proof {
                lemma_insert_to_multiset(mid, j as int, x);
                orig.to_multiset_ensures();
                assert(orig.contains(orig[i as int]));
                assert(mid =~= orig.remove(i as int));
                assert(mid.to_multiset() =~= orig.to_multiset().remove(orig[i as int]));
                assert(orig.to_multiset().count(orig[i as int]) > 0);
                assert(orig.to_multiset().remove(x).insert(x) =~= orig.to_multiset());
                assert(seeds@.to_multiset() =~= orig.to_multiset());
                assert(forall|b: int| 0 <= b < j ==> seeds@[b] == orig[b]);
                assert(seeds@[j as int] == orig[i as int]);
                assert(forall|b: int| j < b <= i ==> seeds@[b] == orig[b - 1]);
                assert(forall|b: int| i < b < n ==> seeds@[b] == orig[b]);
                assert forall|a: int, b: int|
                    0 <= a < b < i + 1 && b < n
                    implies seeds@[a].version <= seeds@[b].version by {
                    if b == j {
                        assert(orig[a].version <= orig[j as int - 1].version);
                    } else if a == j {
                        assert(orig[b - 1].version > orig[i as int].version);
                    }
                }
            }
        }
        i = i + 1;
    }
}

/// Linear scan for a script with the given version.
pub fn registry_contains(seeds: &Vec<Seeds>, version: i64) -> (r: bool)
    ensures
        r == contains_version(seeds@, version),
{
    let mut i: usize = 0;
    while i < seeds.len()
        invariant
            i <= seeds@.len(),
            forall|k: int| 0 <= k < i ==> seeds@[k].version != version,
        decreases seeds@.len() - i,
    {
        if seeds[i].version == version {
            return true;
        }
        i = i + 1;
    }
    false
}

/// Some script of kind `t` is present.
pub open spec fn has_kind(s: Seq<Seeds>, t: SeedsType) -> bool {
    exists|i: int| 0 <= i < s.len() && s[i].seeds_type == t
}

/// Simple and reversible scripts are both present.
pub open spec fn mixed_kinds(s: Seq<Seeds>) -> bool {
    has_kind(s, SeedsType::Simple) && (has_kind(s, SeedsType::ReversibleUp)
        || has_kind(s, SeedsType::ReversibleDown))
}

/// Some earlier script shares version and kind with `s[j]`.
pub open spec fn dup_at(s: Seq<Seeds>, j: int) -> bool {
    exists|i: int| 0 <= i < j && s[i].version == s[j].version
        && s[i].seeds_type == s[j].seeds_type
}

/// The version of the first script that repeats an earlier script's
/// `(version, kind)` pair, scanning from position `j` on.
pub open spec fn spec_first_dup(s: Seq<Seeds>, j: int) -> Option<i64>
    decreases s.len() - j,
{
    if j >= s.len() {
        None
    } else if dup_at(s, j) {
        Some(s[j].version)
    } else {
        spec_first_dup(s, j + 1)
    }
}

/// The immutable, version-sorted registry of resolved scripts for one run,
/// together with the missing-version policy.
#[derive(Debug, Clone)]
pub struct Seeder {
    seeds: Vec<Seeds>,
    ignore_missing: bool,
}

impl View for Seeder {
    type V = Seq<Seeds>;

    closed spec fn view(&self) -> Seq<Seeds> {
        self.seeds@
    }
}

impl Seeder {
    /// Applied versions missing from the registry are tolerated when true.
    pub closed spec fn spec_ignore_missing(&self) -> bool {
        self.ignore_missing
    }

    /// Every registry holds its scripts in non-decreasing version order.
    pub open spec fn wf(&self) -> bool {
        sorted_by_version(self@)
    }

    /// Builds a registry from the resolved scripts, which the script source
    /// hands over already ordered by version.
    pub fn new(seeds: Vec<Seeds>) -> (r: Self)
        requires
            sorted_by_version(seeds@),
        ensures
            r@ == seeds@,
            !r.spec_ignore_missing(),
            r.wf(),
    {
        Seeder { seeds, ignore_missing: false }
    }

    /// Chooses whether applied versions that are missing from the resolved
    /// scripts are tolerated or fail the run.
    pub fn set_ignore_missing(&mut self, ignore_missing: bool)
        ensures
            final(self)@ == old(self)@,
            final(self).spec_ignore_missing() == ignore_missing,
    {
        self.ignore_missing = ignore_missing;
    }

    /// All known scripts, in non-decreasing version order.
    pub fn iter(&self) -> (r: &Vec<Seeds>)
        ensures
            r@ == self@,
            self.wf() ==> sorted_by_version(r@),
    {
        &self.seeds
    }

    /// The number of known scripts.
    pub fn len(&self) -> (r: usize)
        ensures
            r == self@.len(),
    {
        self.seeds.len()
    }

    /// Rejects a registry that mixes simple with reversible scripts, or that
    /// repeats a `(version, kind)` pair.
    pub fn validate(&self) -> (r: Result<(), SeedsError>)
        ensures
            r == if mixed_kinds(self@) {
                Err::<(), SeedsError>(SeedsError::InvalidMixReversibleAndSimple)
            } else {
                match spec_first_dup(self@, 0) {
                    Some(v) => Err::<(), SeedsError>(SeedsError::DuplicateVersion(v)),
                    None => Ok::<(), SeedsError>(()),
                }
            },
    {
        let n: usize = self.seeds.len();
        let mut has_simple = false;
        let mut has_reversible = false;
        let mut i: usize = 0;
        while i < n
            invariant
                n == self@.len(),
                i <= n,
                has_simple == (exists|k: int| 0 <= k < i
                    && self@[k].seeds_type == SeedsType::Simple),
                has_reversible == (exists|k: int| 0 <= k < i
                    && (self@[k].seeds_type == SeedsType::ReversibleUp
                        || self@[k].seeds_type == SeedsType::ReversibleDown)),
            decreases n - i,
        {
            if !self.seeds[i].seeds_type.is_reversible() {
                has_simple = true;
                assert(self@[i as int].seeds_type == SeedsType::Simple);
            } else {
                has_reversible = true;
            }
            i = i + 1;
        }
        if has_simple && has_reversible {
            return Err(SeedsError::InvalidMixReversibleAndSimple);
        }
        assert(!mixed_kinds(self@));
        let mut j: usize = 0;
        while j < n
            invariant
                n == self@.len(),
                j <= n,
                !mixed_kinds(self@),
                spec_first_dup(self@, 0) == spec_first_dup(self@, j as int),
                forall|k: int| 0 <= k < j ==> !dup_at(self@, k),
            decreases n - j,
        {
            let mut i2: usize = 0;
            while i2 < j
                invariant
                    n == self@.len(),
                    j < n,
                    i2 <= j,
                    !mixed_kinds(self@),
                    spec_first_dup(self@, 0) == spec_first_dup(self@, j as int),
                    forall|k: int| 0 <= k < i2 ==> !(self@[k].version == self@[j as int].version
                        && self@[k].seeds_type == self@[j as int].seeds_type),
                decreases j - i2,
            {
                if self.seeds[i2].version == self.seeds[j].version
                    && self.seeds[i2].seeds_type == self.seeds[j].seeds_type {
                    assert(dup_at(self@, j as int));
                    return Err(SeedsError::DuplicateVersion(self.seeds[j].version));
                }
                i2 = i2 + 1;
            }
            assert(!dup_at(self@, j as int));
            j = j + 1;
        }
        Ok(())
    }
}

/// What a forward run does once the dirty and missing-version checks have
/// passed, considering scripts from position `i` on: the registry positions
/// of the scripts to apply, in order, and the terminal outcome. Reverse
/// halves are skipped; a recorded version whose checksum still matches is
/// kept as is; a changed checksum halts the run, leaving the scripts
/// collected so far as the ones applied before the halt; an unrecorded
/// version is applied.
pub open spec fn spec_run_plan(s: Seq<Seeds>, a: Seq<AppliedSeeds>, i: int) -> (Seq<int>, Result<
    (),
    SeedsError,
>)
    decreases s.len() - i,
{
    if i < 0 || i >= s.len() {
        (Seq::<int>::empty(), Ok::<(), SeedsError>(()))
    } else if s[i].seeds_type == SeedsType::ReversibleDown {
        spec_run_plan(s, a, i + 1)
    } else {
        match spec_lookup(a, s[i].version) {
            Some(rec) => if rec.checksum@ == s[i].checksum@ {
                spec_run_plan(s, a, i + 1)
            } else {
                (Seq::<int>::empty(), Err::<(), SeedsError>(
                    SeedsError::VersionMismatch(s[i].version),
                ))
            },
            None => {
                let rest = spec_run_plan(s, a, i + 1);
                (seq![i] + rest.0, rest.1)
            },
        }
    }
}

/// The registry position of the script a revert undoes, scanning positions
/// below `i` from the top: the last reverse half whose version has an
/// applied record.
pub open spec fn spec_revert_index(s: Seq<Seeds>, a: Seq<AppliedSeeds>, i: int) -> Option<int>
    decreases i,
{
    if i <= 0 || i > s.len() {
        None
    } else if s[i - 1].seeds_type == SeedsType::ReversibleDown
        && spec_lookup(a, s[i - 1].version) is Some {
        Some(i - 1)
    } else {
        spec_revert_index(s, a, i - 1)
    }
}

/// The outcome of a forward run planned against one snapshot of the
/// tracking table: which scripts to apply, in registry order, and whether
/// the run ends cleanly or with which fatal error.
pub struct RunPlan {
    /// Registry positions of the scripts to apply, strictly ascending.
    pub applies: Vec<usize>,
    /// `Ok` for a clean run; otherwise the fatal error the run ends with.
    pub outcome: Result<(), SeedsError>,
}

impl Seeder {
    /// Plans a forward run against a snapshot of the tracking table.
    ///
    /// A dirty record blocks everything; then, unless tolerated, an applied
    /// version missing from the registry fails the run; otherwise the
    /// scripts are walked in version order as [`spec_run_plan`] states.
    pub fn run_plan(&self, applied: &Vec<AppliedSeeds>) -> (r: RunPlan)
        ensures
            forall|k: int| 0 <= k < r.applies@.len() ==> (r.applies@[k] as int) < self@.len(),
            forall|k1: int, k2: int| 0 <= k1 < k2 < r.applies@.len()
                ==> r.applies@[k1] < r.applies@[k2],
            match spec_dirty_version(applied@) {
                Some(v) => r.applies@.len() == 0 && r.outcome == Err::<(), SeedsError>(
                    SeedsError::Dirty(v),
                ),
                None => match (if self.spec_ignore_missing() {
                    None
                } else {
                    spec_first_missing(self@, applied@)
                }) {
                    Some(v) => r.applies@.len() == 0 && r.outcome == Err::<(), SeedsError>(
                        SeedsError::VersionMissing(v),
                    ),
                    None => r.applies@.map_values(|u: usize| u as int)
                        == spec_run_plan(self@, applied@, 0).0
                        && r.outcome == spec_run_plan(self@, applied@, 0).1,
                },
            },
    {
        let mut applies: Vec<usize> = Vec::new();
        if let Some(v) = dirty_version(applied) {
            return RunPlan { applies, outcome: Err(SeedsError::Dirty(v)) };
        }
        if let Err(e) = validate_applied_seeds(applied, self) {
            return RunPlan { applies, outcome: Err(e) };
        }
        let n: usize = self.seeds.len();
        let mut i: usize = 0;
        assert(applies@.map_values(|u: usize| u as int) =~= Seq::<int>::empty());
        while i < n
            invariant
                n == self@.len(),
                i <= n,
                spec_dirty_version(applied@) is None,
                self.spec_ignore_missing() || spec_first_missing(self@, applied@) is None,
                spec_run_plan(self@, applied@, 0).0 == applies@.map_values(|u: usize| u as int)
                    + spec_run_plan(self@, applied@, i as int).0,
                spec_run_plan(self@, applied@, 0).1
                    == spec_run_plan(self@, applied@, i as int).1,
                forall|k: int| 0 <= k < applies@.len() ==> (applies@[k] as int) < i,
                forall|k1: int, k2: int| 0 <= k1 < k2 < applies@.len()
                    ==> applies@[k1] < applies@[k2],
            decreases n - i,
        {
            let ghost s = self@;
            let ghost a = applied@;
            if self.seeds[i].seeds_type.is_down_seeds() {
                assert(spec_run_plan(s, a, i as int) == spec_run_plan(s, a, i as int + 1));
            } else {
                match find_applied(applied, self.seeds[i].version) {
                    Some(idx) => {
                        if !checksum_eq(&applied[idx].checksum, &self.seeds[i].checksum) {
                            assert(spec_run_plan(s, a, i as int).0 =~= Seq::<int>::empty());
                            assert(spec_run_plan(s, a, 0).0
                                =~= applies@.map_values(|u: usize| u as int));
                            return RunPlan {
                                applies,
                                outcome: Err(SeedsError::VersionMismatch(self.seeds[i].version)),
                            };
                        }
                        assert(spec_run_plan(s, a, i as int)
                            == spec_run_plan(s, a, i as int + 1));
                    },
                    None => {
                        let ghost before = applies@;
                        applies.push(i);
                        assert(applies@.map_values(|u: usize| u as int)
                            =~= before.map_values(|u: usize| u as int).push(i as int));
                        assert(spec_run_plan(s, a, i as int).0
                            == seq![i as int] + spec_run_plan(s, a, i as int + 1).0);
                        assert(spec_run_plan(s, a, 0).0 =~= applies@.map_values(
                            |u: usize| u as int,
                        ) + spec_run_plan(s, a, i as int + 1).0);
                    },
                }
            }
            i = i + 1;
        }
        assert(spec_run_plan(self@, applied@, n as int).0 =~= Seq::<int>::empty());
        assert(spec_run_plan(self@, applied@, 0).0
            =~= applies@.map_values(|u: usize| u as int));
        RunPlan { applies, outcome: Ok(()) }
    }

    /// Plans a revert against a snapshot of the tracking table.
    ///
    /// After the same dirty and missing-version checks as a forward run, at
    /// most one script is chosen: the registry position of the last reverse
    /// half whose version is applied, or `None` when nothing can be
    /// reverted (which is not an error).
    pub fn revert_plan(&self, applied: &Vec<AppliedSeeds>) -> (r: Result<
        Option<usize>,
        SeedsError,
    >)
        ensures
            match spec_dirty_version(applied@) {
                Some(v) => r == Err::<Option<usize>, SeedsError>(SeedsError::Dirty(v)),
                None => match (if self.spec_ignore_missing() {
                    None
                } else {
                    spec_first_missing(self@, applied@)
                }) {
                    Some(v) => r == Err::<Option<usize>, SeedsError>(
                        SeedsError::VersionMissing(v),
                    ),
                    None => match spec_revert_index(self@, applied@, self@.len() as int) {
                        Some(k) => r matches Ok(Some(u)) && u as int == k,
                        None => r == Ok::<Option<usize>, SeedsError>(None),
                    },
                },
            },
    {
        if let Some(v) = dirty_version(applied) {
            return Err(SeedsError::Dirty(v));
        }
        if let Err(e) = validate_applied_seeds(applied, self) {
            return Err(e);
        }
        let n: usize = self.seeds.len();
        let mut i: usize = n;
        while i > 0
            invariant
                n == self@.len(),
                i <= n,
                spec_dirty_version(applied@) is None,
                self.spec_ignore_missing() || spec_first_missing(self@, applied@) is None,
                spec_revert_index(self@, applied@, n as int)
                    == spec_revert_index(self@, applied@, i as int),
            decreases i,
        {
            if self.seeds[i - 1].seeds_type.is_down_seeds() {
                if let Some(_idx) = find_applied(applied, self.seeds[i - 1].version) {
                    return Ok(Some(i - 1));
                }
            }
            i = i - 1;
        }
        Ok(None)
    }

    /// Pairs each script, by registry position, with whether its version is
    /// recorded as applied: the read-only status listing.
    pub fn status(&self, applied: &Vec<AppliedSeeds>) -> (r: Vec<bool>)
        ensures
            r@.len() == self@.len(),
            forall|i: int| 0 <= i < self@.len() ==> r@[i] == (spec_lookup(
                applied@,
                self@[i].version,
            ) is Some),
    {
        let mut r: Vec<bool> = Vec::new();
        let mut i: usize = 0;
        while i < self.seeds.len()
            invariant
                i <= self@.len(),
                r@.len() == i,
                forall|k: int| 0 <= k < i ==> r@[k] == (spec_lookup(
                    applied@,
                    self@[k].version,
                ) is Some),
            decreases self@.len() - i,
        {
            match find_applied(applied, self.seeds[i].version) {
                Some(_) => r.push(true),
                None => r.push(false),
            }
            i = i + 1;
        }
        r
    }
}

/// Checks that every applied record's version is still present among the
/// resolved scripts; with `ignore_missing` set, orphan records are
/// disregarded.
pub fn validate_applied_seeds(applied_seeds: &Vec<AppliedSeeds>, seeder: &Seeder) -> (r: Result<
    (),
    SeedsError,
>)
    ensures
        r == if seeder.spec_ignore_missing() {
            Ok::<(), SeedsError>(())
        } else {
            match spec_first_missing(seeder@, applied_seeds@) {
                Some(v) => Err::<(), SeedsError>(SeedsError::VersionMissing(v)),
                None => Ok::<(), SeedsError>(()),
            }
        },
{
    if seeder.ignore_missing {
        return Ok(());
    }
    let mut i: usize = 0;
    assert(applied_seeds@.skip(0) =~= applied_seeds@);
    while i < applied_seeds.len()
        invariant
            i <= applied_seeds@.len(),
            !seeder.spec_ignore_missing(),
            spec_first_missing(seeder@, applied_seeds@)
                == spec_first_missing(seeder@, applied_seeds@.skip(i as int)),
        decreases applied_seeds@.len() - i,
    {
        assert(applied_seeds@.skip(i as int)[0] == applied_seeds@[i as int]);
        if !registry_contains(seeder.iter(), applied_seeds[i].version) {
            return Err(SeedsError::VersionMissing(applied_seeds[i].version));
        }
        assert(applied_seeds@.skip(i as int).drop_first()
            =~= applied_seeds@.skip(i as int + 1));
        i = i + 1;
    }
    Ok(())
}

} // verus!
