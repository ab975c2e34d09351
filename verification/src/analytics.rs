//! Workout analytics: per-workout summaries, progress over time, and weekly
//! training volume with the top muscle group.
//!
//! Every function here is a pure computation over rows already fetched from
//! storage: the caller hands in the workout entries (joined with exercise
//! name and muscle group) and gets plain result records back. The volume of
//! an entry is `sets * reps * weight`, with an absent weight counting as
//! zero; weights are fixed-point hundredths of a unit, so a volume is in
//! hundredths as well. The field widths of
//! [`WorkoutEntryDetailed`](crate::models::WorkoutEntryDetailed) make every
//! total below fit its result type, for inputs of any length.

use vstd::arithmetic::mul::{
    lemma_mul_inequality, lemma_mul_nonnegative, lemma_mul_upper_bound,
};
use vstd::prelude::*;

use crate::models::WorkoutEntryDetailed;
use crate::text::{
    lemma_lex_le_antisymmetric, lemma_lex_le_refl, lemma_lex_le_total, lemma_lex_le_transitive,
    lex_le, str_lex_le,
};

verus! {

/// Per-exercise line of a workout summary.
#[derive(Debug, Clone, PartialEq, Eq)]
pub struct ExerciseSummary {
    pub name: String,
    pub sets: u16,
    pub reps: u16,
    pub weight: u32,
    pub volume: u64,
}

/// Totals of one workout, with the per-exercise breakdown.
#[derive(Debug, Clone, PartialEq, Eq)]
pub struct Summary {
    pub workout_id: i64,
    pub total_sets: u128,
    pub total_reps: u128,
    pub total_volume: u128,
    pub exercises: Vec<ExerciseSummary>,
}

/// One workout together with its entries, as fetched from storage: the input
/// row group of the history-wide computations.
#[derive(Debug, Clone, PartialEq, Eq)]
pub struct WorkoutRecord {
    pub workout_id: i64,
    pub date: String,
    pub entries: Vec<WorkoutEntryDetailed>,
}

/// Totals of one workout within a user's progress history.
#[derive(Debug, Clone, PartialEq, Eq)]
pub struct ProgressPoint {
    pub workout_id: i64,
    pub date: String,
    pub total_sets: u128,
    pub total_reps: u128,
    pub total_volume: u128,
}

/// The weight of an entry, with an absent weight counting as zero.
pub open spec fn entry_weight(e: WorkoutEntryDetailed) -> int {
    match e.weight {
        Some(w) => w as int,
        None => 0,
    }
}

/// The training volume of an entry: `sets * reps * weight`.
pub open spec fn entry_volume(e: WorkoutEntryDetailed) -> int {
    (e.sets as int) * (e.reps as int) * entry_weight(e)
}

/// The largest volume a single entry can have, given the field widths.
pub open spec fn max_entry_volume() -> int {
    0xFFFFint * 0xFFFF * 0xFFFFFFFF
}

/// Sum of the set counts of a row group.
pub open spec fn total_sets_of(s: Seq<WorkoutEntryDetailed>) -> int
    decreases s.len(),
{
    if s.len() == 0 {
        0
    } else {
        total_sets_of(s.drop_last()) + s.last().sets
    }
}

/// Sum of the rep counts of a row group.
pub open spec fn total_reps_of(s: Seq<WorkoutEntryDetailed>) -> int
    decreases s.len(),
{
    if s.len() == 0 {
        0
    } else {
        total_reps_of(s.drop_last()) + s.last().reps
    }
}

/// Sum of the volumes of a row group.
pub open spec fn total_volume_of(s: Seq<WorkoutEntryDetailed>) -> int
    decreases s.len(),
{
    if s.len() == 0 {
        0
    } else {
        total_volume_of(s.drop_last()) + entry_volume(s.last())
    }
}

/// The volume of any entry is between zero and [`max_entry_volume`].
pub proof fn lemma_entry_volume_bounds(e: WorkoutEntryDetailed)
    ensures
        0 <= entry_volume(e) <= max_entry_volume(),
{
    lemma_mul_upper_bound(e.sets as int, 0xFFFF, e.reps as int, 0xFFFF);
    lemma_mul_upper_bound((e.sets as int) * (e.reps as int), 0xFFFFint * 0xFFFF, entry_weight(e), 0xFFFFFFFF);
    lemma_mul_nonnegative(e.sets as int, e.reps as int);
    lemma_mul_nonnegative((e.sets as int) * (e.reps as int), entry_weight(e));
}

/// All three totals are non-negative and grow at most linearly with the
/// number of entries.
pub proof fn lemma_totals_bounds(s: Seq<WorkoutEntryDetailed>)
    ensures
        0 <= total_sets_of(s) <= s.len() * 0xFFFF,
        0 <= total_reps_of(s) <= s.len() * 0xFFFF,
        0 <= total_volume_of(s) <= s.len() * max_entry_volume(),
    decreases s.len(),
{
    if s.len() == 0 {
    } else {
        lemma_totals_bounds(s.drop_last());
        lemma_entry_volume_bounds(s.last());
        assert((s.len() - 1) * 0xFFFF + 0xFFFF == s.len() * 0xFFFF) by (nonlinear_arith);
        assert((s.len() - 1) * max_entry_volume() + max_entry_volume() == s.len() * max_entry_volume())
            by (nonlinear_arith);
    }
}

/// A total over at most `u64::MAX` entries fits in a `u128`.
proof fn lemma_totals_fit(count: int)
    requires
        0 <= count <= 0x1_0000_0000_0000_0000,
    ensures
        count * 0xFFFF <= u128::MAX,
        count * max_entry_volume() <= u128::MAX,
{
    lemma_mul_inequality(count, 0x1_0000_0000_0000_0000, 0xFFFF);
    lemma_mul_inequality(count, 0x1_0000_0000_0000_0000, max_entry_volume());
}

/// One summary line reflects one entry row.
pub open spec fn summary_line_matches(x: ExerciseSummary, e: WorkoutEntryDetailed) -> bool {
    &&& x.name == e.exercise_name
    &&& x.sets == e.sets
    &&& x.reps == e.reps
    &&& x.weight as int == entry_weight(e)
    &&& x.volume as int == entry_volume(e)
}

/// The summary an entry row group must produce.
pub open spec fn summary_matches(r: Summary, workout_id: i64, s: Seq<WorkoutEntryDetailed>) -> bool {
    &&& r.workout_id == workout_id
    &&& r.total_sets as int == total_sets_of(s)
    &&& r.total_reps as int == total_reps_of(s)
    &&& r.total_volume as int == total_volume_of(s)
    &&& r.exercises@.len() == s.len()
    &&& forall|i: int| 0 <= i < s.len() ==> summary_line_matches(#[trigger] r.exercises@[i], s[i])
}

/// The exact volume of one entry.
pub fn entry_volume_exec(e: &WorkoutEntryDetailed) -> (v: u64)
    ensures
        v as int == entry_volume(*e),
{
    let w: u32 = match e.weight {
        Some(w) => w,
        None => 0,
    };
    proof {
        lemma_mul_upper_bound(e.sets as int, 0xFFFF, e.reps as int, 0xFFFF);
        lemma_mul_upper_bound((e.sets as int) * (e.reps as int), 0xFFFFint * 0xFFFF, w as int, 0xFFFFFFFF);
        lemma_mul_nonnegative(e.sets as int, e.reps as int);
    }
    (e.sets as u64) * (e.reps as u64) * (w as u64)
}

/// Workout Summary: totals and the per-exercise breakdown of one workout.
///
/// A workout with no entries yields all-zero totals and an empty breakdown,
/// not an error.
pub fn workout_summary(workout_id: i64, entries: &Vec<WorkoutEntryDetailed>) -> (r: Summary)
    ensures
        summary_matches(r, workout_id, entries@),
{
    let mut total_sets: u128 = 0;
    let mut total_reps: u128 = 0;
    let mut total_volume: u128 = 0;
    let mut exercises: Vec<ExerciseSummary> = Vec::new();
    let n = entries.len();
    let mut i: usize = 0;
    while i < n
        invariant
            i <= n,
            n == entries@.len(),
            total_sets as int == total_sets_of(entries@.take(i as int)),
            total_reps as int == total_reps_of(entries@.take(i as int)),
            total_volume as int == total_volume_of(entries@.take(i as int)),
            exercises@.len() == i,
            forall|k: int| 0 <= k < i ==> summary_line_matches(
                #[trigger] exercises@[k],
                entries@[k],
            ),
        decreases n - i,
    {
        let e = &entries[i];
        let w: u32 = match e.weight {
            Some(w) => w,
            None => 0,
        };
        let v: u64 = entry_volume_exec(e);
        proof {
            assert(entries@.take(i as int + 1).drop_last() =~= entries@.take(i as int));
            assert(entries@.take(i as int + 1).last() == entries@[i as int]);
            lemma_totals_bounds(entries@.take(i as int));
            lemma_entry_volume_bounds(entries@[i as int]);
            lemma_totals_fit(i as int + 1);
            assert((i as int) * 0xFFFF + 0xFFFF == (i as int + 1) * 0xFFFF) by (nonlinear_arith);
            assert((i as int) * max_entry_volume() + max_entry_volume()
                == (i as int + 1) * max_entry_volume()) by (nonlinear_arith);
            lemma_mul_inequality(i as int, i as int + 1, 0xFFFF);
            lemma_mul_inequality(i as int, i as int + 1, max_entry_volume());
        }
        total_sets = total_sets + (e.sets as u128);
        total_reps = total_reps + (e.reps as u128);
        total_volume = total_volume + (v as u128);
        exercises.push(
            ExerciseSummary {
                name: e.exercise_name.clone(),
                sets: e.sets,
                reps: e.reps,
                weight: w,
                volume: v,
            },
        );
        i = i + 1;
    }
    proof {
        assert(entries@.take(n as int) =~= entries@);
    }
    Summary { workout_id, total_sets, total_reps, total_volume, exercises }
}

/// The progress point a workout record must produce.
pub open spec fn progress_point_matches(p: ProgressPoint, w: WorkoutRecord) -> bool {
    &&& p.workout_id == w.workout_id
    &&& p.date == w.date
    &&& p.total_sets as int == total_sets_of(w.entries@)
    &&& p.total_reps as int == total_reps_of(w.entries@)
    &&& p.total_volume as int == total_volume_of(w.entries@)
}

/// User Progress: one totals record per workout, in the order the workouts
/// are handed in (callers fetch them ordered by date ascending).
///
/// A user with no workouts yields an empty list, not an error.
pub fn user_progress(workouts: &Vec<WorkoutRecord>) -> (r: Vec<ProgressPoint>)
    ensures
        r@.len() == workouts@.len(),
        forall|i: int| 0 <= i < workouts@.len() ==> progress_point_matches(
            #[trigger] r@[i],
            workouts@[i],
        ),
{
    let mut points: Vec<ProgressPoint> = Vec::new();
    let n = workouts.len();
    let mut i: usize = 0;
    while i < n
        invariant
            i <= n,
            n == workouts@.len(),
            points@.len() == i,
            forall|k: int| 0 <= k < i ==> progress_point_matches(
                #[trigger] points@[k],
                workouts@[k],
            ),
        decreases n - i,
    {
        let w = &workouts[i];
        let summary = workout_summary(w.workout_id, &w.entries);
        points.push(
            ProgressPoint {
                workout_id: w.workout_id,
                date: w.date.clone(),
                total_sets: summary.total_sets,
                total_reps: summary.total_reps,
                total_volume: summary.total_volume,
            },
        );
        i = i + 1;
    }
    points
}

/// Volume of one muscle group within a row group.
#[derive(Debug, Clone, PartialEq, Eq)]
pub struct MuscleGroupVolume {
    pub group: String,
    pub volume: u128,
}

/// Some entry of the row group has muscle group `g`.
pub open spec fn group_occurs(s: Seq<WorkoutEntryDetailed>, g: Seq<char>) -> bool {
    exists|i: int| 0 <= i < s.len() && s[i].muscle_group@ == g
}

/// The distinct muscle groups of a row group, in order of first occurrence.
pub open spec fn groups_of(s: Seq<WorkoutEntryDetailed>) -> Seq<Seq<char>>
    decreases s.len(),
{
    if s.len() == 0 {
        Seq::empty()
    } else {
        let rest = groups_of(s.drop_last());
        if rest.contains(s.last().muscle_group@) {
            rest
        } else {
            rest.push(s.last().muscle_group@)
        }
    }
}

/// The volume of a row group attributed to muscle group `g`.
pub open spec fn group_volume(s: Seq<WorkoutEntryDetailed>, g: Seq<char>) -> int
    decreases s.len(),
{
    if s.len() == 0 {
        0
    } else {
        group_volume(s.drop_last(), g) + if s.last().muscle_group@ == g {
            entry_volume(s.last())
        } else {
            0
        }
    }
}

/// A muscle group is listed exactly when some entry carries it.
pub proof fn lemma_groups_of_occurs(s: Seq<WorkoutEntryDetailed>, g: Seq<char>)
    ensures
        groups_of(s).contains(g) == group_occurs(s, g),
    decreases s.len(),
{
    if s.len() == 0 {
    } else {
        let rest = groups_of(s.drop_last());
        lemma_groups_of_occurs(s.drop_last(), g);
        if group_occurs(s, g) {
            let i = choose|i: int| 0 <= i < s.len() && s[i].muscle_group@ == g;
            if i < s.len() - 1 {
                assert(s.drop_last()[i] == s[i]);
                assert(group_occurs(s.drop_last(), g));
                let k = choose|k: int| 0 <= k < rest.len() && rest[k] == g;
                assert(groups_of(s)[k] == g);
            } else {
                assert(g == s.last().muscle_group@);
                if rest.contains(g) {
                    let k = choose|k: int| 0 <= k < rest.len() && rest[k] == g;
                    assert(groups_of(s)[k] == g);
                } else {
                    assert(groups_of(s)[rest.len() as int] == g);
                }
            }
            assert(groups_of(s).contains(g));
        }
        if groups_of(s).contains(g) {
            if rest.contains(g) {
                let i = choose|i: int|
                    0 <= i < s.drop_last().len() && s.drop_last()[i].muscle_group@ == g;
                assert(s[i].muscle_group@ == g);
            } else {
                let k = choose|k: int| 0 <= k < groups_of(s).len() && groups_of(s)[k] == g;
                if k < rest.len() {
                    assert(rest[k] == g);
                }
                assert(g == s.last().muscle_group@);
                assert(s[s.len() - 1].muscle_group@ == g);
            }
            assert(group_occurs(s, g));
        }
    }
}

/// The listed muscle groups are distinct.
pub proof fn lemma_groups_of_distinct(s: Seq<WorkoutEntryDetailed>)
    ensures
        forall|k1: int, k2: int|
            0 <= k1 < k2 < groups_of(s).len() ==> groups_of(s)[k1] != groups_of(s)[k2],
    decreases s.len(),
{
    if s.len() > 0 {
        lemma_groups_of_distinct(s.drop_last());
        let rest = groups_of(s.drop_last());
        if !rest.contains(s.last().muscle_group@) {
            assert(forall|k: int| 0 <= k < rest.len() ==> rest[k] != s.last().muscle_group@);
        }
    }
}

/// A muscle group that never occurs accumulates no volume.
pub proof fn lemma_group_volume_zero(s: Seq<WorkoutEntryDetailed>, g: Seq<char>)
    requires
        !group_occurs(s, g),
    ensures
        group_volume(s, g) == 0,
    decreases s.len(),
{
    if s.len() > 0 {
        assert(forall|i: int|
            0 <= i < s.drop_last().len() ==> (#[trigger] s.drop_last()[i]) == s[i]);
        lemma_group_volume_zero(s.drop_last(), g);
        assert(s[s.len() - 1].muscle_group@ != g);
    }
}

/// Per-group volume is a non-negative part of the total volume.
pub proof fn lemma_group_volume_le_total(s: Seq<WorkoutEntryDetailed>, g: Seq<char>)
    ensures
        0 <= group_volume(s, g) <= total_volume_of(s),
    decreases s.len(),
{
    if s.len() > 0 {
        lemma_group_volume_le_total(s.drop_last(), g);
        lemma_entry_volume_bounds(s.last());
    }
}

/// The muscle-group names listed by a table.
pub open spec fn table_groups(mg: Seq<MuscleGroupVolume>) -> Seq<Seq<char>> {
    mg.map_values(|m: MuscleGroupVolume| m.group@)
}

/// The table lists exactly the muscle groups of the row group, in first-
/// occurrence order, each with its aggregated volume.
pub open spec fn groups_table_matches(mg: Seq<MuscleGroupVolume>, s: Seq<WorkoutEntryDetailed>) -> bool {
    &&& table_groups(mg) == groups_of(s)
    &&& forall|k: int|
        0 <= k < mg.len() ==> (#[trigger] mg[k]).volume as int == group_volume(s, mg[k].group@)
}

/// Folds one entry into the muscle-group table.
fn add_entry_to_groups(
    mg: &mut Vec<MuscleGroupVolume>,
    e: &WorkoutEntryDetailed,
    Ghost(s): Ghost<Seq<WorkoutEntryDetailed>>,
)
    requires
        groups_table_matches(old(mg)@, s),
        total_volume_of(s) + entry_volume(*e) <= u128::MAX,
    ensures
        groups_table_matches(final(mg)@, s.push(*e)),
{
    let ghost g = e.muscle_group@;
    let v = entry_volume_exec(e);
    let n = mg.len();
    let mut j: usize = 0;
    while j < n
        invariant
            j <= n,
            n == mg@.len(),
            groups_table_matches(mg@, s),
            total_volume_of(s) + entry_volume(*e) <= u128::MAX,
            v as int == entry_volume(*e),
            g == e.muscle_group@,
            forall|k: int| 0 <= k < j ==> (#[trigger] mg@[k]).group@ != g,
        decreases n - j,
    {
        if mg[j].group == e.muscle_group {
            let ghost table0 = mg@;
            proof {
                assert(s.push(*e).drop_last() =~= s);
                assert(s.push(*e).last() == *e);
                lemma_groups_of_distinct(s);
                lemma_group_volume_le_total(s, g);
                assert(table_groups(table0)[j as int] == table0[j as int].group@);
                assert(groups_of(s)[j as int] == g);
                assert(groups_of(s).contains(g));
            }
            let found = mg.remove(j);
            let updated = MuscleGroupVolume {
                group: found.group,
                volume: found.volume + (v as u128),
            };
            mg.insert(j, updated);
            proof {
                assert(mg@ =~= table0.update(j as int, updated));
                assert(table_groups(mg@) =~~= groups_of(s));
                assert(groups_of(s.push(*e)) == groups_of(s));
                assert forall|k: int| 0 <= k < mg@.len() implies (#[trigger] mg@[k]).volume as int
                    == group_volume(s.push(*e), mg@[k].group@) by {
                    if k != j {
                        assert(table_groups(table0)[k]
                            == table0[k].group@);
                        assert(table0[k].group@ != g);
                        assert(mg@[k] == table0[k]);
                    }
                }
            }
            return;
        }
        j = j + 1;
    }
    proof {
        assert(s.push(*e).drop_last() =~= s);
        assert(s.push(*e).last() == *e);
        // the group is new: it stands nowhere in the table, hence nowhere in s
        assert(!groups_of(s).contains(g)) by {
            if groups_of(s).contains(g) {
                let k = choose|k: int| 0 <= k < groups_of(s).len() && groups_of(s)[k] == g;
                assert(table_groups(mg@)[k] == g);
                assert(mg@[k].group@ == g);
            }
        }
        lemma_groups_of_occurs(s, g);
        lemma_group_volume_zero(s, g);
    }
    let ghost table0 = mg@;
    let fresh = MuscleGroupVolume { group: e.muscle_group.clone(), volume: v as u128 };
    mg.push(fresh);
    proof {
        assert(groups_of(s.push(*e)) == groups_of(s).push(g));
        assert(table_groups(mg@) =~~= groups_of(s).push(g));
        assert forall|k: int| 0 <= k < mg@.len() implies (#[trigger] mg@[k]).volume as int
            == group_volume(s.push(*e), mg@[k].group@) by {
            if k < mg@.len() - 1 {
                assert(table_groups(table0)[k] == table0[k].group@);
                assert(mg@[k] == table0[k]);
                assert(mg@[k].group@ != g);
            }
        }
    }
}

/// `g` is the top muscle group of a row group: it occurs, and every
/// occurring group either has strictly less volume or has equal volume and a
/// name that is lexicographically no smaller. The second disjunct is the
/// documented tie-break: among groups of equal volume the lexicographically
/// least name wins.
pub open spec fn is_top_group(s: Seq<WorkoutEntryDetailed>, g: Seq<char>) -> bool {
    &&& group_occurs(s, g)
    &&& forall|g2: Seq<char>| #[trigger] group_occurs(s, g2) ==> group_volume(s, g2)
        < group_volume(s, g) || (group_volume(s, g2) == group_volume(s, g) && lex_le(g, g2))
}

/// The tie-break is deterministic: a row group has at most one top muscle
/// group.
pub proof fn lemma_top_group_unique(s: Seq<WorkoutEntryDetailed>, g1: Seq<char>, g2: Seq<char>)
    requires
        is_top_group(s, g1),
        is_top_group(s, g2),
    ensures
        g1 == g2,
{
    assert(group_occurs(s, g1));
    assert(group_occurs(s, g2));
    if group_volume(s, g1) == group_volume(s, g2) {
        lemma_lex_le_antisymmetric(g1, g2);
    }
}

/// One table row beats or matches another under the (volume, name) order.
pub open spec fn leads(a: MuscleGroupVolume, b: MuscleGroupVolume) -> bool {
    b.volume < a.volume || (b.volume == a.volume && lex_le(a.group@, b.group@))
}

/// Picks the top muscle group out of a table; `None` only for an empty row
/// group.
fn top_group_of_table(
    mg: &Vec<MuscleGroupVolume>,
    Ghost(s): Ghost<Seq<WorkoutEntryDetailed>>,
) -> (r: Option<String>)
    requires
        groups_table_matches(mg@, s),
    ensures
        match r {
            Some(gname) => is_top_group(s, gname@),
            None => s.len() == 0,
        },
{
    let n = mg.len();
    if n == 0 {
        proof {
            if s.len() > 0 {
                let glast = s[s.len() - 1].muscle_group@;
                assert(group_occurs(s, glast));
                lemma_groups_of_occurs(s, glast);
            }
        }
        return None;
    }
    let mut best: usize = 0;
    let mut j: usize = 1;
    proof {
        lemma_lex_le_refl(mg@[0].group@);
    }
    while j < n
        invariant
            n == mg@.len(),
            best < j <= n,
            groups_table_matches(mg@, s),
            forall|k: int| 0 <= k < j ==> leads(mg@[best as int], #[trigger] mg@[k]),
        decreases n - j,
    {
        let better = mg[j].volume > mg[best].volume || (mg[j].volume == mg[best].volume
            && !str_lex_le(&mg[best].group, &mg[j].group));
        proof {
            lemma_lex_le_total(mg@[best as int].group@, mg@[j as int].group@);
            lemma_lex_le_refl(mg@[j as int].group@);
            if better {
                assert forall|k: int| 0 <= k < j implies leads(mg@[j as int], mg@[k]) by {
                    if mg@[j as int].volume == mg@[best as int].volume
                        && mg@[k].volume == mg@[best as int].volume {
                        lemma_lex_le_transitive(
                            mg@[j as int].group@,
                            mg@[best as int].group@,
                            mg@[k].group@,
                        );
                    }
                }
            }
        }
        if better {
            best = j;
        }
        j = j + 1;
    }
    let ghost gbest = mg@[best as int].group@;
    proof {
        assert(table_groups(mg@)[best as int] == gbest);
        assert(groups_of(s)[best as int] == gbest);
        assert(groups_of(s).contains(gbest));
        lemma_groups_of_occurs(s, gbest);
        assert forall|g2: Seq<char>| #[trigger] group_occurs(s, g2) implies group_volume(s, g2)
            < group_volume(s, gbest) || (group_volume(s, g2) == group_volume(s, gbest)
            && lex_le(gbest, g2)) by {
            lemma_groups_of_occurs(s, g2);
            let k = choose|k: int| 0 <= k < groups_of(s).len() && groups_of(s)[k] == g2;
            assert(table_groups(mg@)[k] == mg@[k].group@);
            assert(mg@[k].group@ == g2);
            assert(leads(mg@[best as int], mg@[k]));
        }
    }
    Some(mg[best].group.clone())
}

/// Name and volume of one performed exercise, for ranking.
#[derive(Debug, Clone, PartialEq, Eq)]
pub struct ExerciseVolume {
    pub name: String,
    pub volume: u64,
}

/// The ranking line an entry row produces.
pub open spec fn exercise_volume_of(e: WorkoutEntryDetailed) -> ExerciseVolume {
    ExerciseVolume { name: e.exercise_name, volume: entry_volume(e) as u64 }
}

/// The ranking lines of a row group, in row order.
pub open spec fn exercise_volumes_of(s: Seq<WorkoutEntryDetailed>) -> Seq<ExerciseVolume> {
    s.map_values(|e: WorkoutEntryDetailed| exercise_volume_of(e))
}

/// Volumes are non-increasing along the sequence.
pub open spec fn sorted_by_volume_desc(s: Seq<ExerciseVolume>) -> bool {
    forall|i: int, j: int|
        0 <= i < j < s.len() ==> (#[trigger] s[i]).volume >= (#[trigger] s[j]).volume
}

/// Sorts ranking lines by volume, largest first (insertion sort).
fn sort_by_volume_desc(v: &mut Vec<ExerciseVolume>)
    ensures
        sorted_by_volume_desc(final(v)@),
        final(v)@.to_multiset() == old(v)@.to_multiset(),
{
    let n = v.len();
    if n <= 1 {
        return;
    }
    let mut i: usize = 1;
    while i < n
        invariant
            1 <= i <= n,
            n == v@.len(),
            v@.to_multiset() == old(v)@.to_multiset(),
            sorted_by_volume_desc(v@.take(i as int)),
        decreases n - i,
    {
        let ghost v0 = v@;
        let x = v.remove(i);
        let mut p: usize = 0;
        while p < i && v[p].volume >= x.volume
            invariant
                p <= i,
                i < n,
                n == v0.len(),
                v@ == v0.remove(i as int),
                x == v0[i as int],
                forall|k: int| 0 <= k < p ==> (#[trigger] v@[k]).volume >= x.volume,
            decreases i - p,
        {
            p = p + 1;
        }
        v.insert(p, x);
        proof {
            broadcast use vstd::seq_lib::group_to_multiset_ensures;

            assert(v0.contains(v0[i as int]));
            assert(v@.to_multiset() =~= v0.to_multiset());
            assert(v0.remove(i as int).take(i as int) =~= v0.take(i as int));
            let t = v@.take(i as int + 1);
            assert(t =~= v0.take(i as int).insert(p as int, x));
            assert forall|a: int, b: int| 0 <= a < b < t.len() implies (#[trigger] t[a]).volume
                >= (#[trigger] t[b]).volume by {
                let prefix = v0.take(i as int);
                if a < p && b < p {
                    assert(t[a] == prefix[a] && t[b] == prefix[b]);
                } else if a < p && b == p {
                    assert(t[a] == v0.remove(i as int)[a]);
                } else if a < p && b > p {
                    assert(t[a] == prefix[a] && t[b] == prefix[b - 1]);
                } else if a == p && b > p {
                    assert(t[b] == prefix[b - 1]);
                    assert(prefix[p as int].volume < x.volume);
                } else {
                    assert(t[a] == prefix[a - 1] && t[b] == prefix[b - 1]);
                }
            }
            assert(sorted_by_volume_desc(v@.take(i as int + 1)));
        }
        i = i + 1;
    }
    proof {
        assert(v@.take(n as int) =~= v@);
    }
}

/// Totals, per-muscle-group volumes and ranked exercises of one workout
/// within a user's progress history.
#[derive(Debug, Clone, PartialEq, Eq)]
pub struct WorkoutProgress {
    pub workout_id: i64,
    pub date: String,
    pub total_sets: u128,
    pub total_reps: u128,
    pub total_volume: u128,
    pub muscle_groups: Vec<MuscleGroupVolume>,
    pub top_exercises: Vec<ExerciseVolume>,
}

/// The progress record a workout must produce: exact totals, the exact
/// muscle-group table, and the ranking lines of its entries ordered by
/// volume descending.
pub open spec fn progress_detail_matches(p: WorkoutProgress, w: WorkoutRecord) -> bool {
    &&& p.workout_id == w.workout_id
    &&& p.date == w.date
    &&& p.total_sets as int == total_sets_of(w.entries@)
    &&& p.total_reps as int == total_reps_of(w.entries@)
    &&& p.total_volume as int == total_volume_of(w.entries@)
    &&& groups_table_matches(p.muscle_groups@, w.entries@)
    &&& sorted_by_volume_desc(p.top_exercises@)
    &&& p.top_exercises@.to_multiset() == exercise_volumes_of(w.entries@).to_multiset()
}

/// Workout Progress: per workout, the totals, the volume of every muscle
/// group trained, and the exercises ranked by volume descending.
pub fn workout_progress(workouts: &Vec<WorkoutRecord>) -> (r: Vec<WorkoutProgress>)
    ensures
        r@.len() == workouts@.len(),
        forall|i: int| 0 <= i < workouts@.len() ==> progress_detail_matches(
            #[trigger] r@[i],
            workouts@[i],
        ),
{
    let mut records: Vec<WorkoutProgress> = Vec::new();
    let n = workouts.len();
    let mut i: usize = 0;
    while i < n
        invariant
            i <= n,
            n == workouts@.len(),
            records@.len() == i,
            forall|k: int| 0 <= k < i ==> progress_detail_matches(
                #[trigger] records@[k],
                workouts@[k],
            ),
        decreases n - i,
    {
        let w = &workouts[i];
        let summary = workout_summary(w.workout_id, &w.entries);
        let mut groups: Vec<MuscleGroupVolume> = Vec::new();
        let mut ranking: Vec<ExerciseVolume> = Vec::new();
        let m = w.entries.len();
        let mut k: usize = 0;
        proof {
            assert(w.entries@.take(0) =~= Seq::<WorkoutEntryDetailed>::empty());
            assert(table_groups(Seq::<MuscleGroupVolume>::empty())
                =~= groups_of(Seq::<WorkoutEntryDetailed>::empty()));
        }
        while k < m
            invariant
                k <= m,
                m == w.entries@.len(),
                groups_table_matches(groups@, w.entries@.take(k as int)),
                ranking@ =~= exercise_volumes_of(w.entries@.take(k as int)),
            decreases m - k,
        {
            let e = &w.entries[k];
            let ghost pref = w.entries@.take(k as int);
            proof {
                assert(w.entries@.take(k as int + 1).drop_last() =~= pref);
                assert(w.entries@.take(k as int + 1).last() == w.entries@[k as int]);
                lemma_totals_bounds(pref);
                lemma_entry_volume_bounds(w.entries@[k as int]);
                lemma_totals_fit(k as int + 1);
                assert((k as int) * max_entry_volume() + max_entry_volume() == (k as int + 1)
                    * max_entry_volume()) by (nonlinear_arith);
                lemma_mul_inequality(k as int, k as int + 1, max_entry_volume());
            }
            let v = entry_volume_exec(e);
            ranking.push(ExerciseVolume { name: e.exercise_name.clone(), volume: v });
            add_entry_to_groups(&mut groups, e, Ghost(pref));
            proof {
                assert(pref.push(w.entries@[k as int]) =~= w.entries@.take(k as int + 1));
                assert(ranking@ =~= exercise_volumes_of(w.entries@.take(k as int + 1)));
            }
            k = k + 1;
        }
        proof {
            assert(w.entries@.take(m as int) =~= w.entries@);
        }
        sort_by_volume_desc(&mut ranking);
        records.push(
            WorkoutProgress {
                workout_id: w.workout_id,
                date: w.date.clone(),
                total_sets: summary.total_sets,
                total_reps: summary.total_reps,
                total_volume: summary.total_volume,
                muscle_groups: groups,
                top_exercises: ranking,
            },
        );
        i = i + 1;
    }
    records
}

/// One row of a user's full history: an entry joined with its workout's
/// date.
#[derive(Debug, Clone, PartialEq, Eq)]
pub struct HistoryEntry {
    pub date: String,
    pub entry: WorkoutEntryDetailed,
}

/// Trailing-window volume and all-time top muscle group of a user.
#[derive(Debug, Clone, PartialEq, Eq)]
pub struct WeeklyAnalytics {
    pub total_volume: u128,
    pub top_muscle_group: String,
}

/// The date lies within the window, both bounds included.
pub open spec fn in_window(date: Seq<char>, from: Seq<char>, to: Seq<char>) -> bool {
    lex_le(from, date) && lex_le(date, to)
}

/// Volume of the history rows whose workout date lies within the window.
pub open spec fn window_volume_of(s: Seq<HistoryEntry>, from: Seq<char>, to: Seq<char>) -> int
    decreases s.len(),
{
    if s.len() == 0 {
        0
    } else {
        window_volume_of(s.drop_last(), from, to) + if in_window(s.last().date@, from, to) {
            entry_volume(s.last().entry)
        } else {
            0
        }
    }
}

/// The entry rows of a history, dates stripped.
pub open spec fn entries_of(s: Seq<HistoryEntry>) -> Seq<WorkoutEntryDetailed> {
    s.map_values(|h: HistoryEntry| h.entry)
}

/// Windowed volume is a non-negative part of the total volume.
pub proof fn lemma_window_volume_bounds(s: Seq<HistoryEntry>, from: Seq<char>, to: Seq<char>)
    ensures
        0 <= window_volume_of(s, from, to) <= total_volume_of(entries_of(s)),
    decreases s.len(),
{
    if s.len() > 0 {
        lemma_window_volume_bounds(s.drop_last(), from, to);
        lemma_entry_volume_bounds(s.last().entry);
        assert(entries_of(s).drop_last() =~= entries_of(s.drop_last()));
        assert(entries_of(s).last() == s.last().entry);
    }
}

/// Weekly Analytics: the volume of the workouts dated within the given
/// window (both bounds included; callers pass the date seven days ago and
/// today's date), and the top muscle group over the whole history, ties
/// broken by the lexicographically least group name. A user with no history
/// rows at all gets zero volume and `"N/A"`.
pub fn weekly_analytics(history: &Vec<HistoryEntry>, window_start: &str, window_end: &str) -> (r:
    WeeklyAnalytics)
    ensures
        r.total_volume as int == window_volume_of(history@, window_start@, window_end@),
        history@.len() == 0 ==> r.top_muscle_group@ == "N/A"@,
        history@.len() > 0 ==> is_top_group(entries_of(history@), r.top_muscle_group@),
{
    let mut total: u128 = 0;
    let mut groups: Vec<MuscleGroupVolume> = Vec::new();
    let n = history.len();
    let mut i: usize = 0;
    proof {
        assert(entries_of(history@.take(0)) =~= Seq::<WorkoutEntryDetailed>::empty());
        assert(table_groups(Seq::<MuscleGroupVolume>::empty())
            =~= groups_of(Seq::<WorkoutEntryDetailed>::empty()));
    }
    while i < n
        invariant
            i <= n,
            n == history@.len(),
            total as int == window_volume_of(history@.take(i as int), window_start@, window_end@),
            groups_table_matches(groups@, entries_of(history@.take(i as int))),
        decreases n - i,
    {
        let h = &history[i];
        let ghost pref = entries_of(history@.take(i as int));
        proof {
            assert(history@.take(i as int + 1).drop_last() =~= history@.take(i as int));
            assert(history@.take(i as int + 1).last() == history@[i as int]);
            assert(entries_of(history@.take(i as int + 1))
                =~= pref.push(history@[i as int].entry));
            lemma_totals_bounds(pref);
            lemma_entry_volume_bounds(history@[i as int].entry);
            lemma_totals_fit(i as int + 1);
            assert((i as int) * max_entry_volume() + max_entry_volume() == (i as int + 1)
                * max_entry_volume()) by (nonlinear_arith);
            lemma_mul_inequality(i as int, i as int + 1, max_entry_volume());
            lemma_window_volume_bounds(history@.take(i as int), window_start@, window_end@);
        }
        let v = entry_volume_exec(&h.entry);
        let in_w = str_lex_le(window_start, h.date.as_str()) && str_lex_le(
            h.date.as_str(),
            window_end,
        );
        if in_w {
            total = total + (v as u128);
        }
        add_entry_to_groups(&mut groups, &h.entry, Ghost(pref));
        i = i + 1;
    }
    proof {
        assert(history@.take(n as int) =~= history@);
    }
    let top = match top_group_of_table(&groups, Ghost(entries_of(history@))) {
        Some(gname) => gname,
        None => String::from_str("N/A"),
    };
    WeeklyAnalytics { total_volume: total, top_muscle_group: top }
}

} // verus!

