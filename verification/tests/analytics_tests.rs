use gymbuddy::analytics::{
    user_progress, weekly_analytics, workout_progress, workout_summary, HistoryEntry,
    WorkoutRecord,
};
use gymbuddy::models::WorkoutEntryDetailed;
use gymbuddy::text::str_lex_le;

fn entry(name: &str, group: &str, sets: u16, reps: u16, weight: Option<u32>) -> WorkoutEntryDetailed {
    WorkoutEntryDetailed {
        id: 0,
        workout_id: 0,
        exercise_id: 0,
        exercise_name: name.to_string(),
        muscle_group: group.to_string(),
        sets,
        reps,
        weight,
    }
}

fn dated(date: &str, e: WorkoutEntryDetailed) -> HistoryEntry {
    HistoryEntry { date: date.to_string(), entry: e }
}

#[test]
fn summary_concrete_totals() {
    // weights are hundredths of a unit: 2000 stands for 20.00
    let entries = vec![
        entry("Bench Press", "Chest", 3, 10, Some(2000)),
        entry("Push Up", "Chest", 4, 8, Some(0)),
    ];
    let s = workout_summary(5, &entries);
    assert_eq!(s.workout_id, 5);
    assert_eq!(s.total_sets, 7);
    assert_eq!(s.total_reps, 18);
    assert_eq!(s.total_volume, 60_000); // 600.00 in whole units
    assert_eq!(s.exercises.len(), 2);
    assert_eq!(s.exercises[0].name, "Bench Press");
    assert_eq!(s.exercises[0].volume, 60_000);
    assert_eq!(s.exercises[1].volume, 0);
}

#[test]
fn summary_of_empty_workout_is_all_zero() {
    let entries: Vec<WorkoutEntryDetailed> = vec![];
    let s = workout_summary(11, &entries);
    assert_eq!(s.total_sets, 0);
    assert_eq!(s.total_reps, 0);
    assert_eq!(s.total_volume, 0);
    assert!(s.exercises.is_empty());
}

#[test]
fn bodyweight_entry_counts_zero_volume() {
    let entries = vec![entry("Pull Up", "Back", 5, 5, None)];
    let s = workout_summary(1, &entries);
    assert_eq!(s.total_volume, 0);
    assert_eq!(s.total_sets, 5);
    assert_eq!(s.exercises[0].weight, 0);
}

#[test]
fn largest_entry_volume_is_exact() {
    let entries = vec![entry("万能", "全身", u16::MAX, u16::MAX, Some(u32::MAX))];
    let s = workout_summary(1, &entries);
    assert_eq!(s.total_volume, 65_535u128 * 65_535 * 4_294_967_295);
}

#[test]
fn user_progress_of_no_workouts_is_empty() {
    let workouts: Vec<WorkoutRecord> = vec![];
    let points = user_progress(&workouts);
    assert!(points.is_empty());
}

#[test]
fn user_progress_keeps_order_and_totals() {
    let workouts = vec![
        WorkoutRecord {
            workout_id: 1,
            date: "2026-10-01".to_string(),
            entries: vec![entry("Squat", "Legs", 3, 5, Some(10_000))],
        },
        WorkoutRecord {
            workout_id: 2,
            date: "2026-10-03".to_string(),
            entries: vec![],
        },
    ];
    let points = user_progress(&workouts);
    assert_eq!(points.len(), 2);
    assert_eq!(points[0].workout_id, 1);
    assert_eq!(points[0].date, "2026-10-01");
    assert_eq!(points[0].total_volume, 150_000);
    assert_eq!(points[1].workout_id, 2);
    assert_eq!(points[1].total_volume, 0);
}

#[test]
fn workout_progress_aggregates_groups_and_ranks_exercises() {
    let workouts = vec![WorkoutRecord {
        workout_id: 3,
        date: "2026-10-02".to_string(),
        entries: vec![
            entry("Bench Press", "Chest", 3, 10, Some(2000)),  // 60000
            entry("Row", "Back", 3, 10, Some(3000)),           // 90000
            entry("Fly", "Chest", 2, 15, Some(1000)),          // 30000
        ],
    }];
    let records = workout_progress(&workouts);
    assert_eq!(records.len(), 1);
    let r = &records[0];
    assert_eq!(r.total_sets, 8);
    assert_eq!(r.total_reps, 35);
    assert_eq!(r.total_volume, 180_000);
    // groups in first-occurrence order, volumes aggregated
    assert_eq!(r.muscle_groups.len(), 2);
    assert_eq!(r.muscle_groups[0].group, "Chest");
    assert_eq!(r.muscle_groups[0].volume, 90_000);
    assert_eq!(r.muscle_groups[1].group, "Back");
    assert_eq!(r.muscle_groups[1].volume, 90_000);
    // exercises ranked by volume, largest first
    let volumes: Vec<u64> = r.top_exercises.iter().map(|x| x.volume).collect();
    assert_eq!(volumes, vec![90_000, 60_000, 30_000]);
    assert_eq!(r.top_exercises[0].name, "Row");
}

#[test]
fn weekly_analytics_of_empty_history() {
    let history: Vec<HistoryEntry> = vec![];
    let w = weekly_analytics(&history, "2026-10-02", "2026-10-09");
    assert_eq!(w.total_volume, 0);
    assert_eq!(w.top_muscle_group, "N/A");
}

#[test]
fn weekly_analytics_windows_volume_but_ranks_all_time() {
    let history = vec![
        // outside the window: counts for the top group, not for the volume
        dated("2026-09-01", entry("Row", "Back", 10, 10, Some(10_000))),
        // inside the window, both bounds inclusive
        dated("2026-10-02", entry("Bench Press", "Chest", 3, 10, Some(2000))),
        dated("2026-10-09", entry("Fly", "Chest", 2, 15, Some(1000))),
        // after the window
        dated("2026-10-10", entry("Squat", "Legs", 5, 5, Some(10_000))),
    ];
    let w = weekly_analytics(&history, "2026-10-02", "2026-10-09");
    assert_eq!(w.total_volume, 90_000);
    // all-time volumes: Back 10_000_000, Chest 90_000, Legs 250_000
    assert_eq!(w.top_muscle_group, "Back");
}

#[test]
fn weekly_top_group_tie_breaks_lexicographically_and_deterministically() {
    let history = vec![
        dated("2026-10-05", entry("Row", "Lats", 1, 1, Some(500))),
        dated("2026-10-05", entry("Curl", "Biceps", 1, 1, Some(500))),
    ];
    let first = weekly_analytics(&history, "2026-10-02", "2026-10-09");
    let second = weekly_analytics(&history, "2026-10-02", "2026-10-09");
    assert_eq!(first.top_muscle_group, "Biceps");
    assert_eq!(first, second);
}

#[test]
fn date_order_is_lexicographic() {
    assert!(str_lex_le("2026-01-31", "2026-02-01"));
    assert!(str_lex_le("2026-02-01", "2026-02-01"));
    assert!(!str_lex_le("2026-02-01", "2026-01-31"));
    assert!(str_lex_le("", "2026-01-01"));
}

#[test]
fn entry_validation_requires_positive_counts() {
    let good = entry("Bench Press", "Chest", 1, 1, None);
    assert!(good.is_valid());
    let no_sets = entry("Bench Press", "Chest", 0, 10, None);
    assert!(!no_sets.is_valid());
    let no_reps = entry("Bench Press", "Chest", 3, 0, None);
    assert!(!no_reps.is_valid());
}
