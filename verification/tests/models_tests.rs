use gymbuddy::models::{NewWorkoutEntry, WorkoutEntry};

#[test]
fn stored_entry_validation_requires_positive_counts() {
    let good = WorkoutEntry {
        id: 1,
        workout_id: 2,
        exercise_id: 3,
        sets: 3,
        reps: 12,
        weight: Some(2250),
    };
    assert!(good.is_valid());
    let bad = WorkoutEntry { sets: 0, ..good };
    assert!(!bad.is_valid());
}

#[test]
fn new_entry_validation_requires_positive_counts() {
    let good = NewWorkoutEntry { workout_id: 2, exercise_id: 3, sets: 1, reps: 1, weight: None };
    assert!(good.is_valid());
    let bad = NewWorkoutEntry { reps: 0, ..good };
    assert!(!bad.is_valid());
}
