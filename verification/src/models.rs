//! Entity types of the fitness tracker.
//!
//! Weights are fixed-point values in hundredths of a unit (a stored weight of
//! `2000` stands for `20.00`), so that all volume arithmetic is exact integer
//! arithmetic. An absent weight means a bodyweight exercise and counts as
//! zero. The field widths (`u16` set and rep counts, `u32` weights) are chosen
//! so that every aggregate computed in [`crate::analytics`] fits its result
//! type for all possible inputs.

use vstd::prelude::*;

verus! {

/// A registered account. `password_hash` holds the encoded digest produced by
/// [`crate::password::hash_password`], never the plaintext password.
#[derive(Debug, Clone, PartialEq, Eq)]
pub struct User {
    pub id: i64,
    pub username: String,
    pub email: String,
    pub password_hash: String,
}

/// A registration request: the plaintext password is hashed before a `User`
/// is stored.
#[derive(Debug, Clone, PartialEq, Eq)]
pub struct NewUser {
    pub username: String,
    pub email: String,
    pub password: String,
}

/// A login request.
#[derive(Debug, Clone, PartialEq, Eq)]
pub struct LoginUser {
    pub email: String,
    pub password: String,
}

/// A workout session owned by a user. `date` is a calendar date encoded so
/// that the lexicographic order of the strings is the calendar order
/// (e.g. `YYYY-MM-DD`).
#[derive(Debug, Clone, PartialEq, Eq)]
pub struct Workout {
    pub id: i64,
    pub user_id: i64,
    pub date: String,
    pub notes: Option<String>,
}

/// A catalog exercise; `muscle_group` is the categorical tag that the
/// analytics bucket volume by.
#[derive(Debug, Clone, PartialEq, Eq)]
pub struct Exercise {
    pub id: i64,
    pub name: String,
    pub muscle_group: String,
    pub description: Option<String>,
}

/// One performed exercise within a workout. `sets` and `reps` are strictly
/// positive in a well-formed entry; `weight` is in hundredths of a unit and
/// absent for bodyweight exercises.
#[derive(Debug, Clone, PartialEq, Eq)]
pub struct WorkoutEntry {
    pub id: i64,
    pub workout_id: i64,
    pub exercise_id: i64,
    pub sets: u16,
    pub reps: u16,
    pub weight: Option<u32>,
}

/// A request to create or update a workout entry, before storage assigns it
/// an id.
#[derive(Debug, Clone, PartialEq, Eq)]
pub struct NewWorkoutEntry {
    pub workout_id: i64,
    pub exercise_id: i64,
    pub sets: u16,
    pub reps: u16,
    pub weight: Option<u32>,
}

/// A read-only projection of a workout entry joined with its exercise's name
/// and muscle group; the input row of all analytics computations.
#[derive(Debug, Clone, PartialEq, Eq)]
pub struct WorkoutEntryDetailed {
    pub id: i64,
    pub workout_id: i64,
    pub exercise_id: i64,
    pub exercise_name: String,
    pub muscle_group: String,
    pub sets: u16,
    pub reps: u16,
    pub weight: Option<u32>,
}

/// Set and rep counts must be strictly positive; a weight, when present, is
/// non-negative by its type.
pub open spec fn valid_counts(sets: u16, reps: u16) -> bool {
    sets >= 1 && reps >= 1
}

impl WorkoutEntry {
    /// Well-formedness of a stored entry.
    pub open spec fn wf(self) -> bool {
        valid_counts(self.sets, self.reps)
    }

    /// Boundary-layer validation of a stored entry.
    pub fn is_valid(&self) -> (r: bool)
        ensures
            r == self.wf(),
    {
        self.sets >= 1 && self.reps >= 1
    }
}

impl NewWorkoutEntry {
    /// Well-formedness of an entry creation request.
    pub open spec fn wf(self) -> bool {
        valid_counts(self.sets, self.reps)
    }

    /// Boundary-layer validation of an entry creation request.
    pub fn is_valid(&self) -> (r: bool)
        ensures
            r == self.wf(),
    {
        self.sets >= 1 && self.reps >= 1
    }
}

impl WorkoutEntryDetailed {
    /// Well-formedness of a joined entry row.
    pub open spec fn wf(self) -> bool {
        valid_counts(self.sets, self.reps)
    }

    /// Boundary-layer validation of a joined entry row.
    pub fn is_valid(&self) -> (r: bool)
        ensures
            r == self.wf(),
    {
        self.sets >= 1 && self.reps >= 1
    }
}

} // verus!
