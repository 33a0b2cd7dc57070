//! Named skill levels and the ratings they stand for.
use vstd::prelude::*;
use crate::text::{chars_of, chars_eq_str, lowercase_of, to_lowercase};

verus! {

/// The rating of a lower-case level name; any other name is full strength (3200).
pub open spec fn elo_named(t: Seq<char>) -> u32 {
    if t == "beginner"@ {
        400
    } else if t == "novice"@ {
        700
    } else if t == "casual"@ {
        1000
    } else if t == "intermediate"@ {
        1300
    } else if t == "club"@ {
        1600
    } else if t == "advanced"@ {
        1900
    } else if t == "expert"@ {
        2200
    } else if t == "master"@ {
        2500
    } else if t == "grandmaster"@ {
        2800
    } else {
        3200
    }
}

/// The rating of an already lower-case level name.
pub fn elo_of_lowercase(t: &str) -> (e: u32)
    ensures
        e == elo_named(t@),
{
    let c = chars_of(t);
    if chars_eq_str(&c, "beginner") {
        400
    } else if chars_eq_str(&c, "novice") {
        700
    } else if chars_eq_str(&c, "casual") {
        1000
    } else if chars_eq_str(&c, "intermediate") {
        1300
    } else if chars_eq_str(&c, "club") {
        1600
    } else if chars_eq_str(&c, "advanced") {
        1900
    } else if chars_eq_str(&c, "expert") {
        2200
    } else if chars_eq_str(&c, "master") {
        2500
    } else if chars_eq_str(&c, "grandmaster") {
        2800
    } else {
        3200
    }
}

/// Named skill levels that map to ratings, in any case.
pub fn level_to_elo(level: &str) -> (e: u32)
    ensures
        e == elo_named(lowercase_of(level@)),
{
    let lower = to_lowercase(level);
    elo_of_lowercase(lower.as_str())
}

} // verus!
