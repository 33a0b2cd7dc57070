//! Playing style — shapes move ordering and the preference for complex positions.
use vstd::prelude::*;
use crate::text::{chars_of, chars_eq_str, lowercase_of, to_lowercase};

verus! {

#[derive(Debug, Clone, Copy, PartialEq, Eq, Structural)]
pub enum Style {
    /// Prefer attacking moves, sacrifices, complex positions.
    Aggressive,
    /// Prefer positional moves, avoid risks.
    Solid,
    /// Seek combinations, forks, pins.
    Tactical,
    /// Set traps, avoid main lines.
    Tricky,
    /// Unpredictable, random elements.
    Chaotic,
    /// Default — neutral.
    Balanced,
}

/// The style a lower-case name stands for; any other name is balanced.
pub open spec fn style_named(t: Seq<char>) -> Style {
    if t == "aggressive"@ {
        Style::Aggressive
    } else if t == "solid"@ {
        Style::Solid
    } else if t == "tactical"@ {
        Style::Tactical
    } else if t == "tricky"@ {
        Style::Tricky
    } else if t == "chaotic"@ {
        Style::Chaotic
    } else {
        Style::Balanced
    }
}

impl Style {
    /// The style named by an already lower-case name.
    pub fn from_lowercase(t: &str) -> (s: Style)
        ensures
            s == style_named(t@),
    {
        let c = chars_of(t);
        if chars_eq_str(&c, "aggressive") {
            Style::Aggressive
        } else if chars_eq_str(&c, "solid") {
            Style::Solid
        } else if chars_eq_str(&c, "tactical") {
            Style::Tactical
        } else if chars_eq_str(&c, "tricky") {
            Style::Tricky
        } else if chars_eq_str(&c, "chaotic") {
            Style::Chaotic
        } else {
            Style::Balanced
        }
    }

    /// The style named by `s`, in any case.
    pub fn from_str(s: &str) -> (r: Style)
        ensures
            r == style_named(lowercase_of(s@)),
    {
        let lower = to_lowercase(s);
        Style::from_lowercase(lower.as_str())
    }

    /// Move ordering modifier: how much to boost tactical moves.
    pub fn tactical_bonus(self) -> (b: i32)
        ensures
            b == (match self {
                Style::Aggressive => 30000i32,
                Style::Tactical => 40000i32,
                Style::Tricky => 20000i32,
                Style::Chaotic => 10000i32,
                Style::Solid => 0i32,
                Style::Balanced => 0i32,
            }),
    {
        match self {
            Style::Aggressive => 30_000,
            Style::Tactical => 40_000,
            Style::Tricky => 20_000,
            Style::Chaotic => 10_000,
            Style::Solid => 0,
            Style::Balanced => 0,
        }
    }

    /// Complexity preference: how much to prefer complex positions.
    pub fn complexity_bias(self) -> (b: i32)
        ensures
            b == (match self {
                Style::Aggressive => 25i32,
                Style::Tactical => 30i32,
                Style::Tricky => 15i32,
                Style::Chaotic => 40i32,
                Style::Solid => -20i32,
                Style::Balanced => 0i32,
            }),
    {
        match self {
            Style::Aggressive => 25,
            Style::Tactical => 30,
            Style::Tricky => 15,
            Style::Chaotic => 40,
            Style::Solid => -20,
            Style::Balanced => 0,
        }
    }
}

} // verus!
