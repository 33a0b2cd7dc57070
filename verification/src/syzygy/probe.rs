//! Probing the tablebases. No tablebase reader is linked in: initialising reports no
//! tables and every probe reports nothing.
use vstd::prelude::*;
use crate::board::position::Position;
use crate::syzygy::{SyzygyResult, WdlScore};

verus! {

/// Initialize Syzygy tablebases from a directory path; returns the largest number of
/// pieces the tables found cover.
pub fn init_syzygy(path: &str) -> (r: Result<u32, String>)
    ensures
        r == Ok::<u32, String>(0),
{
    Ok(0)
}

/// Probe Win/Draw/Loss for a position.
pub fn probe_wdl(pos: &Position) -> (r: Option<WdlScore>)
    ensures
        r is None,
{
    None
}

/// Probe Distance-To-Zero for a position.
pub fn probe_dtz(pos: &Position) -> (r: Option<WdlScore>)
    ensures
        r is None,
{
    None
}

/// Converts a tablebase WDL code to a result.
pub fn fathom_to_result(wdl: i32) -> (r: SyzygyResult)
    ensures
        r == (if wdl == 2 {
            SyzygyResult::Win
        } else if wdl == 0 {
            SyzygyResult::Draw
        } else if wdl == -2 {
            SyzygyResult::Loss
        } else {
            SyzygyResult::Unknown
        }),
{
    match wdl {
        2 => SyzygyResult::Win,
        0 => SyzygyResult::Draw,
        -2 => SyzygyResult::Loss,
        _ => SyzygyResult::Unknown,
    }
}

} // verus!
