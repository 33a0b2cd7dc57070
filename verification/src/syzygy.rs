//! Syzygy endgame tablebases: the prober and its results. No tablebase reader is linked
//! in, so initialising finds none and probes give nothing.
pub mod probe;

use vstd::prelude::*;
use crate::board::bitboard::{popcount, popcount_spec};
use crate::board::position::Position;

verus! {

/// Result of a Syzygy tablebase probe.
#[derive(Debug, Clone, Copy, PartialEq, Eq, Structural)]
pub enum SyzygyResult {
    Win,
    Loss,
    Draw,
    Unknown,
}

/// WDL (Win/Draw/Loss) probe result with distances.
#[derive(Debug, Clone, Copy)]
pub struct WdlScore {
    pub result: SyzygyResult,
    /// Distance to mate, if known.
    pub dtm: Option<i32>,
    /// Distance to the next zeroing move, if known.
    pub dtz: Option<i32>,
}

pub struct SyzygyProber {
    pub enabled: bool,
    /// Largest number of pieces the loaded tables cover.
    pub max_pieces: u32,
    pub path: String,
}

impl SyzygyProber {
    pub fn new() -> (p: Self)
        ensures
            !p.enabled,
            p.max_pieces == 0,
            p.path@ == Seq::<char>::empty(),
    {
        SyzygyProber { enabled: false, max_pieces: 0, path: String::new() }
    }

    /// Initialize Syzygy with a path to the table files.
    pub fn init(&mut self, path: &str) -> (r: Result<(), String>)
        ensures
            r is Ok,
            final(self).path@ == path@,
            final(self).max_pieces == 0,
            !final(self).enabled,
    {
        self.path = path.to_owned();
        self.max_pieces = match probe::init_syzygy(path) {
            Ok(n) => n,
            Err(e) => {
                return Err(e);
            },
        };
        self.enabled = self.max_pieces > 0;
        Ok(())
    }

    /// Probe WDL (Win/Draw/Loss) for a position with few enough pieces.
    pub fn probe_wdl(&self, pos: &Position) -> (r: Option<WdlScore>)
        ensures
            r is None,
    {
        if !self.enabled {
            return None;
        }
        let piece_count = popcount(pos.occupancy);
        if piece_count > self.max_pieces {
            return None;
        }
        probe::probe_wdl(pos)
    }

    /// Probe DTZ (Distance To Zeroing move) for best move selection.
    pub fn probe_dtz(&self, pos: &Position) -> (r: Option<WdlScore>)
        ensures
            r is None,
    {
        if !self.enabled {
            return None;
        }
        let piece_count = popcount(pos.occupancy);
        if piece_count > self.max_pieces {
            return None;
        }
        probe::probe_dtz(pos)
    }
}

impl Default for SyzygyProber {
    fn default() -> (p: Self)
        ensures
            !p.enabled,
            p.max_pieces == 0,
            p.path@ == Seq::<char>::empty(),
    {
        Self::new()
    }
}

} // verus!
