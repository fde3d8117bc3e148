pub mod madness;

use vstd::prelude::*;

verus! {

/// The engine state a game listener reports.
#[derive(Debug, Clone, Copy, PartialEq, Eq, Structural)]
pub struct EngineState {
    pub rpm: i32,
    pub rpm_redline: i32,
    pub rpm_idle: i32,
}

} // verus!
