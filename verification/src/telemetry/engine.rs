use vstd::prelude::*;

verus! {

/// Engine speed and rev limit of one telemetry sample, in rpm.
#[derive(Debug, Clone, Copy, PartialEq, Eq, Structural)]
pub struct EngineSample {
    pub rpm: i32,
    pub redline_rpm: i32,
}

impl EngineSample {
    /// Numerator and denominator of the rev ratio `rpm / redline_rpm`: the engine
    /// speed clamped to zero from below, and the rev limit; `None` without a
    /// positive rev limit.
    pub fn rpm_ratio_terms(&self) -> (terms: Option<(i32, i32)>)
        ensures
            self.redline_rpm <= 0 ==> terms is None,
            self.redline_rpm > 0 ==> terms == Some(
                ((if self.rpm < 0 { 0i32 } else { self.rpm }), self.redline_rpm),
            ),
    {
        if self.redline_rpm <= 0 {
            return None;
        }
        let rpm: i32 = if self.rpm < 0 { 0 } else { self.rpm };
        Some((rpm, self.redline_rpm))
    }
}

} // verus!
