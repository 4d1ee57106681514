//! The two latency modes and what sets them apart.
use crate::text::eq_ignore_ascii_case;
use crate::text::{lowered, lowering_is_idempotent};
use vstd::prelude::*;

verus! {

/// How eagerly the sprint key follows the forward key.
#[derive(Clone, Copy, PartialEq, Eq, Structural, Debug)]
pub enum LatencyMode {
    /// Fast response with little use of the processor.
    Balanced,
    /// The fastest response.
    Ultra,
}

/// The name of a mode.
pub open spec fn mode_name(mode: LatencyMode) -> Seq<char> {
    match mode {
        LatencyMode::Balanced => "balanced"@,
        LatencyMode::Ultra => "ultra"@,
    }
}

/// The mode of that name, whatever the case of its letters.
pub open spec fn mode_named(name: Seq<char>) -> Option<LatencyMode> {
    if lowered(name) == "balanced"@ {
        Some(LatencyMode::Balanced)
    } else if lowered(name) == "ultra"@ {
        Some(LatencyMode::Ultra)
    } else {
        None
    }
}

proof fn mode_names_are_small()
    ensures
        lowered("balanced"@) == "balanced"@,
        lowered("ultra"@) == "ultra"@,
        "balanced"@ != "ultra"@,
{
    reveal_strlit("balanced");
    reveal_strlit("ultra");
    assert(lowered("balanced"@) =~= "balanced"@);
    assert(lowered("ultra"@) =~= "ultra"@);
}

/// A mode is found again by its name.
pub proof fn mode_is_found_by_name(mode: LatencyMode)
    ensures
        mode_named(mode_name(mode)) == Some(mode),
{
    mode_names_are_small();
}

/// The case of its letters makes no difference to which mode a name names.
pub proof fn mode_name_ignores_case(name: Seq<char>)
    ensures
        mode_named(lowered(name)) == mode_named(name),
{
    lowering_is_idempotent(name);
}

impl LatencyMode {
    /// How long after a press the loop spins, in milliseconds.
    pub open spec fn burst(self) -> u64 {
        match self {
            LatencyMode::Balanced => 25,
            LatencyMode::Ultra => 90,
        }
    }

    /// How many times one tight wait spins.
    pub open spec fn spins(self) -> u32 {
        match self {
            LatencyMode::Balanced => 64,
            LatencyMode::Ultra => 256,
        }
    }

    /// How long the loop sleeps between checks after the burst, in milliseconds.
    pub open spec fn post_burst_sleep(self) -> u32 {
        match self {
            LatencyMode::Balanced => 1,
            LatencyMode::Ultra => 0,
        }
    }

    /// The mode of that name, whatever the case of its letters.
    pub fn from_str(value: &str) -> (r: Option<LatencyMode>)
        ensures
            r == mode_named(value@),
    {
        proof {
            mode_names_are_small();
        }
        if eq_ignore_ascii_case(value, "balanced") {
            Some(LatencyMode::Balanced)
        } else if eq_ignore_ascii_case(value, "ultra") {
            Some(LatencyMode::Ultra)
        } else {
            None
        }
    }

    /// The name of the mode.
    pub fn as_str(self) -> (r: &'static str)
        ensures
            r@ == mode_name(self),
    {
        match self {
            LatencyMode::Balanced => "balanced",
            LatencyMode::Ultra => "ultra",
        }
    }

    /// How long after a press the loop spins, in milliseconds.
    pub fn burst_ms(self) -> (r: u64)
        ensures
            r == self.burst(),
    {
        match self {
            LatencyMode::Balanced => 25,
            LatencyMode::Ultra => 90,
        }
    }

    /// How many times one tight wait spins.
    pub fn spin_iters(self) -> (r: u32)
        ensures
            r == self.spins(),
    {
        match self {
            LatencyMode::Balanced => 64,
            LatencyMode::Ultra => 256,
        }
    }

    /// How long the loop sleeps between checks after the burst, in milliseconds.
    pub fn post_burst_sleep_ms(self) -> (r: u32)
        ensures
            r == self.post_burst_sleep(),
    {
        match self {
            LatencyMode::Balanced => 1,
            LatencyMode::Ultra => 0,
        }
    }
}

/// No mode is more aggressive than `Ultra`: none spins longer or more often, and
/// none sleeps less.
pub proof fn ultra_is_most_aggressive(mode: LatencyMode)
    ensures
        mode.burst() <= LatencyMode::Ultra.burst(),
        mode.spins() <= LatencyMode::Ultra.spins(),
        mode.post_burst_sleep() >= LatencyMode::Ultra.post_burst_sleep(),
{
}

} // verus!
