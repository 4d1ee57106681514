//! The names and the figures of the latency modes.
use crate::latency::LatencyMode;
use crate::text::lowered;
use crate::text_laws::{lowering_forgets_case_only, same_letters};
use vstd::prelude::*;

verus! {

proof fn names_are_small()
    ensures
        lowered("balanced"@) == "balanced"@,
        lowered("ultra"@) == "ultra"@,
        "balanced"@ != "ultra"@,
{
    reveal_strlit("balanced");
    reveal_strlit("ultra");
    assert(lowered("balanced"@) =~= "balanced"@);
    assert(lowered("ultra"@) =~= "ultra"@);
}

/// A mode goes by its name in any case of its letters, and by no other.
pub proof fn mode_goes_by_its_name(value: &str, r: Option<LatencyMode>)
    requires
        call_ensures(LatencyMode::from_str, (value,), r),
    ensures
        r == Some(LatencyMode::Balanced) <==> same_letters(value@, "balanced"@),
        r == Some(LatencyMode::Ultra) <==> same_letters(value@, "ultra"@),
{
    names_are_small();
    lowering_forgets_case_only(value@, "balanced"@);
    lowering_forgets_case_only(value@, "ultra"@);
}

/// A mode is named "balanced" or "ultra", and is found again by that.
pub proof fn mode_is_named(mode: LatencyMode, name: &str, r: Option<LatencyMode>)
    requires
        call_ensures(LatencyMode::as_str, (mode,), name),
        call_ensures(LatencyMode::from_str, (name,), r),
    ensures
        mode == LatencyMode::Balanced ==> name@ == "balanced"@,
        mode == LatencyMode::Ultra ==> name@ == "ultra"@,
        r == Some(mode),
{
    names_are_small();
}

/// The figures of the two modes.
pub proof fn modes_have_their_figures(mode: LatencyMode, burst: u64, spins: u32, sleep: u32)
    requires
        call_ensures(LatencyMode::burst_ms, (mode,), burst),
        call_ensures(LatencyMode::spin_iters, (mode,), spins),
        call_ensures(LatencyMode::post_burst_sleep_ms, (mode,), sleep),
    ensures
        mode == LatencyMode::Balanced ==> burst == 25 && spins == 64 && sleep == 1,
        mode == LatencyMode::Ultra ==> burst == 90 && spins == 256 && sleep == 0,
{
}

} // verus!
