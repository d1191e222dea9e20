//! Fixed geometry, timing and the table of known fruit tiers.

use vstd::prelude::*;

verus! {

/// Thousandths per whole unit.
pub const SCALE: u32 = 1000;

pub const SCREEN_HEIGHT: i32 = 800_000;

pub const CONTAINER_WIDTH: i32 = 420_000;

pub const CONTAINER_HEIGHT: i32 = 500_000;

pub const CONTAINER_THICKNESS: i32 = 20_000;

pub const CONTAINER_BASE_OFFSET: i32 = 25_000;

/// Height at which a clicked fruit enters: above the rim by half the largest
/// diameter.
pub const SPAWN_HEIGHT: i32 = 267_400;

/// A settled fruit above this height ends the run.
pub const GAME_OVER_HEIGHT: i32 = 145_000;

/// Mass of a fruit that has not settled yet.
pub const MASS: u32 = 5000;

/// Mass of a settled fruit when the multiplier is zero.
pub const ALIVE_MASS_MIN: u32 = 1;

/// A fruit counts as resting when both velocity components are strictly
/// inside this bound.
pub const REST_SPEED: i32 = 1000;

/// Microseconds that must pass between two spawns.
pub const CLICK_DELAY: u64 = 800_000;

/// Microseconds a new fruit stays exempt from settling.
pub const GRACE_PERIOD: u64 = 1_000_000;

/// Microseconds between two sweeps of deleted fruits.
pub const SWEEP_INTERVAL: u64 = 2_000_000;

/// Half-open bound of the random horizontal offset given to a clicked fruit.
pub const SPAWN_JITTER: i32 = 1000;

/// Number of tiers in the table.
pub const KNOWN_TYPE_COUNT: usize = 11;

/// Tiers `0..SPAWNABLE_TYPE_COUNT` are the ones the generator draws from.
pub const SPAWNABLE_TYPE_COUNT: usize = 5;

/// Largest score in the table.
pub const MAX_KNOWN_SCORE: u32 = 55;

/// Diameter of each tier, smallest first.
pub open spec fn known_size(tier: int) -> int {
    if tier == 0 {
        31_200
    } else if tier == 1 {
        48_000
    } else if tier == 2 {
        64_800
    } else if tier == 3 {
        72_000
    } else if tier == 4 {
        92_400
    } else if tier == 5 {
        110_400
    } else if tier == 6 {
        116_400
    } else if tier == 7 {
        154_800
    } else if tier == 8 {
        184_800
    } else if tier == 9 {
        208_800
    } else {
        244_800
    }
}

/// Score awarded when a merge creates a fruit of the tier.
pub open spec fn known_score(tier: int) -> int {
    if tier == 0 {
        0
    } else if tier == 1 {
        1
    } else if tier == 2 {
        3
    } else if tier == 3 {
        6
    } else if tier == 4 {
        10
    } else if tier == 5 {
        15
    } else if tier == 6 {
        21
    } else if tier == 7 {
        28
    } else if tier == 8 {
        36
    } else if tier == 9 {
        45
    } else {
        55
    }
}

/// Image file of each tier.
pub open spec fn known_file_name(tier: int) -> Seq<char> {
    if tier == 0 {
        "gura.png"@
    } else if tier == 1 {
        "aqua.png"@
    } else if tier == 2 {
        "hakos.png"@
    } else if tier == 3 {
        "towa.png"@
    } else if tier == 4 {
        "kobo.png"@
    } else if tier == 5 {
        "ayame.png"@
    } else if tier == 6 {
        "koyori.png"@
    } else if tier == 7 {
        "fubuki.png"@
    } else if tier == 8 {
        "mio.png"@
    } else if tier == 9 {
        "ollie.png"@
    } else {
        "sana.png"@
    }
}

/// The table is ordered by increasing size.
pub proof fn known_sizes_increase(low: int, high: int)
    requires
        0 <= low < high < KNOWN_TYPE_COUNT,
    ensures
        known_size(low) < known_size(high),
{
}

/// A higher tier never scores less.
pub proof fn known_scores_increase(low: int, high: int)
    requires
        0 <= low <= high < KNOWN_TYPE_COUNT,
    ensures
        0 <= known_score(low) <= known_score(high) <= MAX_KNOWN_SCORE,
{
}

} // verus!
