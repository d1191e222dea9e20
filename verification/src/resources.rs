//! Session state shared by the stages of a tick.

use vstd::prelude::*;
use rand::Rng;
use crate::constants::{
    known_file_name, known_score, known_size, ALIVE_MASS_MIN, CLICK_DELAY, KNOWN_TYPE_COUNT, MASS,
    SCALE, SPAWNABLE_TYPE_COUNT,
};

verus! {

/// One fruit tier. The rank is always a row of the table.
#[derive(Clone, Copy, Debug, PartialEq, Eq, Structural)]
pub struct Fruit {
    tier: usize,
}

impl View for Fruit {
    type V = int;

    closed spec fn view(&self) -> int {
        self.tier as int
    }
}

impl Fruit {
    #[verifier::type_invariant]
    closed spec fn known(self) -> bool {
        self.tier < KNOWN_TYPE_COUNT
    }

    /// The fruit of the given tier, if the table has that tier.
    pub fn new(tier: usize) -> (fruit: Option<Fruit>)
        ensures
            fruit.is_some() <==> tier < KNOWN_TYPE_COUNT,
            fruit.is_some() ==> fruit.unwrap()@ == tier,
    {
        if tier < KNOWN_TYPE_COUNT {
            Some(Fruit { tier })
        } else {
            None
        }
    }

    /// Rank in the table, 0 for the smallest.
    pub fn tier(&self) -> (tier: usize)
        ensures
            tier == self@,
            tier < KNOWN_TYPE_COUNT,
    {
        proof {
            use_type_invariant(self);
        }
        self.tier
    }

    /// Diameter.
    pub fn size(&self) -> (size: u32)
        ensures
            size == known_size(self@),
    {
        proof {
            use_type_invariant(self);
        }
        if self.tier == 0 {
            31_200
        } else if self.tier == 1 {
            48_000
        } else if self.tier == 2 {
            64_800
        } else if self.tier == 3 {
            72_000
        } else if self.tier == 4 {
            92_400
        } else if self.tier == 5 {
            110_400
        } else if self.tier == 6 {
            116_400
        } else if self.tier == 7 {
            154_800
        } else if self.tier == 8 {
            184_800
        } else if self.tier == 9 {
            208_800
        } else {
            244_800
        }
    }

    /// Score awarded when a merge creates this fruit.
    pub fn score(&self) -> (score: u32)
        ensures
            score == known_score(self@),
    {
        proof {
            use_type_invariant(self);
        }
        if self.tier == 0 {
            0
        } else if self.tier == 1 {
            1
        } else if self.tier == 2 {
            3
        } else if self.tier == 3 {
            6
        } else if self.tier == 4 {
            10
        } else if self.tier == 5 {
            15
        } else if self.tier == 6 {
            21
        } else if self.tier == 7 {
            28
        } else if self.tier == 8 {
            36
        } else if self.tier == 9 {
            45
        } else {
            55
        }
    }

    /// The fruit two of these merge into: the next tier, or nothing for the
    /// largest.
    pub closed spec fn merged(self) -> Option<Fruit> {
        if self.tier + 1 < KNOWN_TYPE_COUNT {
            Some(Fruit { tier: (self.tier + 1) as usize })
        } else {
            None
        }
    }

    /// What `merged` is, by tier.
    pub proof fn merged_is_next_tier(self)
        ensures
            self.merged() is Some <==> self@ + 1 < KNOWN_TYPE_COUNT,
            self.merged() is Some ==> self.merged().unwrap()@ == self@ + 1,
    {
    }

    /// Fruits of one tier are the same fruit.
    pub proof fn same_tier_same_fruit(self, other: Fruit)
        ensures
            self@ == other@ <==> self == other,
    {
    }

    /// The fruit two of these merge into, or `None` for the largest tier.
    pub fn merge(&self) -> (merged: Option<Fruit>)
        ensures
            merged == self.merged(),
            merged.is_some() <==> self@ + 1 < KNOWN_TYPE_COUNT,
            merged.is_some() ==> merged.unwrap()@ == self@ + 1,
    {
        proof {
            use_type_invariant(self);
        }
        if self.tier + 1 < KNOWN_TYPE_COUNT {
            Some(Fruit { tier: self.tier + 1 })
        } else {
            None
        }
    }

    /// Image file that shows this fruit.
    pub fn file_name(&self) -> (name: &'static str)
        ensures
            name@ == known_file_name(self@),
    {
        proof {
            use_type_invariant(self);
        }
        if self.tier == 0 {
            "gura.png"
        } else if self.tier == 1 {
            "aqua.png"
        } else if self.tier == 2 {
            "hakos.png"
        } else if self.tier == 3 {
            "towa.png"
        } else if self.tier == 4 {
            "kobo.png"
        } else if self.tier == 5 {
            "ayame.png"
        } else if self.tier == 6 {
            "koyori.png"
        } else if self.tier == 7 {
            "fubuki.png"
        } else if self.tier == 8 {
            "mio.png"
        } else if self.tier == 9 {
            "ollie.png"
        } else {
            "sana.png"
        }
    }

    /// A copy of this fruit.
    pub fn clone(&self) -> (copy: Fruit)
        ensures
            copy == *self,
    {
        *self
    }
}

/// A one-shot countdown in microseconds. It is finished once nothing remains.
#[derive(Clone, Copy, Debug, PartialEq, Eq, Structural)]
pub struct Timer {
    pub remaining: u64,
}

impl Timer {
    /// What is left of `remaining` after `delta` has passed.
    pub open spec fn remaining_after(remaining: int, delta: int) -> int {
        if remaining > delta {
            remaining - delta
        } else {
            0
        }
    }

    pub open spec fn is_finished(self) -> bool {
        self.remaining == 0
    }

    /// A countdown of the given length. A length of zero is finished at once.
    pub fn from_micros(duration: u64) -> (timer: Timer)
        ensures
            timer.remaining == duration,
    {
        Timer { remaining: duration }
    }

    /// Lets `delta` microseconds pass.
    pub fn tick(&mut self, delta: u64)
        ensures
            final(self).remaining == Self::remaining_after(
                old(self).remaining as int,
                delta as int,
            ),
    {
        if self.remaining > delta {
            self.remaining = self.remaining - delta;
        } else {
            self.remaining = 0;
        }
    }

    pub fn finished(&self) -> (done: bool)
        ensures
            done == self.is_finished(),
    {
        self.remaining == 0
    }
}

/// Gate that keeps spawns from following each other too quickly.
#[derive(Clone, Copy, Debug, PartialEq, Eq, Structural)]
pub struct SpawnTime {
    pub timer: Timer,
}

impl Default for SpawnTime {
    /// The first spawn of a session needs no wait.
    fn default() -> (gate: SpawnTime)
        ensures
            gate.timer.remaining == 0,
    {
        SpawnTime { timer: Timer::from_micros(0) }
    }
}

impl SpawnTime {
    /// Restarts the cooldown after a spawn.
    pub fn start_new_timer(&mut self)
        ensures
            final(self).timer.remaining == CLICK_DELAY,
    {
        self.timer = Timer::from_micros(CLICK_DELAY);
    }
}

/// Running score of a session.
#[derive(Clone, Copy, Debug, PartialEq, Eq, Structural)]
pub struct ScoreTracker {
    pub score: u32,
}

impl Default for ScoreTracker {
    fn default() -> (tracker: ScoreTracker)
        ensures
            tracker.score == 0,
    {
        ScoreTracker { score: 0 }
    }
}

impl ScoreTracker {
    pub fn add_score(&mut self, s: u32)
        requires
            old(self).score + s <= u32::MAX,
        ensures
            final(self).score == old(self).score + s,
    {
        self.score = self.score + s;
    }

    pub fn reset(&mut self)
        ensures
            final(self).score == 0,
    {
        self.score = 0;
    }
}

/// Mass given to settled fruits, as a share of the way from `ALIVE_MASS_MIN`
/// to `MASS`. The share is counted in thousandths and never exceeds `SCALE`.
/// The setting remembers whether the share was set since the settled fruits
/// were last given their mass.
#[derive(Clone, Copy, Debug, PartialEq, Eq, Structural)]
pub struct MassSetting {
    percentage: u32,
    changed: bool,
}

impl View for MassSetting {
    type V = int;

    closed spec fn view(&self) -> int {
        self.percentage as int
    }
}

impl Default for MassSetting {
    fn default() -> (setting: MassSetting)
        ensures
            setting@ == SCALE / 2,
            !setting.changed(),
    {
        MassSetting { percentage: SCALE / 2, changed: false }
    }
}

impl MassSetting {
    #[verifier::type_invariant]
    closed spec fn in_range(self) -> bool {
        self.percentage <= SCALE
    }

    /// Whether the share was set and not applied since.
    pub closed spec fn changed(self) -> bool {
        self.changed
    }

    /// Mass that the share `percentage` stands for: linear between the two
    /// ends, rounded down.
    pub open spec fn mass_at(percentage: int) -> int {
        ALIVE_MASS_MIN + (MASS - ALIVE_MASS_MIN) * percentage / (SCALE as int)
    }

    pub fn percentage(&self) -> (percentage: u32)
        ensures
            percentage == self@,
            percentage <= SCALE,
    {
        proof {
            use_type_invariant(self);
        }
        self.percentage
    }

    pub fn is_changed(&self) -> (changed: bool)
        ensures
            changed == self.changed(),
    {
        self.changed
    }

    /// Takes a new share. One above `SCALE` is refused and changes nothing.
    pub fn set_percentage(&mut self, percentage: u32) -> (accepted: bool)
        ensures
            accepted == (percentage <= SCALE),
            accepted ==> final(self)@ == percentage && final(self).changed(),
            !accepted ==> *final(self) == *old(self),
    {
        if percentage <= SCALE {
            self.percentage = percentage;
            self.changed = true;
            true
        } else {
            false
        }
    }

    /// The setting with the same share, counted as applied.
    pub closed spec fn as_applied(self) -> MassSetting {
        MassSetting { changed: false, ..self }
    }

    /// `as_applied` keeps the share, clears the mark of change, and leaves an
    /// unchanged setting as it is.
    pub proof fn as_applied_keeps_share(self)
        ensures
            self.as_applied()@ == self@,
            !self.as_applied().changed(),
            !self.changed() ==> self.as_applied() == self,
    {
    }

    /// Notes that the settled fruits have the mass of the current share.
    pub fn applied(&mut self)
        ensures
            *final(self) == old(self).as_applied(),
            final(self)@ == old(self)@,
            !final(self).changed(),
    {
        proof {
            use_type_invariant(&*self);
        }
        self.changed = false;
    }

    pub fn get_mass(&self) -> (mass: u32)
        ensures
            mass == Self::mass_at(self@),
            ALIVE_MASS_MIN <= mass <= MASS,
    {
        proof {
            use_type_invariant(self);
        }
        let span: u32 = MASS - ALIVE_MASS_MIN;
        let share: u32 = self.percentage;
        assert(0 <= span * share <= span * SCALE) by (nonlinear_arith)
            requires
                0 <= share <= SCALE,
                0 <= span,
        ;
        span * share / SCALE + ALIVE_MASS_MIN
    }

    /// The mass of every share lies between the two ends, and a larger share
    /// never gives a smaller mass.
    pub proof fn mass_is_monotone(low: int, high: int)
        requires
            0 <= low <= high <= SCALE,
        ensures
            ALIVE_MASS_MIN <= Self::mass_at(low) <= Self::mass_at(high) <= MASS,
            Self::mass_at(0) == ALIVE_MASS_MIN,
            Self::mass_at(SCALE as int) == MASS,
    {
    }
}

/// Whether spawn sounds and music play.
#[derive(Clone, Copy, Debug, PartialEq, Eq, Structural)]
pub struct NoiseSetting {
    pub is_on: bool,
}

impl Default for NoiseSetting {
    fn default() -> (setting: NoiseSetting)
        ensures
            setting.is_on,
    {
        NoiseSetting { is_on: true }
    }
}

impl NoiseSetting {
    pub fn toggle(&mut self)
        ensures
            final(self).is_on == !old(self).is_on,
    {
        self.is_on = !self.is_on;
    }
}

/// Set once the playing field has been built, so a restart does not build it
/// again.
#[derive(Clone, Copy, Debug, PartialEq, Eq, Structural)]
pub struct GameAlreadySetUp {
    pub is_set_up: bool,
}

impl Default for GameAlreadySetUp {
    fn default() -> (flag: GameAlreadySetUp)
        ensures
            !flag.is_set_up,
    {
        GameAlreadySetUp { is_set_up: false }
    }
}

/// Calls `rand::Rng::gen_range` on `rand::thread_rng()` with the half-open
/// range `low..high`. The crate documents that the call panics on an empty
/// range and otherwise returns a value inside the range; nothing else is
/// claimed of the value, which differs from call to call.
#[verifier::external_body]
pub(crate) fn random_in_range(low: i64, high: i64) -> (drawn: i64)
    requires
        low < high,
    ensures
        low <= drawn < high,
{
    rand::thread_rng().gen_range(low..high)
}

/// Draws one of the tiers that may be spawned.
pub(crate) fn random_spawnable_fruit() -> (fruit: Fruit)
    ensures
        0 <= fruit@ < SPAWNABLE_TYPE_COUNT,
{
    let drawn: i64 = random_in_range(0, SPAWNABLE_TYPE_COUNT as i64);
    Fruit { tier: drawn as usize }
}

/// The fruit about to be spawned and the one after it.
#[derive(Clone, Copy, Debug, PartialEq, Eq, Structural)]
pub struct NextGenerator {
    pub current_fruit: Fruit,
    pub next_fruit: Fruit,
    pub should_update_previews: bool,
}

impl Default for NextGenerator {
    /// Both fruits are drawn at random from the spawnable tiers.
    fn default() -> (generator: NextGenerator)
        ensures
            0 <= generator.current_fruit@ < SPAWNABLE_TYPE_COUNT,
            0 <= generator.next_fruit@ < SPAWNABLE_TYPE_COUNT,
            !generator.should_update_previews,
    {
        let current_fruit = random_spawnable_fruit();
        let next_fruit = random_spawnable_fruit();
        NextGenerator { current_fruit, next_fruit, should_update_previews: false }
    }
}

impl NextGenerator {
    /// A generator that holds the two given fruits.
    pub fn from_fruits(current_fruit: Fruit, next_fruit: Fruit) -> (generator: NextGenerator)
        ensures
            generator == (NextGenerator {
                current_fruit,
                next_fruit,
                should_update_previews: false,
            }),
    {
        NextGenerator { current_fruit, next_fruit, should_update_previews: false }
    }

    /// Promotes the preview to the current fruit and takes `drawn` as the new
    /// preview.
    pub fn advance(&mut self, drawn: Fruit)
        ensures
            *final(self) == (NextGenerator {
                current_fruit: old(self).next_fruit,
                next_fruit: drawn,
                should_update_previews: true,
            }),
    {
        self.current_fruit = self.next_fruit;
        self.next_fruit = drawn;
        self.should_update_previews = true;
    }

    /// `advance` with a preview drawn at random from the spawnable tiers.
    pub fn next(&mut self)
        ensures
            final(self).current_fruit == old(self).next_fruit,
            0 <= final(self).next_fruit@ < SPAWNABLE_TYPE_COUNT,
            final(self).should_update_previews,
    {
        let drawn = random_spawnable_fruit();
        self.advance(drawn);
    }

    pub fn preview_updated(&mut self)
        ensures
            *final(self) == (NextGenerator { should_update_previews: false, ..*old(self) }),
    {
        self.should_update_previews = false;
    }
}

} // verus!
