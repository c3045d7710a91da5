//! Shared per-frame resources: the ground chain state, scores and settings.

use vstd::prelude::*;

verus! {

/// The ground chain state: the single source of truth for which platform is
/// "hot". `previous_ground` holds the chain's prior current ground at the
/// moment of the last advance, `next_ground` the at-most-one platform spawned
/// ahead of the current one. Grounds are identified by the opaque integer
/// handles of the entity store.
#[derive(Clone, Copy, Debug, PartialEq, Eq, Structural)]
pub struct GroundsResource {
    pub previous_ground: Option<u64>,
    pub current_ground: Option<u64>,
    pub next_ground: Option<u64>,
}

impl GroundsResource {
    /// The empty chain: no platform is known yet.
    pub open spec fn spec_default() -> GroundsResource {
        GroundsResource { previous_ground: None, current_ground: None, next_ground: None }
    }

    /// The chain never points at the same ground with `current_ground` and
    /// `next_ground` at the same time.
    pub open spec fn chain_ok(self) -> bool {
        self.next_ground is Some ==> self.next_ground != self.current_ground
    }

    /// Advancing the chain onto `active`: the prior current ground becomes the
    /// previous one and any pending next ground is forgotten.
    pub open spec fn spec_advance(self, active: u64) -> GroundsResource {
        GroundsResource {
            previous_ground: self.current_ground,
            current_ground: Some(active),
            next_ground: None,
        }
    }
}

impl Default for GroundsResource {
    /// The default chain is the empty chain.
    fn default() -> (r: GroundsResource)
        ensures
            r == GroundsResource::spec_default(),
    {
        GroundsResource { previous_ground: None, current_ground: None, next_ground: None }
    }
}

/// The live score record: survival time and platforms passed. The stopwatch
/// holds the elapsed play time in milliseconds once started.
#[derive(Clone, Copy, Debug, PartialEq, Eq, Structural)]
pub struct ScoresResource {
    pub stopwatch: Option<u64>,
    pub grounds_passed: u64,
}

impl ScoresResource {
    /// A score record before play begins: no stopwatch, nothing passed.
    pub open spec fn spec_default() -> ScoresResource {
        ScoresResource { stopwatch: None, grounds_passed: 0 }
    }
}

impl Default for ScoresResource {
    fn default() -> (r: ScoresResource)
        ensures
            r == ScoresResource::spec_default(),
    {
        ScoresResource { stopwatch: None, grounds_passed: 0 }
    }
}

/// The archive of finished runs, most recent last.
#[derive(Clone, Debug)]
pub struct PreviousScoresRes(pub Vec<ScoresResource>);

impl Default for PreviousScoresRes {
    /// The archive starts empty.
    fn default() -> (r: PreviousScoresRes)
        ensures
            r.0@ == Seq::<ScoresResource>::empty(),
    {
        let r = PreviousScoresRes(Vec::new());
        proof {
            assert(r.0@ =~= Seq::<ScoresResource>::empty());
        }
        r
    }
}

/// Player-tunable settings. The wall rotation sensitivity is the yaw step,
/// in microradians, that one frame of held rotate input adds to the pending
/// wall's angle.
#[derive(Clone, Copy, Debug, PartialEq, Eq, Structural)]
pub struct SettingsResource {
    pub rotation_sensitivity: u32,
}

impl Default for SettingsResource {
    /// Fifty millionths of a radian of yaw per frame of held input.
    fn default() -> (r: SettingsResource)
        ensures
            r == (SettingsResource { rotation_sensitivity: 50000u32 }),
    {
        SettingsResource { rotation_sensitivity: 50000 }
    }
}

} // verus!
