//! How an observed mpv property changes the playstate the controller keeps.
use vstd::prelude::*;

use crate::model::{str_eq, ReportingState};

verus! {

/// A property value as the controller reads it: as ticks (a number of
/// seconds converted), as a rounded whole number, and as a flag; each
/// absent when the value is not of that kind.
#[derive(Debug, Clone, Copy, PartialEq, Eq)]
pub struct PropertyData {
    pub ticks: Option<i64>,
    pub rounded: Option<i64>,
    pub flag: Option<bool>,
}

/// What the controller does after a property change.
#[derive(Debug, Clone, Copy, PartialEq, Eq)]
pub enum PropertyEffect {
    /// Nothing changed.
    Ignored,
    /// The playstate changed and the snapshot is published.
    Published,
    /// The playstate changed without a new snapshot.
    Updated,
    /// mpv reported a position; the controller decides whether to take it.
    PositionSample(i64),
    /// mpv started or finished seeking.
    Seeking(bool),
}

/// The state and the effect after property `name` changed to `data`.
pub open spec fn apply_property_spec(s: ReportingState, name: Seq<char>, data: PropertyData) -> (ReportingState, PropertyEffect) {
    if name == "time-pos"@ || name == "playback-time"@ {
        match data.ticks {
            Some(t) => (s, PropertyEffect::PositionSample(t)),
            None => (s, PropertyEffect::Ignored),
        }
    } else if name == "pause"@ {
        match data.flag {
            Some(b) => (ReportingState { pause: b, ..s }, PropertyEffect::Published),
            None => (s, PropertyEffect::Ignored),
        }
    } else if name == "duration"@ {
        (ReportingState { duration_ticks: data.ticks, ..s }, PropertyEffect::Published)
    } else if name == "volume"@ {
        (ReportingState { volume: data.rounded, ..s }, PropertyEffect::Published)
    } else if name == "mute"@ {
        (ReportingState { mute: data.flag, ..s }, PropertyEffect::Published)
    } else if name == "eof-reached"@ {
        (
            ReportingState {
                eof_reached: match data.flag {
                    Some(b) => b,
                    None => false,
                },
                ..s
            },
            PropertyEffect::Updated,
        )
    } else if name == "seeking"@ {
        match data.flag {
            Some(b) => (s, PropertyEffect::Seeking(b)),
            None => (s, PropertyEffect::Ignored),
        }
    } else {
        (s, PropertyEffect::Ignored)
    }
}

impl ReportingState {
    /// Takes in a change of mpv property `name` to `data`; positions are
    /// handed back for the controller to accept.
    pub fn apply_property(&mut self, name: &str, data: PropertyData) -> (r: PropertyEffect)
        ensures
            (*final(self), r) == apply_property_spec(*old(self), name@, data),
    {
        if str_eq(name, "time-pos") || str_eq(name, "playback-time") {
            match data.ticks {
                Some(t) => PropertyEffect::PositionSample(t),
                None => PropertyEffect::Ignored,
            }
        } else if str_eq(name, "pause") {
            match data.flag {
                Some(b) => {
                    self.pause = b;
                    PropertyEffect::Published
                },
                None => PropertyEffect::Ignored,
            }
        } else if str_eq(name, "duration") {
            self.duration_ticks = data.ticks;
            PropertyEffect::Published
        } else if str_eq(name, "volume") {
            self.volume = data.rounded;
            PropertyEffect::Published
        } else if str_eq(name, "mute") {
            self.mute = data.flag;
            PropertyEffect::Published
        } else if str_eq(name, "eof-reached") {
            self.eof_reached = match data.flag {
                Some(b) => b,
                None => false,
            };
            PropertyEffect::Updated
        } else if str_eq(name, "seeking") {
            match data.flag {
                Some(b) => PropertyEffect::Seeking(b),
                None => PropertyEffect::Ignored,
            }
        } else {
            PropertyEffect::Ignored
        }
    }

    /// Takes a position the controller accepted; returns the previous one.
    pub fn record_position(&mut self, ticks: i64) -> (previous: i64)
        ensures
            previous == old(self).position_ticks,
            *final(self) == (ReportingState { position_ticks: ticks, ..*old(self) }),
    {
        let previous = self.position_ticks;
        self.position_ticks = ticks;
        previous
    }
}

/// A position report never changes the playstate by itself; every other
/// property changes at most its own field.
pub proof fn law_property_touches_its_own_field(s: ReportingState, name: Seq<char>, data: PropertyData)
    ensures
        apply_property_spec(s, name, data).0.position_ticks == s.position_ticks,
        apply_property_spec(s, name, data).1 matches PropertyEffect::PositionSample(_) ==> apply_property_spec(
            s,
            name,
            data,
        ).0 == s,
{
}

/// mpv's reported duration is recorded as it came, and nothing else
/// changes; the pause flag, the volume and the mute flag are recorded the
/// same way; no property moves the position, which is only handed back to
/// the controller; and only the duration property touches the duration.
pub proof fn law_property_records_its_field(s: ReportingState, name: Seq<char>, data: PropertyData)
    ensures
        ({
            let (n, e) = apply_property_spec(s, name, data);
            &&& n.position_ticks == s.position_ticks
            &&& name == "duration"@ ==> n.duration_ticks == data.ticks && n.pause == s.pause && n.volume
                == s.volume && n.mute == s.mute && n.eof_reached == s.eof_reached && e == PropertyEffect::Published
            &&& name != "duration"@ ==> n.duration_ticks == s.duration_ticks
            &&& name == "volume"@ ==> n.volume == data.rounded
            &&& name == "mute"@ ==> n.mute == data.flag
            &&& (name == "pause"@ && data.flag is Some) ==> n.pause == data.flag->0
            &&& (name == "time-pos"@ && data.ticks is Some) ==> e == PropertyEffect::PositionSample(
                data.ticks->0,
            )
        }),
{
    reveal_strlit("duration");
    reveal_strlit("time-pos");
    reveal_strlit("playback-time");
    reveal_strlit("pause");
    reveal_strlit("volume");
    reveal_strlit("mute");
    reveal_strlit("eof-reached");
    reveal_strlit("seeking");
    assert("duration"@[0] != "time-pos"@[0]);
    assert("volume"@[0] != "seeking"@[0]);
    assert("pause"@.len() == 5 && "mute"@.len() == 4);
    assert("pause"@ != "mute"@);
    assert("duration"@ != "time-pos"@);
    assert("duration"@ != "playback-time"@);
    assert("duration"@ != "pause"@);
    assert("volume"@ != "time-pos"@ && "volume"@ != "playback-time"@ && "volume"@ != "pause"@
        && "volume"@ != "duration"@);
    assert("mute"@ != "time-pos"@ && "mute"@ != "playback-time"@ && "mute"@ != "pause"@
        && "mute"@ != "duration"@ && "mute"@ != "volume"@);
    assert("pause"@ != "time-pos"@ && "pause"@ != "playback-time"@);
}

} // verus!
