//! The loop controller: the decision core of the audio command thread.
//!
//! The thread itself — polling the two channels on a fixed cadence and
//! handing commands to the audio engine — lives outside this crate.  Each
//! received snapshot is fed to `apply_snapshot`, which resolves missing
//! fields against the last-applied values, converts pixel geometry into
//! playback seconds and a pitch factor, applies change detection and the
//! end-of-track guard, and either returns the three ramped commands to
//! issue or decides that the cycle stays silent.

use vstd::prelude::*;

use crate::ui::GeometrySnapshot;
use crate::utils::{scale_value, spec_max, spec_scale, COORD_LIMIT};

verus! {

/// Minimum enforceable loop length in micro-seconds: an upper bound closer
/// to the lower bound than this is raised, preventing degenerate loops
/// that would stall or click the audio engine.
pub const SMALLEST_LOOP_UPPER_BOUND: i64 = 8000;

/// Ramp duration of every issued command, in micro-seconds.
pub const COMMAND_DURATION: i64 = 100000;

/// Pixel range (in micro-pixels) that spans the whole pitch scale.
pub const PITCH_INPUT_MAX: i64 = 1024000000;

/// Top of the pitch scale: a playback-rate factor of 8, in micro-units.
pub const PITCH_OUTPUT_MAX: i64 = 8000000;

/// The easing curve a command ramps with.
pub enum Easing {
    ExpoOut,
}

/// What a playback command changes: the play position (micro-seconds),
/// the loop region (micro-seconds), or the playback-rate factor
/// (micro-units).
pub enum PlaybackChange {
    Position(i64),
    LoopRegion { lower: i64, upper: i64 },
    PlaybackRate(i64),
}

/// One ramped transition handed to the audio engine: a target, an easing
/// curve, and the ramp's start offset and duration in micro-seconds.
pub struct PlaybackCommand {
    pub change: PlaybackChange,
    pub easing: Easing,
    pub start: i64,
    pub duration: i64,
}

/// The three commands one accepted snapshot produces.
pub struct CommandBatch {
    pub position: PlaybackCommand,
    pub loop_region: PlaybackCommand,
    pub pitch: PlaybackCommand,
}

/// Controller state between cycles: the current track's duration in
/// micro-seconds and the last-applied geometry in micro-pixels.
pub struct LoopController {
    pub track_duration: i64,
    pub prev_position: i64,
    pub prev_height: i64,
    pub prev_width: i64,
    pub prev_window_width: i64,
}

impl LoopController {
    /// All state stays within the supported coordinate range.
    pub open spec fn wf(self) -> bool {
        &&& 0 <= self.track_duration <= COORD_LIMIT
        &&& -COORD_LIMIT <= self.prev_position <= COORD_LIMIT
        &&& -COORD_LIMIT <= self.prev_height <= COORD_LIMIT
        &&& -COORD_LIMIT <= self.prev_width <= COORD_LIMIT
        &&& -COORD_LIMIT <= self.prev_window_width <= COORD_LIMIT
    }

    /// The snapshot's position, or the last-applied one when absent.
    pub open spec fn res_position(self, snap: GeometrySnapshot) -> int {
        match snap.loop_position {
            Some(v) => v as int,
            None => self.prev_position as int,
        }
    }

    /// The snapshot's height, or the last-applied one when absent.
    pub open spec fn res_height(self, snap: GeometrySnapshot) -> int {
        match snap.square_height {
            Some(v) => v as int,
            None => self.prev_height as int,
        }
    }

    /// The snapshot's width, or the last-applied one when absent.
    pub open spec fn res_width(self, snap: GeometrySnapshot) -> int {
        match snap.square_width {
            Some(v) => v as int,
            None => self.prev_width as int,
        }
    }

    /// The snapshot's window width, or the last-known one when absent.
    pub open spec fn res_window_width(self, snap: GeometrySnapshot) -> int {
        match snap.window_width {
            Some(v) => v as int,
            None => self.prev_window_width as int,
        }
    }

    /// The resolved position converted from pixels into track seconds.
    pub open spec fn scaled_position(self, snap: GeometrySnapshot) -> int {
        spec_scale(
            self.res_position(snap),
            0,
            self.res_window_width(snap),
            0,
            self.track_duration as int,
        )
    }

    /// The loop's lower bound: the scaled position, floored at zero.
    pub open spec fn lower_bound(self, snap: GeometrySnapshot) -> int {
        spec_max(self.scaled_position(snap), 0)
    }

    /// The loop's upper bound: the lower bound plus the scaled width,
    /// floored at the minimum enforceable loop length.
    pub open spec fn upper_bound(self, snap: GeometrySnapshot) -> int {
        spec_max(
            self.lower_bound(snap) + spec_scale(
                self.res_width(snap),
                0,
                self.res_window_width(snap),
                0,
                self.track_duration as int,
            ),
            self.lower_bound(snap) + SMALLEST_LOOP_UPPER_BOUND,
        )
    }

    /// The resolved height converted into a playback-rate factor.
    pub open spec fn pitch_factor(self, snap: GeometrySnapshot) -> int {
        spec_scale(
            self.res_height(snap),
            0,
            PITCH_INPUT_MAX as int,
            0,
            PITCH_OUTPUT_MAX as int,
        )
    }

    /// Change detection: some resolved field both differs from its
    /// last-applied value and is non-zero.
    pub open spec fn triggered(self, snap: GeometrySnapshot) -> bool {
        ||| (self.res_position(snap) != self.prev_position && self.res_position(snap) != 0)
        ||| (self.res_width(snap) != self.prev_width && self.res_width(snap) != 0)
        ||| (self.res_height(snap) != self.prev_height && self.res_height(snap) != 0)
    }

    /// Whether a snapshot produces commands: it must trigger change
    /// detection, the window must have positive width to convert against,
    /// and looping past the end of the track is silently suppressed.
    pub open spec fn issues(self, snap: GeometrySnapshot) -> bool {
        &&& self.triggered(snap)
        &&& self.res_window_width(snap) > 0
        &&& self.scaled_position(snap) < self.track_duration
    }

    /// The state after one snapshot: the window width is always the last
    /// known, while the geometry fields become last-applied only when
    /// commands were issued.
    pub open spec fn step(self, snap: GeometrySnapshot) -> LoopController {
        LoopController {
            track_duration: self.track_duration,
            prev_position: if self.issues(snap) {
                self.res_position(snap) as i64
            } else {
                self.prev_position
            },
            prev_height: if self.issues(snap) {
                self.res_height(snap) as i64
            } else {
                self.prev_height
            },
            prev_width: if self.issues(snap) {
                self.res_width(snap) as i64
            } else {
                self.prev_width
            },
            prev_window_width: self.res_window_width(snap) as i64,
        }
    }

    /// The three commands an accepted snapshot produces, each ramped over
    /// `COMMAND_DURATION` with the exponential-out curve.
    pub open spec fn command_batch(self, snap: GeometrySnapshot) -> CommandBatch {
        CommandBatch {
            position: PlaybackCommand {
                change: PlaybackChange::Position(self.lower_bound(snap) as i64),
                easing: Easing::ExpoOut,
                start: 0,
                duration: COMMAND_DURATION,
            },
            loop_region: PlaybackCommand {
                change: PlaybackChange::LoopRegion {
                    lower: self.lower_bound(snap) as i64,
                    upper: self.upper_bound(snap) as i64,
                },
                easing: Easing::ExpoOut,
                start: 0,
                duration: COMMAND_DURATION,
            },
            pitch: PlaybackCommand {
                change: PlaybackChange::PlaybackRate(self.pitch_factor(snap) as i64),
                easing: Easing::ExpoOut,
                start: 0,
                duration: COMMAND_DURATION,
            },
        }
    }

    /// A fresh controller for a track: no geometry applied yet.
    pub fn new(track_duration: i64) -> (r: Self)
        requires
            0 <= track_duration <= COORD_LIMIT,
        ensures
            r == (LoopController {
                track_duration,
                prev_position: 0i64,
                prev_height: 0i64,
                prev_width: 0i64,
                prev_window_width: 0i64,
            }),
            r.wf(),
    {
        LoopController {
            track_duration,
            prev_position: 0,
            prev_height: 0,
            prev_width: 0,
            prev_window_width: 0,
        }
    }

    /// Replaces the playing track: the duration changes, the accumulated
    /// geometry is preserved.
    pub fn swap_track(&mut self, track_duration: i64)
        requires
            old(self).wf(),
            0 <= track_duration <= COORD_LIMIT,
        ensures
            *final(self) == (LoopController { track_duration, ..*old(self) }),
            final(self).wf(),
    {
        self.track_duration = track_duration;
    }

    /// One controller cycle's decision for a received snapshot: the state
    /// advances by `step`, and commands come back exactly when the
    /// snapshot `issues`, in which case they are the `command_batch` and
    /// the loop region is never shorter than the enforced minimum.
    pub fn apply_snapshot(&mut self, snap: GeometrySnapshot) -> (r: Option<CommandBatch>)
        requires
            old(self).wf(),
            snap.wf(),
        ensures
            *final(self) == old(self).step(snap),
            final(self).wf(),
            r is Some <==> old(self).issues(snap),
            match r {
                Some(batch) => batch == old(self).command_batch(snap),
                None => true,
            },
            old(self).upper_bound(snap) >= old(self).lower_bound(snap)
                + SMALLEST_LOOP_UPPER_BOUND,
    {
        let pos: i64 = match snap.loop_position {
            Some(v) => v,
            None => self.prev_position,
        };
        let height: i64 = match snap.square_height {
            Some(v) => v,
            None => self.prev_height,
        };
        let width: i64 = match snap.square_width {
            Some(v) => v,
            None => self.prev_width,
        };
        let ww: i64 = match snap.window_width {
            Some(v) => v,
            None => self.prev_window_width,
        };
        let triggered: bool = (pos != self.prev_position && pos != 0) || (width
            != self.prev_width && width != 0) || (height != self.prev_height && height != 0);
        let mut result: Option<CommandBatch> = None;
        if triggered && ww > 0 {
            let scaled: i64 = scale_value(pos, (0, ww), (0, self.track_duration));
            if scaled < self.track_duration {
                let lower: i64 = if scaled >= 0 {
                    scaled
                } else {
                    0
                };
                let scaled_width: i64 = scale_value(width, (0, ww), (0, self.track_duration));
                let raw_upper: i64 = lower + scaled_width;
                let floor_upper: i64 = lower + SMALLEST_LOOP_UPPER_BOUND;
                let upper: i64 = if raw_upper >= floor_upper {
                    raw_upper
                } else {
                    floor_upper
                };
                let pitch: i64 = scale_value(height, (0, PITCH_INPUT_MAX), (0, PITCH_OUTPUT_MAX));
                self.prev_position = pos;
                self.prev_height = height;
                self.prev_width = width;
                result = Some(
                    CommandBatch {
                        position: PlaybackCommand {
                            change: PlaybackChange::Position(lower),
                            easing: Easing::ExpoOut,
                            start: 0,
                            duration: COMMAND_DURATION,
                        },
                        loop_region: PlaybackCommand {
                            change: PlaybackChange::LoopRegion { lower, upper },
                            easing: Easing::ExpoOut,
                            start: 0,
                            duration: COMMAND_DURATION,
                        },
                        pitch: PlaybackCommand {
                            change: PlaybackChange::PlaybackRate(pitch),
                            easing: Easing::ExpoOut,
                            start: 0,
                            duration: COMMAND_DURATION,
                        },
                    },
                );
            }
        }
        self.prev_window_width = ww;
        result
    }
}

/// Change-detection law: once a snapshot has produced commands, feeding
/// the very same snapshot to the advanced controller produces none — every
/// resolved field now equals its last-applied value.
pub proof fn lemma_identical_snapshot_suppressed(s: LoopController, snap: GeometrySnapshot)
    requires
        s.issues(snap),
    ensures
        !s.step(snap).issues(snap),
{
    let s2 = s.step(snap);
    assert(s2.prev_position == s.res_position(snap));
    assert(s2.prev_height == s.res_height(snap));
    assert(s2.prev_width == s.res_width(snap));
    assert(!s2.triggered(snap));
}

} // verus!
