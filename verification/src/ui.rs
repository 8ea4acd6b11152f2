//! Interaction-side state: the loop-geometry model that accumulates
//! gesture deltas and publishes snapshots, the waveform model that turns a
//! decoded track into display bins, and the help-text toggle.
//!
//! Rendering and event dispatch live outside this crate; these types hold
//! the state they read and mutate.

use vstd::prelude::*;
use vstd::string::StringExecFns;

use crate::decoder::{compress_samples, spec_bin_value, DecodeError, SAMPLE_LIMIT};
use crate::utils::{scale_values_to_unit_range, seq_max_val, seq_min_val, spec_clamp, COORD_LIMIT, UNIT};

verus! {

/// Number of display bins a track is compressed into.
pub const MAX_NUMBER_OF_SAMPLES_SHOWN: usize = 160;

/// Pixel ceiling (in micro-pixels) applied to the published height; the
/// stored accumulator itself is never clamped.
pub const HEIGHT_CLAMP_MAX: i64 = 360000000;

/// An immutable copy of the loop geometry sent across the thread boundary
/// after a mutation.  A `None` field means "no update this tick"; the
/// consumer substitutes the last value it knows.
pub struct GeometrySnapshot {
    pub loop_position: Option<i64>,
    pub square_height: Option<i64>,
    pub square_width: Option<i64>,
    pub window_width: Option<i64>,
}

impl GeometrySnapshot {
    /// Every carried field stays within the coordinate range the
    /// fixed-point conversions support.
    pub open spec fn wf(self) -> bool {
        &&& match self.loop_position {
            Some(v) => -COORD_LIMIT <= v <= COORD_LIMIT,
            None => true,
        }
        &&& match self.square_height {
            Some(v) => -COORD_LIMIT <= v <= COORD_LIMIT,
            None => true,
        }
        &&& match self.square_width {
            Some(v) => -COORD_LIMIT <= v <= COORD_LIMIT,
            None => true,
        }
        &&& match self.window_width {
            Some(v) => -COORD_LIMIT <= v <= COORD_LIMIT,
            None => true,
        }
    }
}

/// The loop region as the user drags it: a pixel offset and a pixel-sized
/// rectangle, all accumulated from gesture deltas in micro-pixels.
#[derive(Debug)]
pub struct Loop {
    pub loop_position: i64,
    pub square_height: i64,
    pub square_width: i64,
}

impl Loop {
    /// Accumulators stay within the supported coordinate range.
    pub open spec fn wf(self) -> bool {
        &&& -COORD_LIMIT <= self.loop_position <= COORD_LIMIT
        &&& -COORD_LIMIT <= self.square_height <= COORD_LIMIT
        &&& -COORD_LIMIT <= self.square_width <= COORD_LIMIT
    }

    /// Applies one gesture's deltas and returns the snapshot to publish:
    /// the position accumulates only when a delta is supplied, height and
    /// width always accumulate, and the published height is clamped into
    /// `[0, HEIGHT_CLAMP_MAX]` while the stored accumulator is not.
    pub fn change_loop(
        &mut self,
        loop_position: Option<i64>,
        square_height: i64,
        square_width: i64,
        windows_width: i64,
    ) -> (snap: GeometrySnapshot)
        requires
            old(self).wf(),
            -COORD_LIMIT <= windows_width <= COORD_LIMIT,
            match loop_position {
                Some(d) => -COORD_LIMIT <= old(self).loop_position + d <= COORD_LIMIT,
                None => true,
            },
            -COORD_LIMIT <= old(self).square_height + square_height <= COORD_LIMIT,
            -COORD_LIMIT <= old(self).square_width + square_width <= COORD_LIMIT,
        ensures
            final(self).loop_position == match loop_position {
                Some(d) => old(self).loop_position + d,
                None => old(self).loop_position as int,
            },
            final(self).square_height == old(self).square_height + square_height,
            final(self).square_width == old(self).square_width + square_width,
            final(self).wf(),
            snap.loop_position == Some(final(self).loop_position),
            snap.square_height == Some(
                spec_clamp(final(self).square_height as int, 0, HEIGHT_CLAMP_MAX as int) as i64,
            ),
            snap.square_width == Some(final(self).square_width),
            snap.window_width == Some(windows_width),
            snap.wf(),
    {
        if let Some(d) = loop_position {
            self.loop_position = self.loop_position + d;
        }
        self.square_width = self.square_width + square_width;
        self.square_height = self.square_height + square_height;
        let clamped_height: i64 = if self.square_height < 0 {
            0
        } else if self.square_height > HEIGHT_CLAMP_MAX {
            HEIGHT_CLAMP_MAX
        } else {
            self.square_height
        };
        GeometrySnapshot {
            loop_position: Some(self.loop_position),
            square_height: Some(clamped_height),
            square_width: Some(self.square_width),
            window_width: Some(windows_width),
        }
    }
}

/// The compressed form of a sample sequence: one rounded-down mean per
/// display bin.
pub open spec fn spec_compress(s: Seq<i64>, target: int) -> Seq<i64> {
    Seq::new(target as nat, |b: int| spec_bin_value(s, target, b) as i64)
}

/// The unit-range form of a bin sequence: empty when nothing varies,
/// otherwise each bin mapped into `[0, UNIT]`.
pub open spec fn spec_unit_range(s: Seq<i64>) -> Seq<i64> {
    if seq_min_val(s) >= seq_max_val(s) {
        Seq::<i64>::empty()
    } else {
        Seq::new(
            s.len(),
            |i: int|
                ((s[i] - seq_min_val(s)) * (UNIT as int) / (seq_max_val(s) - seq_min_val(s))) as i64,
        )
    }
}

/// The display-ready sequence for a track: compress to the configured bin
/// count, then normalize into the unit range.
pub open spec fn spec_visual(s: Seq<i64>) -> Seq<i64> {
    spec_unit_range(spec_compress(s, MAX_NUMBER_OF_SAMPLES_SHOWN as int))
}

/// A loaded track as the renderer sees it: the path it came from and its
/// display-ready bin sequence.
pub struct WaveformModel {
    pub path: String,
    pub samples: Option<Vec<i64>>,
}

impl WaveformModel {
    /// A decode that succeeded yields the visual pipeline of its samples;
    /// a failed one falls back to a single zero-valued placeholder bin.
    pub open spec fn samples_ok(self, decoded: Result<Vec<i64>, DecodeError>) -> bool {
        match self.samples {
            Some(v) => v@ == match decoded {
                Ok(s) => spec_visual(s@),
                Err(_) => seq![0i64],
            },
            None => false,
        }
    }

    /// Builds the model for a freshly decoded track.
    pub fn new(path: String, decoded: Result<Vec<i64>, DecodeError>) -> (r: Self)
        requires
            match decoded {
                Ok(s) => forall|i: int|
                    0 <= i < s@.len() ==> -SAMPLE_LIMIT <= #[trigger] s@[i] <= SAMPLE_LIMIT,
                Err(_) => true,
            },
        ensures
            r.path@ == path@,
            r.samples_ok(decoded),
    {
        let samples = Self::visual_samples(&decoded);
        WaveformModel { path, samples: Some(samples) }
    }

    /// Re-runs the pipeline for a newly dropped file, replacing the path
    /// and the bin sequence.
    pub fn update_samples(&mut self, path: String, decoded: Result<Vec<i64>, DecodeError>)
        requires
            match decoded {
                Ok(s) => forall|i: int|
                    0 <= i < s@.len() ==> -SAMPLE_LIMIT <= #[trigger] s@[i] <= SAMPLE_LIMIT,
                Err(_) => true,
            },
        ensures
            final(self).path@ == path@,
            final(self).samples_ok(decoded),
    {
        let samples = Self::visual_samples(&decoded);
        self.path = path;
        self.samples = Some(samples);
    }

    /// The shared pipeline body: compress and normalize on success, the
    /// placeholder bin on failure.
    fn visual_samples(decoded: &Result<Vec<i64>, DecodeError>) -> (r: Vec<i64>)
        requires
            match decoded {
                Ok(s) => forall|i: int|
                    0 <= i < s@.len() ==> -SAMPLE_LIMIT <= #[trigger] s@[i] <= SAMPLE_LIMIT,
                Err(_) => true,
            },
        ensures
            r@ == match decoded {
                Ok(s) => spec_visual(s@),
                Err(_) => seq![0i64],
            },
    {
        match decoded {
            Ok(s) => {
                let compressed = compress_samples(s.as_slice(), MAX_NUMBER_OF_SAMPLES_SHOWN);
                let scaled = scale_values_to_unit_range(compressed);
                proof {
                    let ghost c = spec_compress(s@, MAX_NUMBER_OF_SAMPLES_SHOWN as int);
                    assert(compressed@ =~= c);
                    if seq_min_val(c) >= seq_max_val(c) {
                        assert(scaled@ =~= spec_unit_range(c));
                    } else {
                        assert(scaled@ =~= spec_unit_range(c));
                    }
                }
                scaled
            },
            Err(_) => {
                let mut v: Vec<i64> = Vec::new();
                v.push(0i64);
                proof {
                    assert(v@ =~= seq![0i64]);
                }
                v
            },
        }
    }
}

/// The toggleable help overlay text.
#[derive(Debug, Clone)]
pub struct Help {
    pub text: String,
    pub is_shown: bool,
}

impl Help {
    /// Flips the overlay: showing it installs the gesture legend, hiding
    /// it clears the text.
    pub fn show_help(&mut self)
        ensures
            final(self).is_shown == !old(self).is_shown,
            final(self).is_shown ==> final(self).text@ == (
            "      [ H-SCROLL ]\n       loop position\n[ CTRL+V-SCROLL ]\n         loop size\n  [ ALT+V-SCROLL ]\n    pitch adjustment")@,
            !final(self).is_shown ==> final(self).text@ == ("")@,
    {
        self.is_shown = !self.is_shown;
        if self.is_shown {
            self.text = String::from_str(
                "      [ H-SCROLL ]\n       loop position\n[ CTRL+V-SCROLL ]\n         loop size\n  [ ALT+V-SCROLL ]\n    pitch adjustment",
            );
        } else {
            self.text = String::from_str("");
        }
    }
}

} // verus!
