//! Stream formats and the ranges of formats that a device accepts.

use vstd::prelude::*;

verus! {

/// The sample rate, in hertz, that a pipeline runs at when both devices allow it.
pub const PREFERRED_SAMPLE_RATE: u32 = 48000;

/// The format of one audio stream: interleaved samples of `channels` channels
/// at `sample_rate` frames per second.
#[derive(Clone, Copy, Debug, PartialEq, Eq, Structural)]
pub struct StreamFormat {
    pub sample_rate: u32,
    pub channels: u16,
}

/// A range of formats that a device accepts in one direction: a channel
/// count, and every sample rate from `min_rate` to `max_rate`, both included.
/// `float_samples` says whether the device takes the samples of the range as
/// floating-point numbers of 32 bits, the one kind the pipeline carries.
#[derive(Clone, Copy, Debug, PartialEq, Eq, Structural)]
pub struct FormatRange {
    pub channels: u16,
    pub min_rate: u32,
    pub max_rate: u32,
    pub float_samples: bool,
}

impl StreamFormat {
    /// A format that a stream can run at has a channel and a positive rate.
    pub open spec fn valid(self) -> bool {
        self.channels > 0 && self.sample_rate > 0
    }
}

impl FormatRange {
    /// Whether the range holds the format `f`, for the pipeline's samples.
    pub open spec fn supports(self, f: StreamFormat) -> bool {
        &&& self.float_samples
        &&& self.channels == f.channels
        &&& self.min_rate <= f.sample_rate <= self.max_rate
    }

    /// Whether the range holds the format `f`, for the pipeline's samples.
    pub fn accepts(&self, f: &StreamFormat) -> (b: bool)
        ensures
            b == self.supports(*f),
    {
        self.float_samples && self.channels == f.channels && self.min_rate <= f.sample_rate
            && f.sample_rate <= self.max_rate
    }
}

/// The lowest positive rate that both ranges reach from below.
pub open spec fn lowest_common_rate(a: FormatRange, b: FormatRange) -> int {
    let lo = if a.min_rate >= b.min_rate {
        a.min_rate
    } else {
        b.min_rate
    };
    if lo == 0 {
        1
    } else {
        lo as int
    }
}

/// The highest rate that both ranges reach from above.
pub open spec fn highest_common_rate(a: FormatRange, b: FormatRange) -> int {
    if a.max_rate <= b.max_rate {
        a.max_rate as int
    } else {
        b.max_rate as int
    }
}

/// Two ranges overlap when both carry the pipeline's samples, have the same
/// positive channel count and share a positive sample rate.
pub open spec fn overlap(a: FormatRange, b: FormatRange) -> bool {
    &&& a.float_samples && b.float_samples
    &&& a.channels == b.channels
    &&& a.channels > 0
    &&& lowest_common_rate(a, b) <= highest_common_rate(a, b)
}

/// The rate in `[lo, hi]` that lies nearest to `want`.
pub open spec fn nearest_rate(want: int, lo: int, hi: int) -> int {
    if want < lo {
        lo
    } else if want > hi {
        hi
    } else {
        want
    }
}

/// The format that two overlapping ranges agree on: their channel count, at
/// the common rate nearest to the preferred one.
pub open spec fn agreed_format(a: FormatRange, b: FormatRange) -> StreamFormat {
    StreamFormat {
        sample_rate: nearest_rate(
            PREFERRED_SAMPLE_RATE as int,
            lowest_common_rate(a, b),
            highest_common_rate(a, b),
        ) as u32,
        channels: a.channels,
    }
}

/// The format that the two ranges agree on, if they overlap.
pub fn agree(a: &FormatRange, b: &FormatRange) -> (r: Option<StreamFormat>)
    ensures
        r == (if overlap(*a, *b) {
            Some(agreed_format(*a, *b))
        } else {
            None
        }),
{
    if !a.float_samples || !b.float_samples || a.channels != b.channels || a.channels == 0 {
        return None;
    }
    let floor: u32 = if a.min_rate >= b.min_rate {
        a.min_rate
    } else {
        b.min_rate
    };
    let lo: u32 = if floor == 0 {
        1
    } else {
        floor
    };
    let hi: u32 = if a.max_rate <= b.max_rate {
        a.max_rate
    } else {
        b.max_rate
    };
    if lo > hi {
        return None;
    }
    let rate: u32 = if PREFERRED_SAMPLE_RATE < lo {
        lo
    } else if PREFERRED_SAMPLE_RATE > hi {
        hi
    } else {
        PREFERRED_SAMPLE_RATE
    };
    Some(StreamFormat { sample_rate: rate, channels: a.channels })
}

/// Two ranges overlap exactly when some valid format lies in both, and the
/// format they then agree on is such a format.
pub proof fn lemma_overlap_is_common_format(a: FormatRange, b: FormatRange)
    ensures
        overlap(a, b) <==> exists|f: StreamFormat|
            f.valid() && #[trigger] a.supports(f) && b.supports(f),
        overlap(a, b) ==> agreed_format(a, b).valid() && a.supports(agreed_format(a, b))
            && b.supports(agreed_format(a, b)),
{
    if overlap(a, b) {
        let f = agreed_format(a, b);
        assert(f.valid() && a.supports(f) && b.supports(f));
    }
}

} // verus!
