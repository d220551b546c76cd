//! The pipeline controller: whether two selected devices can run one stream
//! format, the plan of a pipeline over them, and the state machine that goes
//! from idle to running and back. Opening and closing the device streams is
//! the caller's work; the controller decides and keeps the state.

use crate::catalog::{DeviceInfo, DeviceInfoView};
use crate::format::{agree, agreed_format, lemma_overlap_is_common_format, overlap};
use crate::format::{FormatRange, StreamFormat};
use vstd::prelude::*;

verus! {

/// The span of audio, in milliseconds, that the bridge of a pipeline holds.
pub const BRIDGE_SPAN_MS: u64 = 100;

/// Why a pipeline did not start.
#[derive(Clone, Copy, Debug, PartialEq, Eq, Structural)]
pub enum PipelineError {
    /// A device is not selected or cannot be opened.
    DeviceUnavailable,
    /// The two devices share no sample rate and channel count.
    FormatMismatch,
}

/// What a pipeline is built from: the format of both streams and the number
/// of samples that its bridge holds.
#[derive(Clone, Copy, Debug, PartialEq, Eq, Structural)]
pub struct StreamPlan {
    pub format: StreamFormat,
    pub bridge_capacity: usize,
}

/// The state of the controller.
#[derive(Clone, Copy, Debug, PartialEq, Eq, Structural)]
pub enum PipelineState {
    Idle,
    Running(StreamPlan),
}

/// What the caller has to do after the controller has decided.
#[derive(Clone, Copy, Debug, PartialEq, Eq, Structural)]
pub enum PipelineAction {
    /// Build a fresh bridge and limiter and open both streams to this plan.
    Open(StreamPlan),
    /// Close both streams and discard the bridge and the limiter.
    Close,
    /// Nothing was started; tell the user why.
    Report(PipelineError),
}

/// The frames that the bridge holds at `sample_rate`: those of the bridge
/// span, and one at least.
pub open spec fn bridge_frames(sample_rate: u32) -> nat {
    let frames = sample_rate as nat * BRIDGE_SPAN_MS as nat / 1000;
    if frames == 0 {
        1
    } else {
        frames
    }
}

/// The samples that the bridge of a pipeline of format `f` holds: whole
/// frames of the bridge span, as far as the machine can count them.
pub open spec fn bridge_samples(f: StreamFormat) -> nat {
    let samples = bridge_frames(f.sample_rate) * f.channels as nat;
    if samples <= usize::MAX {
        samples
    } else {
        usize::MAX as nat
    }
}

impl StreamPlan {
    /// A plan runs a valid format over a bridge of the size that goes with it.
    pub open spec fn valid(self) -> bool {
        self.format.valid() && self.bridge_capacity == bridge_samples(self.format)
    }

    /// The plan of a pipeline of format `format`.
    pub fn for_format(format: StreamFormat) -> (plan: StreamPlan)
        ensures
            plan.format == format,
            plan.bridge_capacity == bridge_samples(format),
    {
        let scaled: u64 = format.sample_rate as u64 * BRIDGE_SPAN_MS / 1000;
        let frames: u64 = if scaled == 0 {
            1
        } else {
            scaled
        };
        assert(frames * (format.channels as u64) <= 0x1_0000_0000 * 0x1_0000) by (nonlinear_arith)
            requires
                frames <= 0x1_0000_0000,
                format.channels as u64 <= 0x1_0000,
        ;
        let samples: u64 = frames * (format.channels as u64);
        let bridge_capacity: usize = if samples <= usize::MAX as u64 {
            samples as usize
        } else {
            usize::MAX
        };
        StreamPlan { format, bridge_capacity }
    }
}

/// The bridge of a valid plan holds at least one sample, and whole frames
/// wherever the machine can count them all.
pub proof fn lemma_bridge_holds_whole_frames(f: StreamFormat)
    requires
        f.valid(),
    ensures
        bridge_samples(f) > 0,
        bridge_frames(f.sample_rate) * f.channels <= usize::MAX ==> bridge_samples(f)
            % f.channels as nat == 0,
{
    let frames = bridge_frames(f.sample_rate) as int;
    let channels = f.channels as int;
    assert(frames * channels > 0 && (frames * channels) % channels == 0) by (nonlinear_arith)
        requires
            frames > 0,
            channels > 0,
    ;
}

/// Whether the two devices share a format: a valid one that the first
/// captures and the second plays.
pub open spec fn have_common_format(input: DeviceInfoView, output: DeviceInfoView) -> bool {
    exists|f: StreamFormat| f.valid() && #[trigger] input.captures(f) && output.plays(f)
}

/// Whether `(i, j)` is the first pair, going through the capture ranges in
/// order and for each through the playback ranges in order, of ranges that
/// overlap.
pub open spec fn is_first_overlap(
    inputs: Seq<FormatRange>,
    outputs: Seq<FormatRange>,
    i: int,
    j: int,
) -> bool {
    &&& 0 <= i < inputs.len()
    &&& 0 <= j < outputs.len()
    &&& overlap(inputs[i], outputs[j])
    &&& forall|k: int, l: int|
        0 <= k < inputs.len() && 0 <= l < outputs.len() && (k < i || (k == i && l < j))
            ==> !overlap(#[trigger] inputs[k], #[trigger] outputs[l])
}

/// Whether `f` is the format that the two devices settle on: the format
/// agreed on by the first pair of their ranges that overlap.
pub open spec fn is_negotiated(
    input: DeviceInfoView,
    output: DeviceInfoView,
    f: StreamFormat,
) -> bool {
    exists|i: int, j: int|
        #![trigger input.inputs[i], output.outputs[j]]
        is_first_overlap(input.inputs, output.outputs, i, j) && f == agreed_format(
            input.inputs[i],
            output.outputs[j],
        )
}

/// The format that a capture device and a playback device settle on, or
/// `FormatMismatch` where they share none. No resampling is done: a format
/// is shared only if both devices run it as it is.
pub fn negotiate(input: &DeviceInfo, output: &DeviceInfo) -> (r: Result<
    StreamFormat,
    PipelineError,
>)
    ensures
        r is Ok <==> have_common_format(input@, output@),
        r matches Ok(f) ==> is_negotiated(input@, output@, f) && f.valid() && input@.captures(f)
            && output@.plays(f),
        r matches Err(e) ==> e == PipelineError::FormatMismatch,
{
    let mut i: usize = 0;
    while i < input.inputs.len()
        invariant
            i <= input.inputs@.len(),
            forall|k: int, l: int|
                0 <= k < i && 0 <= l < output.outputs@.len() ==> !overlap(
                    #[trigger] input.inputs@[k],
                    #[trigger] output.outputs@[l],
                ),
        decreases input.inputs@.len() - i,
    {
        let mut j: usize = 0;
        while j < output.outputs.len()
            invariant
                i < input.inputs@.len(),
                j <= output.outputs@.len(),
                forall|k: int, l: int|
                    0 <= k < i && 0 <= l < output.outputs@.len() ==> !overlap(
                        #[trigger] input.inputs@[k],
                        #[trigger] output.outputs@[l],
                    ),
                forall|l: int|
                    0 <= l < j ==> !overlap(input.inputs@[i as int], #[trigger] output.outputs@[l]),
            decreases output.outputs@.len() - j,
        {
            match agree(&input.inputs[i], &output.outputs[j]) {
                Some(f) => {
                    proof {
                        lemma_overlap_is_common_format(
                            input.inputs@[i as int],
                            output.outputs@[j as int],
                        );
                        assert(is_first_overlap(
                            input@.inputs,
                            output@.outputs,
                            i as int,
                            j as int,
                        ));
                        assert(f.valid() && input@.captures(f) && output@.plays(f));
                    }
                    return Ok(f);
                },
                None => {},
            }
            j += 1;
        }
        i += 1;
    }
    proof {
        lemma_no_overlap_no_common_format(input@, output@);
    }
    Err(PipelineError::FormatMismatch)
}

/// Devices none of whose ranges overlap share no format.
proof fn lemma_no_overlap_no_common_format(input: DeviceInfoView, output: DeviceInfoView)
    requires
        forall|k: int, l: int|
            0 <= k < input.inputs.len() && 0 <= l < output.outputs.len() ==> !overlap(
                #[trigger] input.inputs[k],
                #[trigger] output.outputs[l],
            ),
    ensures
        !have_common_format(input, output),
{
    if have_common_format(input, output) {
        let f = choose|f: StreamFormat|
            f.valid() && #[trigger] input.captures(f) && output.plays(f);
        let k = choose|k: int|
            0 <= k < input.inputs.len() && (#[trigger] input.inputs[k]).supports(f);
        let l = choose|l: int|
            0 <= l < output.outputs.len() && (#[trigger] output.outputs[l]).supports(f);
        lemma_overlap_is_common_format(input.inputs[k], output.outputs[l]);
    }
}

/// Two devices settle on one format only.
pub proof fn lemma_negotiated_is_unique(
    input: DeviceInfoView,
    output: DeviceInfoView,
    f: StreamFormat,
    g: StreamFormat,
)
    requires
        is_negotiated(input, output, f),
        is_negotiated(input, output, g),
    ensures
        f == g,
{
    let (i, j) = choose|i: int, j: int|
        #![trigger input.inputs[i], output.outputs[j]]
        is_first_overlap(input.inputs, output.outputs, i, j) && f == agreed_format(
            input.inputs[i],
            output.outputs[j],
        );
    let (k, l) = choose|k: int, l: int|
        #![trigger input.inputs[k], output.outputs[l]]
        is_first_overlap(input.inputs, output.outputs, k, l) && g == agreed_format(
            input.inputs[k],
            output.outputs[l],
        );
    assert(i == k && j == l);
}

/// The content of a selection: that of the selected device, if there is one.
pub open spec fn selected(device: Option<&DeviceInfo>) -> Option<DeviceInfoView> {
    match device {
        Some(d) => Some(d@),
        None => None,
    }
}

/// Why a pipeline over the two selections does not start, if it does not:
/// a selection is empty, or the two devices share no format.
pub open spec fn refusal(
    input: Option<DeviceInfoView>,
    output: Option<DeviceInfoView>,
) -> Option<PipelineError> {
    match (input, output) {
        (Some(i), Some(o)) => if have_common_format(i, o) {
            None
        } else {
            Some(PipelineError::FormatMismatch)
        },
        _ => Some(PipelineError::DeviceUnavailable),
    }
}

/// Whether `plan` is the plan of a pipeline over the two selections: both
/// are made, and the plan runs the format that the devices settle on.
pub open spec fn is_planned(
    input: Option<DeviceInfoView>,
    output: Option<DeviceInfoView>,
    plan: StreamPlan,
) -> bool {
    &&& input matches Some(i)
    &&& output matches Some(o)
    &&& is_negotiated(i, o, plan.format)
    &&& i.captures(plan.format)
    &&& o.plays(plan.format)
    &&& plan.valid()
}

/// Plans the pipeline over the two selections, or says why there is none.
/// Nothing is opened here, and a refusal leaves nothing behind.
pub fn plan_start(input: Option<&DeviceInfo>, output: Option<&DeviceInfo>) -> (r: Result<
    StreamPlan,
    PipelineError,
>)
    ensures
        match r {
            Ok(plan) => refusal(selected(input), selected(output)) is None && is_planned(
                selected(input),
                selected(output),
                plan,
            ),
            Err(e) => refusal(selected(input), selected(output)) == Some(e),
        },
{
    match (input, output) {
        (Some(i), Some(o)) => match negotiate(i, o) {
            Ok(format) => Ok(StreamPlan::for_format(format)),
            Err(e) => Err(e),
        },
        _ => Err(PipelineError::DeviceUnavailable),
    }
}

/// The controller of the pipeline. It is idle until a start succeeds, runs
/// until it is stopped, and is idle again.
pub struct PipelineController {
    state: PipelineState,
}

impl View for PipelineController {
    type V = PipelineState;

    closed spec fn view(&self) -> PipelineState {
        self.state
    }
}

impl PipelineController {
    #[verifier::type_invariant]
    spec fn well_formed(&self) -> bool {
        self.state matches PipelineState::Running(plan) ==> plan.valid()
    }

    /// An idle controller.
    pub fn new() -> (controller: Self)
        ensures
            controller@ == PipelineState::Idle,
    {
        PipelineController { state: PipelineState::Idle }
    }

    /// The state of the controller. The plan of a running pipeline is valid.
    pub fn state(&self) -> (state: PipelineState)
        ensures
            state == self@,
            state matches PipelineState::Running(plan) ==> plan.valid(),
    {
        proof {
            use_type_invariant(self);
        }
        self.state
    }

    /// Whether a pipeline runs. A change of the threshold goes to the
    /// pipeline only while one runs.
    pub fn is_running(&self) -> (running: bool)
        ensures
            running == (self@ is Running),
    {
        match self.state {
            PipelineState::Running(_) => true,
            PipelineState::Idle => false,
        }
    }

    /// Starts a pipeline over the two selections. On `Ok` the controller
    /// runs and the caller opens both streams to the plan; on `Err` the
    /// controller stays idle and nothing is to be opened.
    pub fn start(&mut self, input: Option<&DeviceInfo>, output: Option<&DeviceInfo>) -> (r: Result<
        StreamPlan,
        PipelineError,
    >)
        requires
            old(self)@ is Idle,
        ensures
            match r {
                Ok(plan) => {
                    &&& refusal(selected(input), selected(output)) is None
                    &&& is_planned(selected(input), selected(output), plan)
                    &&& final(self)@ == PipelineState::Running(plan)
                },
                Err(e) => {
                    &&& refusal(selected(input), selected(output)) == Some(e)
                    &&& final(self)@ == PipelineState::Idle
                },
            },
    {
        let r = plan_start(input, output);
        match r {
            Ok(plan) => {
                self.state = PipelineState::Running(plan);
            },
            Err(_) => {},
        }
        r
    }

    /// Settles a start once the caller has tried to open both streams.
    /// Where they were opened nothing changes. Where a device could not be
    /// opened the start is taken back: the controller is idle again and the
    /// start has failed with `DeviceUnavailable`.
    pub fn finish_start(&mut self, opened: bool) -> (r: Result<(), PipelineError>)
        ensures
            opened ==> r is Ok && final(self)@ == old(self)@,
            !opened ==> r == Err::<(), PipelineError>(PipelineError::DeviceUnavailable)
                && final(self)@ == PipelineState::Idle,
    {
        if opened {
            Ok(())
        } else {
            self.state = PipelineState::Idle;
            Err(PipelineError::DeviceUnavailable)
        }
    }

    /// Stops the pipeline. Returns whether one ran, that is, whether the
    /// caller has streams to close.
    pub fn stop(&mut self) -> (was_running: bool)
        ensures
            final(self)@ == PipelineState::Idle,
            was_running == (old(self)@ is Running),
    {
        let was_running = self.is_running();
        self.state = PipelineState::Idle;
        was_running
    }

    /// The start and stop button: stops a running pipeline, and starts one
    /// over the two selections where none runs.
    pub fn toggle(&mut self, input: Option<&DeviceInfo>, output: Option<&DeviceInfo>) -> (action:
        PipelineAction)
        ensures
            match action {
                PipelineAction::Close => {
                    &&& old(self)@ is Running
                    &&& final(self)@ == PipelineState::Idle
                },
                PipelineAction::Open(plan) => {
                    &&& old(self)@ is Idle
                    &&& refusal(selected(input), selected(output)) is None
                    &&& is_planned(selected(input), selected(output), plan)
                    &&& final(self)@ == PipelineState::Running(plan)
                },
                PipelineAction::Report(e) => {
                    &&& old(self)@ is Idle
                    &&& refusal(selected(input), selected(output)) == Some(e)
                    &&& final(self)@ == PipelineState::Idle
                },
            },
    {
        if self.is_running() {
            self.state = PipelineState::Idle;
            PipelineAction::Close
        } else {
            match self.start(input, output) {
                Ok(plan) => PipelineAction::Open(plan),
                Err(e) => PipelineAction::Report(e),
            }
        }
    }
}

} // verus!
