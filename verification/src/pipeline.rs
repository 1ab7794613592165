//! The encode pipeline: the decisions of a job that renders frames and
//! streams them to an external encoder.
//!
//! The pipeline performs no input or output. Its caller does what each
//! step asks for and reports back what happened; the pipeline decides
//! what comes next. Frames are converted in batches and written one at a
//! time, in the order of their source files. Once the encoder's input has
//! been opened it is closed exactly once, whether the job succeeds or
//! fails, and the encoder's end is awaited after that.

use vstd::prelude::*;
use vstd::string::*;
use crate::atlas::{AtlasView, GlyphAtlas};
use crate::error::{ConfigFault, ConvertError};
use crate::frame::AsciiFrameData;
use crate::progress::{is_reported, percent_of, should_report, count_message, Progress, ProgressPhase};
use crate::render::{
    can_render, pixel_dimensions, pixel_extent, render_ascii_frame_to_rgb, render_fits,
    rendered_frame,
};
use crate::sources::{
    chosen, is_sorted, name_texts, rendered_kind, select_frames, select_rendered_frames,
    FrameKind,
};
use crate::text::decimal;

verus! {

/// The number of frames that are converted together unless the caller
/// asks for another number.
pub const BATCH_SIZE: usize = 100;

/// Where the frames of a job come from.
#[derive(Debug, Clone, Copy, PartialEq, Eq)]
pub enum SourceMode {
    /// Pictures that are converted to frames.
    Pictures,
    /// Stored frames: binary frames where there are any, text frames
    /// otherwise.
    Frames,
}

/// The stages of a job.
#[derive(Debug, Clone, Copy, PartialEq, Eq)]
pub enum PipelineStage {
    /// The source files are being listed.
    Collecting,
    /// A batch of frames is being converted, or the encoder is being
    /// started for the first batch.
    Converting,
    /// The frames of a batch are being rendered and written.
    Streaming,
    /// The encoder's input is being closed and its end awaited.
    Draining,
    /// The job has succeeded.
    Done,
    /// The job has failed.
    Failed,
}

/// What the pipeline waits for.
#[derive(Debug, Clone, Copy, PartialEq, Eq)]
pub enum Waiting {
    /// The list of source files.
    Sources,
    /// The frames of the batch that was asked for.
    Batch,
    /// The start of the encoder.
    Encoder,
    /// The end of a write.
    Write,
    /// The closing of the encoder's input.
    Close,
    /// The end of the encoder.
    Exit,
    /// Nothing: the job is over.
    Nothing,
}

/// What the caller reports to the pipeline.
pub enum PipelineEvent {
    /// The names of the files in the source directory, in any order.
    SourcesListed { names: Vec<String> },
    /// The frames of the batch that was asked for, in the order of their
    /// sources.
    BatchConverted { frames: Vec<AsciiFrameData> },
    /// A frame of the batch could not be converted.
    BatchFailed { error: ConvertError },
    /// The encoder runs and its input is open.
    EncoderOpened,
    /// The encoder could not be started.
    OpenFailed { detail: String },
    /// The frame was written.
    FrameWritten,
    /// The frame could not be written.
    WriteFailed { cause: String },
    /// The encoder's input is closed.
    InputClosed,
    /// The encoder has ended, with this success and this diagnostic text.
    EncoderExited { success: bool, diagnostics: String },
}

/// What the pipeline asks its caller to do.
pub enum PipelineAction {
    /// Convert the frames of these sources, the first of which is the
    /// frame of this number.
    ConvertBatch { first: usize, sources: Vec<String> },
    /// Start the encoder for pictures of this size.
    OpenEncoder { pixel_width: u32, pixel_height: u32 },
    /// Write the pixels of the frame of this number to the encoder.
    WriteFrame { index: usize, pixels: Vec<u8> },
    /// Close the encoder's input.
    CloseInput,
    /// Wait for the encoder to end.
    AwaitExit,
    /// Nothing more: the job has succeeded with this many frames.
    Finish { frames: usize },
    /// Nothing more: the job has failed.
    Fail { error: ConvertError },
}

/// One step of a job: a progress report to pass on, if there is one, and
/// what to do next.
pub struct PipelineStep {
    pub report: Option<Progress>,
    pub action: PipelineAction,
}

/// The state of a job.
pub struct EncodePipeline {
    mode: SourceMode,
    atlas: GlyphAtlas,
    use_colors: bool,
    batch_size: usize,
    waiting: Waiting,
    sources: Vec<String>,
    batch: Vec<AsciiFrameData>,
    batch_first: usize,
    batch_count: usize,
    position: usize,
    opened: bool,
    close_requests: usize,
    failure: Option<ConvertError>,
}

/// What the state of a job holds.
pub struct PipelineView {
    /// Where the frames come from.
    pub mode: SourceMode,
    /// The atlas that frames are rendered with.
    pub atlas: AtlasView,
    /// Whether frames are rendered in their own colors.
    pub use_colors: bool,
    /// The largest number of frames in a batch.
    pub batch_size: nat,
    /// What the job waits for.
    pub waiting: Waiting,
    /// The names of the source files, in order.
    pub sources: Seq<Seq<char>>,
    /// The frames of the batch at hand.
    pub batch: Seq<AsciiFrameData>,
    /// The number of the first frame of the batch.
    pub batch_first: nat,
    /// The number of frames in the batch.
    pub batch_count: nat,
    /// The number of frames of the batch that are written.
    pub position: nat,
    /// Whether the encoder's input has been opened.
    pub opened: bool,
    /// How often the closing of the encoder's input has been asked for.
    pub close_requests: nat,
    /// The failure that ends the job once the encoder has ended.
    pub failure: Option<ConvertError>,
}

/// The smaller of two numbers.
pub open spec fn least(a: int, b: int) -> int {
    if a <= b {
        a
    } else {
        b
    }
}

impl PipelineView {
    /// The number of frames of the job.
    pub open spec fn total(self) -> nat {
        self.sources.len()
    }

    /// The number of frames that are written.
    pub open spec fn written(self) -> nat {
        self.batch_first + self.position
    }

    /// Whether the job is over.
    pub open spec fn is_over(self) -> bool {
        self.waiting is Nothing
    }

    /// The stage of the job.
    pub open spec fn stage(self) -> PipelineStage {
        match self.waiting {
            Waiting::Sources => PipelineStage::Collecting,
            Waiting::Batch => PipelineStage::Converting,
            Waiting::Encoder => PipelineStage::Converting,
            Waiting::Write => PipelineStage::Streaming,
            Waiting::Close => PipelineStage::Draining,
            Waiting::Exit => PipelineStage::Draining,
            Waiting::Nothing => if self.failure is None {
                PipelineStage::Done
            } else {
                PipelineStage::Failed
            },
        }
    }

    /// The frame that is written next.
    pub open spec fn frame_at_hand(self) -> AsciiFrameData {
        self.batch[self.position as int]
    }

    /// Whether the frame at hand can be rendered on this machine.
    pub open spec fn frame_fits(self) -> bool {
        render_fits(
            self.frame_at_hand().width_chars,
            self.frame_at_hand().height_chars,
            self.atlas.cell_width,
            self.atlas.cell_height,
        )
    }

    /// Unless a failure is at hand, every frame of the job is written.
    pub open spec fn drained(self) -> bool {
        self.failure is None ==> self.written() == self.total() && self.total() >= 1
    }

    /// The consistency of a state.
    pub open spec fn wf(self) -> bool {
        &&& self.batch_size >= 1
        &&& self.close_requests <= 1
        &&& !self.opened ==> self.close_requests == 0
        &&& self.batch_first + self.batch_count <= self.total()
        &&& self.position <= self.batch.len()
        &&& self.batch.len() <= self.batch_count
        &&& self.atlas.wf()
        &&& match self.waiting {
            Waiting::Sources => {
                &&& self.sources.len() == 0
                &&& self.batch.len() == 0
                &&& !self.opened
                &&& self.failure is None
            },
            Waiting::Batch => {
                &&& self.batch_count >= 1
                &&& self.batch.len() == 0
                &&& self.close_requests == 0
                &&& self.failure is None
                &&& !self.opened ==> self.batch_first == 0
            },
            Waiting::Encoder => {
                &&& !self.opened
                &&& self.batch_count >= 1
                &&& self.batch.len() == self.batch_count
                &&& self.batch_first == 0
                &&& self.position == 0
                &&& self.failure is None
                &&& self.frame_fits()
            },
            Waiting::Write => {
                &&& self.opened
                &&& self.close_requests == 0
                &&& self.batch.len() == self.batch_count
                &&& self.position < self.batch.len()
                &&& self.failure is None
            },
            Waiting::Close => self.opened && self.close_requests == 1 && self.drained(),
            Waiting::Exit => self.opened && self.close_requests == 1 && self.drained(),
            Waiting::Nothing => {
                &&& self.opened ==> self.close_requests == 1
                &&& self.failure is None ==> self.opened && self.written() == self.total()
                    && self.total() >= 1
            },
        }
    }

    /// Whether an event is one that the job waits for.
    pub open spec fn expects(self, event: PipelineEvent) -> bool {
        match self.waiting {
            Waiting::Sources => event is SourcesListed,
            Waiting::Batch => (event matches PipelineEvent::BatchConverted { frames }
                && frames@.len() == self.batch_count) || event is BatchFailed,
            Waiting::Encoder => event is EncoderOpened || event is OpenFailed,
            Waiting::Write => event is FrameWritten || event is WriteFailed,
            Waiting::Close => event is InputClosed,
            Waiting::Exit => event is EncoderExited,
            Waiting::Nothing => false,
        }
    }

    /// The same state but for what the job waits for.
    pub open spec fn waiting_for(self, waiting: Waiting) -> PipelineView {
        PipelineView { waiting, ..self }
    }

    /// The state after the job has been given up before the encoder was
    /// started.
    pub open spec fn given_up(self, error: ConvertError) -> PipelineView {
        PipelineView { waiting: Waiting::Nothing, failure: Some(error), ..self }
    }

    /// The state after the closing of the encoder's input has been asked
    /// for, with the failure that ends the job, if there is one.
    pub open spec fn closing(self, failure: Option<ConvertError>) -> PipelineView {
        PipelineView { waiting: Waiting::Close, close_requests: 1, failure, ..self }
    }

    /// The state in which the next batch is awaited: the frames from
    /// number `first` on, as many as a batch holds and the job has left.
    pub open spec fn asking_batch(self, first: nat) -> PipelineView {
        PipelineView {
            waiting: Waiting::Batch,
            batch: Seq::empty(),
            batch_first: first,
            batch_count: least(self.batch_size as int, self.total() - first) as nat,
            position: 0,
            ..self
        }
    }
}

/// The failure of a job whose frame cannot be rendered on this machine.
pub open spec fn too_large(frame: AsciiFrameData) -> ConvertError {
    ConvertError::Config(
        ConfigFault::PictureTooLarge {
            width_chars: frame.width_chars,
            height_chars: frame.height_chars,
        },
    )
}

/// Whether a report says that `completed` of `total` frames are
/// rendered.
pub open spec fn is_rendering_report(report: Progress, completed: int, total: int) -> bool {
    &&& report.phase == ProgressPhase::RenderingVideo
    &&& report.completed == completed
    &&& report.total == total
    &&& report.percent == percent_of(completed, total)
    &&& report.message@ == count_message("Rendering frame "@, completed as usize, total as usize)
}

/// Whether a report says that a job of `total` frames is done.
pub open spec fn is_final_report(report: Progress, total: int) -> bool {
    &&& report.phase == ProgressPhase::Complete
    &&& report.completed == total
    &&& report.total == total
    &&& report.percent == 100
    &&& report.message@ == "Conversion complete: "@ + decimal(total as nat) + " frames"@
}

/// Whether a step asks for the conversion of the batch that a state
/// awaits.
pub open spec fn asks_batch(action: PipelineAction, state: PipelineView) -> bool {
    action matches PipelineAction::ConvertBatch { first, sources } && first
        == state.batch_first && name_texts(sources@) == state.sources.subrange(
        state.batch_first as int,
        (state.batch_first + state.batch_count) as int,
    )
}

/// Whether a step asks for the frame at hand of a state to be written:
/// its number is the number of frames written before, and its pixels are
/// the picture of the frame.
pub open spec fn asks_write(action: PipelineAction, state: PipelineView) -> bool {
    action matches PipelineAction::WriteFrame { index, pixels } && index == state.written()
        && pixels@ == rendered_frame(state.frame_at_hand(), state.atlas, state.use_colors)
}

/// Whether a step ends the job with a failure.
pub open spec fn fails_with(step: PipelineStep, error: ConvertError) -> bool {
    step.report is None && step.action == (PipelineAction::Fail { error })
}

/// What follows when a frame is at hand in an opened job: the frame is
/// written if it can be rendered, and the job is closed with a failure
/// if it cannot.
pub open spec fn writes_or_closes(
    ready: PipelineView,
    next: PipelineView,
    action: PipelineAction,
) -> bool {
    if ready.frame_fits() {
        next == ready.waiting_for(Waiting::Write) && asks_write(action, next)
    } else {
        next == ready.closing(Some(too_large(ready.frame_at_hand()))) && action is CloseInput
    }
}

/// What the listing of the source files leads to.
pub open spec fn after_listing(
    before: PipelineView,
    names: Seq<Seq<char>>,
    next: PipelineView,
    step: PipelineStep,
) -> bool {
    let kind = match before.mode {
        SourceMode::Pictures => FrameKind::Png,
        SourceMode::Frames => rendered_kind(names),
    };
    let use_colors = match before.mode {
        SourceMode::Pictures => before.use_colors,
        SourceMode::Frames => kind is Cframe,
    };
    let listed = PipelineView { sources: next.sources, use_colors, ..before };
    &&& is_sorted(next.sources)
    &&& next.sources.to_multiset() == chosen(names, kind).to_multiset()
    &&& step.report is None
    &&& if next.sources.len() == 0 {
        next == listed.given_up(ConvertError::NoFrames) && fails_with(
            step,
            ConvertError::NoFrames,
        )
    } else {
        next == listed.asking_batch(0) && asks_batch(step.action, next)
    }
}

/// What the arrival of a batch leads to.
pub open spec fn after_batch(
    before: PipelineView,
    frames: Seq<AsciiFrameData>,
    next: PipelineView,
    step: PipelineStep,
) -> bool {
    let ready = PipelineView { batch: frames, position: 0, ..before };
    &&& step.report is None
    &&& if before.opened {
        writes_or_closes(ready, next, step.action)
    } else if ready.frame_fits() {
        &&& next == ready.waiting_for(Waiting::Encoder)
        &&& step.action == (PipelineAction::OpenEncoder {
            pixel_width: pixel_extent(frames[0].width_chars, before.atlas.cell_width) as u32,
            pixel_height: pixel_extent(frames[0].height_chars, before.atlas.cell_height) as u32,
        })
    } else {
        next == ready.given_up(too_large(frames[0])) && fails_with(step, too_large(frames[0]))
    }
}

/// What the end of a write leads to.
pub open spec fn after_write(before: PipelineView, next: PipelineView, step: PipelineStep) -> bool {
    let written = before.written() + 1;
    let moved = PipelineView { position: before.position + 1, ..before };
    &&& if is_reported(written as int, before.total() as int) {
        step.report matches Some(report) && is_rendering_report(
            report,
            written as int,
            before.total() as int,
        )
    } else {
        step.report is None
    }
    &&& if moved.position < moved.batch.len() {
        writes_or_closes(moved, next, step.action)
    } else if written < before.total() {
        next == moved.asking_batch(written) && asks_batch(step.action, next)
    } else {
        next == moved.closing(None) && step.action is CloseInput
    }
}

/// What the end of the encoder leads to.
pub open spec fn after_exit(
    before: PipelineView,
    success: bool,
    diagnostics: String,
    next: PipelineView,
    step: PipelineStep,
) -> bool {
    match before.failure {
        Some(ConvertError::EncoderWrite { cause, diagnostics: _ }) => {
            let error = ConvertError::EncoderWrite { cause, diagnostics };
            next == before.given_up(error) && fails_with(step, error)
        },
        Some(error) => next == before.given_up(error) && fails_with(step, error),
        None => if success {
            &&& next == before.waiting_for(Waiting::Nothing)
            &&& step.report matches Some(report) && is_final_report(report, before.total() as int)
            &&& step.action == (PipelineAction::Finish { frames: before.total() as usize })
        } else {
            let error = ConvertError::EncoderExit { diagnostics };
            next == before.given_up(error) && fails_with(step, error)
        },
    }
}

/// The steps of a job: how an event that the job waits for changes its
/// state, and what the caller is asked to do then.
pub open spec fn transition(
    before: PipelineView,
    event: PipelineEvent,
    next: PipelineView,
    step: PipelineStep,
) -> bool {
    match event {
        PipelineEvent::SourcesListed { names } => after_listing(
            before,
            name_texts(names@),
            next,
            step,
        ),
        PipelineEvent::BatchConverted { frames } => after_batch(before, frames@, next, step),
        PipelineEvent::BatchFailed { error } => step.report is None && if before.opened {
            next == before.closing(Some(error)) && step.action is CloseInput
        } else {
            next == before.given_up(error) && fails_with(step, error)
        },
        PipelineEvent::EncoderOpened => {
            let opened = PipelineView { opened: true, waiting: Waiting::Write, ..before };
            &&& next == opened
            &&& asks_write(step.action, next)
            &&& step.report matches Some(report) && is_rendering_report(
                report,
                0,
                before.total() as int,
            )
        },
        PipelineEvent::OpenFailed { detail } => {
            let error = ConvertError::EncoderSpawn { detail };
            next == before.given_up(error) && fails_with(step, error)
        },
        PipelineEvent::FrameWritten => after_write(before, next, step),
        PipelineEvent::WriteFailed { cause } => {
            &&& step.report is None
            &&& step.action is CloseInput
            &&& next.failure matches Some(ConvertError::EncoderWrite { cause: kept, diagnostics })
            &&& kept == cause
            &&& diagnostics@.len() == 0
            &&& next == before.closing(next.failure)
        },
        PipelineEvent::InputClosed => {
            &&& next == before.waiting_for(Waiting::Exit)
            &&& step.report is None
            &&& step.action is AwaitExit
        },
        PipelineEvent::EncoderExited { success, diagnostics } => after_exit(
            before,
            success,
            diagnostics,
            next,
            step,
        ),
    }
}

/// A step keeps the state consistent.
pub proof fn lemma_step_keeps_wf(
    before: PipelineView,
    event: PipelineEvent,
    next: PipelineView,
    step: PipelineStep,
)
    requires
        before.wf(),
        before.expects(event),
        transition(before, event, next, step),
    ensures
        next.wf(),
{
}

/// The encoder's input is closed exactly once: a step counts the
/// requests to close it, there is never more than one, and a job that is
/// over has asked for it if and only if the input was ever opened.
pub proof fn lemma_input_closed_once(
    before: PipelineView,
    event: PipelineEvent,
    next: PipelineView,
    step: PipelineStep,
)
    requires
        before.wf(),
        before.expects(event),
        transition(before, event, next, step),
    ensures
        next.close_requests == before.close_requests + if step.action is CloseInput {
            1nat
        } else {
            0nat
        },
        next.close_requests <= 1,
        next.is_over() ==> (next.close_requests == 1 <==> next.opened),
        step.action is Finish || step.action is Fail <==> next.is_over(),
{
    lemma_step_keeps_wf(before, event, next, step);
}

/// Frames are written in order and only to an open input: a write is
/// asked for only while the input is open and no closing has been asked
/// for, the frame's number is the number of frames written so far, and
/// that number grows by one with each write that ends, and never
/// otherwise.
pub proof fn lemma_frames_in_order(
    before: PipelineView,
    event: PipelineEvent,
    next: PipelineView,
    step: PipelineStep,
)
    requires
        before.wf(),
        before.expects(event),
        transition(before, event, next, step),
    ensures
        step.action matches PipelineAction::WriteFrame { index, pixels } ==> {
            &&& next.opened
            &&& next.close_requests == 0
            &&& index == next.written()
            &&& index < next.total()
            &&& pixels@ == rendered_frame(next.frame_at_hand(), next.atlas, next.use_colors)
        },
        next.written() == before.written() + if event is FrameWritten {
            1nat
        } else {
            0nat
        },
        next.sources == before.sources || event is SourcesListed,
{
    lemma_step_keeps_wf(before, event, next, step);
}

/// A job succeeds only if the encoder has ended well after every frame
/// was written and its input was closed.
pub proof fn lemma_success_is_complete(
    before: PipelineView,
    event: PipelineEvent,
    next: PipelineView,
    step: PipelineStep,
)
    requires
        before.wf(),
        before.expects(event),
        transition(before, event, next, step),
        next.stage() is Done,
    ensures
        event matches PipelineEvent::EncoderExited { success, diagnostics } && success,
        next.written() == next.total(),
        next.close_requests == 1,
        step.action matches PipelineAction::Finish { frames } && frames == next.total(),
        step.report matches Some(report) && is_final_report(report, next.total() as int),
{
    lemma_step_keeps_wf(before, event, next, step);
}

impl View for EncodePipeline {
    type V = PipelineView;

    closed spec fn view(&self) -> PipelineView {
        PipelineView {
            mode: self.mode,
            atlas: self.atlas@,
            use_colors: self.use_colors,
            batch_size: self.batch_size as nat,
            waiting: self.waiting,
            sources: name_texts(self.sources@),
            batch: self.batch@,
            batch_first: self.batch_first as nat,
            batch_count: self.batch_count as nat,
            position: self.position as nat,
            opened: self.opened,
            close_requests: self.close_requests as nat,
            failure: self.failure,
        }
    }
}

/// The state in which a job begins: nothing is listed, and the encoder
/// is not started.
pub open spec fn initial_state(
    mode: SourceMode,
    atlas: AtlasView,
    use_colors: bool,
    batch_size: nat,
) -> PipelineView {
    PipelineView {
        mode,
        atlas,
        use_colors,
        batch_size: if batch_size >= 1 {
            batch_size
        } else {
            1
        },
        waiting: Waiting::Sources,
        sources: Seq::empty(),
        batch: Seq::empty(),
        batch_first: 0,
        batch_count: 0,
        position: 0,
        opened: false,
        close_requests: 0,
        failure: None,
    }
}

fn names_between(sources: &Vec<String>, first: usize, count: usize) -> (names: Vec<String>)
    requires
        first + count <= sources@.len(),
    ensures
        name_texts(names@) == name_texts(sources@).subrange(first as int, first + count),
{
    let mut names: Vec<String> = Vec::new();
    let len = sources.len();
    let mut k: usize = 0;
    while k < count
        invariant
            k <= count,
            len == sources@.len(),
            first + count <= sources@.len(),
            names@.len() == k,
            forall|j: int| 0 <= j < k ==> names@[j]@ == sources@[first + j]@,
        decreases count - k,
    {
        names.push(sources[first + k].clone());
        k += 1;
    }
    assert(name_texts(names@) =~= name_texts(sources@).subrange(first as int, first + count));
    names
}

impl EncodePipeline {
    #[verifier::type_invariant]
    spec fn inv(self) -> bool {
        self@.wf()
    }

    /// Begins a job. A batch holds at least one frame: a batch size of
    /// zero is taken as one. In the mode `Frames` the kind of the frames
    /// decides about colors, whatever `use_colors` says.
    pub fn new(
        mode: SourceMode,
        atlas: GlyphAtlas,
        use_colors: bool,
        batch_size: usize,
    ) -> (p: EncodePipeline)
        ensures
            p@ == initial_state(mode, atlas@, use_colors, batch_size as nat),
            p@.wf(),
    {
        let _ = atlas.cell_width();
        let p = EncodePipeline {
            mode,
            atlas,
            use_colors,
            batch_size: if batch_size >= 1 {
                batch_size
            } else {
                1
            },
            waiting: Waiting::Sources,
            sources: Vec::new(),
            batch: Vec::new(),
            batch_first: 0,
            batch_count: 0,
            position: 0,
            opened: false,
            close_requests: 0,
            failure: None,
        };
        proof {
            assert(p@.sources =~= Seq::<Seq<char>>::empty());
            assert(p@.batch =~= Seq::<AsciiFrameData>::empty());
        }
        p
    }

    /// The stage of the job.
    pub fn stage(&self) -> (stage: PipelineStage)
        ensures
            stage == self@.stage(),
            self@.wf(),
    {
        proof {
            use_type_invariant(self);
        }
        match self.waiting {
            Waiting::Sources => PipelineStage::Collecting,
            Waiting::Batch => PipelineStage::Converting,
            Waiting::Encoder => PipelineStage::Converting,
            Waiting::Write => PipelineStage::Streaming,
            Waiting::Close => PipelineStage::Draining,
            Waiting::Exit => PipelineStage::Draining,
            Waiting::Nothing => match self.failure {
                None => PipelineStage::Done,
                Some(_) => PipelineStage::Failed,
            },
        }
    }

    /// What the job waits for.
    pub fn waiting(&self) -> (waiting: Waiting)
        ensures
            waiting == self@.waiting,
            self@.wf(),
    {
        proof {
            use_type_invariant(self);
        }
        self.waiting
    }

    /// The number of frames of the job; zero until the sources are
    /// listed.
    pub fn total_frames(&self) -> (total: usize)
        ensures
            total == self@.total(),
    {
        self.sources.len()
    }

    /// The number of frames that are written.
    pub fn frames_written(&self) -> (written: usize)
        ensures
            written == self@.written(),
            written <= self@.total(),
    {
        proof {
            use_type_invariant(self);
        }
        let total = self.sources.len();
        assert(total == self@.total());
        self.batch_first + self.position
    }

    /// Whether the encoder's input has been opened.
    pub fn encoder_opened(&self) -> (opened: bool)
        ensures
            opened == self@.opened,
    {
        self.opened
    }

    /// How often the closing of the encoder's input has been asked for:
    /// never more than once.
    pub fn close_requests(&self) -> (n: usize)
        ensures
            n == self@.close_requests,
            n <= 1,
    {
        proof {
            use_type_invariant(self);
        }
        self.close_requests
    }

    /// Tells whether an event is one that the job waits for.
    pub fn expects(&self, event: &PipelineEvent) -> (yes: bool)
        ensures
            yes == self@.expects(*event),
    {
        match self.waiting {
            Waiting::Sources => match event {
                PipelineEvent::SourcesListed { .. } => true,
                _ => false,
            },
            Waiting::Batch => match event {
                PipelineEvent::BatchConverted { frames } => frames.len() == self.batch_count,
                PipelineEvent::BatchFailed { .. } => true,
                _ => false,
            },
            Waiting::Encoder => match event {
                PipelineEvent::EncoderOpened => true,
                PipelineEvent::OpenFailed { .. } => true,
                _ => false,
            },
            Waiting::Write => match event {
                PipelineEvent::FrameWritten => true,
                PipelineEvent::WriteFailed { .. } => true,
                _ => false,
            },
            Waiting::Close => match event {
                PipelineEvent::InputClosed => true,
                _ => false,
            },
            Waiting::Exit => match event {
                PipelineEvent::EncoderExited { .. } => true,
                _ => false,
            },
            Waiting::Nothing => false,
        }
    }

    /// Renders the frame at hand of an opened job and asks for it to be
    /// written, or closes the job where the frame cannot be rendered.
    fn write_frame(self) -> (r: (EncodePipeline, PipelineAction))
        requires
            self@.waiting is Write,
        ensures
            r.0@.wf(),
            writes_or_closes(self@, r.0@, r.1),
    {
        proof {
            use_type_invariant(&self);
        }
        let fits = {
            let frame = &self.batch[self.position];
            can_render(
                frame.width_chars,
                frame.height_chars,
                self.atlas.cell_width(),
                self.atlas.cell_height(),
            )
        };
        if fits {
            let pixels = render_ascii_frame_to_rgb(
                &self.batch[self.position],
                &self.atlas,
                self.use_colors,
            );
            let total = self.sources.len();
            assert(total == self@.total());
            let index = self.batch_first + self.position;
            (self, PipelineAction::WriteFrame { index, pixels })
        } else {
            let frame = &self.batch[self.position];
            let error = ConvertError::Config(
                ConfigFault::PictureTooLarge {
                    width_chars: frame.width_chars,
                    height_chars: frame.height_chars,
                },
            );
            let EncodePipeline {
                mode,
                atlas,
                use_colors,
                batch_size,
                waiting: _,
                sources,
                batch,
                batch_first,
                batch_count,
                position,
                opened,
                close_requests: _,
                failure: _,
            } = self;
            let next = EncodePipeline {
                mode,
                atlas,
                use_colors,
                batch_size,
                waiting: Waiting::Close,
                sources,
                batch,
                batch_first,
                batch_count,
                position,
                opened,
                close_requests: 1,
                failure: Some(error),
            };
            (next, PipelineAction::CloseInput)
        }
    }

    /// Takes one step of the job: given an event that the job waits
    /// for, moves to the next state and says what is to be done.
    pub fn step(self, event: PipelineEvent) -> (r: (EncodePipeline, PipelineStep))
        requires
            self@.expects(event),
        ensures
            r.0@.wf(),
            transition(self@, event, r.0@, r.1),
    {
        proof {
            use_type_invariant(&self);
        }
        let ghost before = self@;
        let EncodePipeline {
            mode,
            atlas,
            use_colors,
            batch_size,
            waiting,
            sources,
            batch,
            batch_first,
            batch_count,
            position,
            opened,
            close_requests,
            failure,
        } = self;
        let total = sources.len();
        match event {
            PipelineEvent::SourcesListed { names } => {
                let (listed, kind) = match mode {
                    SourceMode::Pictures => (select_frames(&names, FrameKind::Png), FrameKind::Png),
                    SourceMode::Frames => select_rendered_frames(&names),
                };
                let use_colors = match mode {
                    SourceMode::Pictures => use_colors,
                    SourceMode::Frames => match kind {
                        FrameKind::Cframe => true,
                        _ => false,
                    },
                };
                proof {
                    assert(batch@ =~= Seq::<AsciiFrameData>::empty());
                }
                if listed.len() == 0 {
                    let next = EncodePipeline {
                        mode,
                        atlas,
                        use_colors,
                        batch_size,
                        waiting: Waiting::Nothing,
                        sources: listed,
                        batch,
                        batch_first,
                        batch_count,
                        position,
                        opened,
                        close_requests,
                        failure: Some(ConvertError::NoFrames),
                    };
                    (
                        next,
                        PipelineStep {
                            report: None,
                            action: PipelineAction::Fail { error: ConvertError::NoFrames },
                        },
                    )
                } else {
                    let count = if batch_size <= listed.len() {
                        batch_size
                    } else {
                        listed.len()
                    };
                    let asked = names_between(&listed, 0, count);
                    let next = EncodePipeline {
                        mode,
                        atlas,
                        use_colors,
                        batch_size,
                        waiting: Waiting::Batch,
                        sources: listed,
                        batch,
                        batch_first: 0,
                        batch_count: count,
                        position: 0,
                        opened,
                        close_requests,
                        failure,
                    };
                    (
                        next,
                        PipelineStep {
                            report: None,
                            action: PipelineAction::ConvertBatch { first: 0, sources: asked },
                        },
                    )
                }
            },
            PipelineEvent::BatchConverted { frames } => {
                if opened {
                    let ready = EncodePipeline {
                        mode,
                        atlas,
                        use_colors,
                        batch_size,
                        waiting: Waiting::Write,
                        sources,
                        batch: frames,
                        batch_first,
                        batch_count,
                        position: 0,
                        opened,
                        close_requests,
                        failure,
                    };
                    let (next, action) = ready.write_frame();
                    (next, PipelineStep { report: None, action })
                } else {
                    let first_width = frames[0].width_chars;
                    let first_height = frames[0].height_chars;
                    let fits = can_render(
                        first_width,
                        first_height,
                        atlas.cell_width(),
                        atlas.cell_height(),
                    );
                    if fits {
                        let dims = pixel_dimensions(
                            first_width,
                            first_height,
                            atlas.cell_width(),
                            atlas.cell_height(),
                        );
                        let (pixel_width, pixel_height) = dims.unwrap();
                        let next = EncodePipeline {
                            mode,
                            atlas,
                            use_colors,
                            batch_size,
                            waiting: Waiting::Encoder,
                            sources,
                            batch: frames,
                            batch_first,
                            batch_count,
                            position: 0,
                            opened,
                            close_requests,
                            failure,
                        };
                        (
                            next,
                            PipelineStep {
                                report: None,
                                action: PipelineAction::OpenEncoder { pixel_width, pixel_height },
                            },
                        )
                    } else {
                        let fault = ConfigFault::PictureTooLarge {
                            width_chars: first_width,
                            height_chars: first_height,
                        };
                        let next = EncodePipeline {
                            mode,
                            atlas,
                            use_colors,
                            batch_size,
                            waiting: Waiting::Nothing,
                            sources,
                            batch: frames,
                            batch_first,
                            batch_count,
                            position: 0,
                            opened,
                            close_requests,
                            failure: Some(ConvertError::Config(fault)),
                        };
                        (
                            next,
                            PipelineStep {
                                report: None,
                                action: PipelineAction::Fail { error: ConvertError::Config(fault) },
                            },
                        )
                    }
                }
            },
            PipelineEvent::BatchFailed { error } => {
                if opened {
                    let next = EncodePipeline {
                        mode,
                        atlas,
                        use_colors,
                        batch_size,
                        waiting: Waiting::Close,
                        sources,
                        batch,
                        batch_first,
                        batch_count,
                        position,
                        opened,
                        close_requests: 1,
                        failure: Some(error),
                    };
                    (next, PipelineStep { report: None, action: PipelineAction::CloseInput })
                } else {
                    let kept = error.copy();
                    let next = EncodePipeline {
                        mode,
                        atlas,
                        use_colors,
                        batch_size,
                        waiting: Waiting::Nothing,
                        sources,
                        batch,
                        batch_first,
                        batch_count,
                        position,
                        opened,
                        close_requests,
                        failure: Some(kept),
                    };
                    (next, PipelineStep { report: None, action: PipelineAction::Fail { error } })
                }
            },
            PipelineEvent::EncoderOpened => {
                let report = Progress::rendering_video(0, total);
                let index = batch_first + position;
                let pixels = render_ascii_frame_to_rgb(&batch[position], &atlas, use_colors);
                let next = EncodePipeline {
                    mode,
                    atlas,
                    use_colors,
                    batch_size,
                    waiting: Waiting::Write,
                    sources,
                    batch,
                    batch_first,
                    batch_count,
                    position,
                    opened: true,
                    close_requests,
                    failure,
                };
                (
                    next,
                    PipelineStep {
                        report: Some(report),
                        action: PipelineAction::WriteFrame { index, pixels },
                    },
                )
            },
            PipelineEvent::OpenFailed { detail } => {
                let error = ConvertError::EncoderSpawn { detail };
                let kept = error.copy();
                let next = EncodePipeline {
                    mode,
                    atlas,
                    use_colors,
                    batch_size,
                    waiting: Waiting::Nothing,
                    sources,
                    batch,
                    batch_first,
                    batch_count,
                    position,
                    opened,
                    close_requests,
                    failure: Some(kept),
                };
                (next, PipelineStep { report: None, action: PipelineAction::Fail { error } })
            },
            PipelineEvent::FrameWritten => {
                let written = batch_first + position + 1;
                let report = if should_report(written, total) {
                    Some(Progress::rendering_video(written, total))
                } else {
                    None
                };
                if position + 1 < batch.len() {
                    let ready = EncodePipeline {
                        mode,
                        atlas,
                        use_colors,
                        batch_size,
                        waiting: Waiting::Write,
                        sources,
                        batch,
                        batch_first,
                        batch_count,
                        position: position + 1,
                        opened,
                        close_requests,
                        failure,
                    };
                    let (next, action) = ready.write_frame();
                    (next, PipelineStep { report, action })
                } else if written < total {
                    let left = total - written;
                    let count = if batch_size <= left {
                        batch_size
                    } else {
                        left
                    };
                    let asked = names_between(&sources, written, count);
                    let next = EncodePipeline {
                        mode,
                        atlas,
                        use_colors,
                        batch_size,
                        waiting: Waiting::Batch,
                        sources,
                        batch: Vec::new(),
                        batch_first: written,
                        batch_count: count,
                        position: 0,
                        opened,
                        close_requests,
                        failure,
                    };
                    proof {
                        assert(next@.batch =~= Seq::<AsciiFrameData>::empty());
                    }
                    (
                        next,
                        PipelineStep {
                            report,
                            action: PipelineAction::ConvertBatch { first: written, sources: asked },
                        },
                    )
                } else {
                    let next = EncodePipeline {
                        mode,
                        atlas,
                        use_colors,
                        batch_size,
                        waiting: Waiting::Close,
                        sources,
                        batch,
                        batch_first,
                        batch_count,
                        position: position + 1,
                        opened,
                        close_requests: 1,
                        failure: None,
                    };
                    (next, PipelineStep { report, action: PipelineAction::CloseInput })
                }
            },
            PipelineEvent::WriteFailed { cause } => {
                let next = EncodePipeline {
                    mode,
                    atlas,
                    use_colors,
                    batch_size,
                    waiting: Waiting::Close,
                    sources,
                    batch,
                    batch_first,
                    batch_count,
                    position,
                    opened,
                    close_requests: 1,
                    failure: Some(ConvertError::EncoderWrite { cause, diagnostics: String::new() }),
                };
                (next, PipelineStep { report: None, action: PipelineAction::CloseInput })
            },
            PipelineEvent::InputClosed => {
                let next = EncodePipeline {
                    mode,
                    atlas,
                    use_colors,
                    batch_size,
                    waiting: Waiting::Exit,
                    sources,
                    batch,
                    batch_first,
                    batch_count,
                    position,
                    opened,
                    close_requests,
                    failure,
                };
                (next, PipelineStep { report: None, action: PipelineAction::AwaitExit })
            },
            PipelineEvent::EncoderExited { success, diagnostics } => {
                let error = match failure {
                    Some(ConvertError::EncoderWrite { cause, diagnostics: _ }) => Some(
                        ConvertError::EncoderWrite { cause, diagnostics },
                    ),
                    Some(other) => Some(other),
                    None => if success {
                        None
                    } else {
                        Some(ConvertError::EncoderExit { diagnostics })
                    },
                };
                match error {
                    Some(error) => {
                        let kept = error.copy();
                        let next = EncodePipeline {
                            mode,
                            atlas,
                            use_colors,
                            batch_size,
                            waiting: Waiting::Nothing,
                            sources,
                            batch,
                            batch_first,
                            batch_count,
                            position,
                            opened,
                            close_requests,
                            failure: Some(kept),
                        };
                        (
                            next,
                            PipelineStep { report: None, action: PipelineAction::Fail { error } },
                        )
                    },
                    None => {
                        let report = Progress::complete(total);
                        let next = EncodePipeline {
                            mode,
                            atlas,
                            use_colors,
                            batch_size,
                            waiting: Waiting::Nothing,
                            sources,
                            batch,
                            batch_first,
                            batch_count,
                            position,
                            opened,
                            close_requests,
                            failure: None,
                        };
                        (
                            next,
                            PipelineStep {
                                report: Some(report),
                                action: PipelineAction::Finish { frames: total },
                            },
                        )
                    },
                }
            },
        }
    }
}

} // verus!
