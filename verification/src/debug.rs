//! Time measurements of the stages of a frame, for an overlay that shows
//! them.
use vstd::prelude::*;
use std::collections::VecDeque;
use std::time::Instant;
use crate::number::{decimal, digits};

verus! {

/// The number of samples that the averages of the application's stages span.
pub const STAGE_SAMPLES: usize = 200;

/// The number of samples that the averages of the renderer's stages span.
pub const RENDER_SAMPLES: usize = 50;

/// The number of messages that are kept for the overlay.
pub const KEPT_MESSAGES: usize = 10;

/// The number of characters of a message that the overlay shows.
pub const SHOWN_CHARS: usize = 100;

/// A point in time, as the clock of the machine gives it.
#[verifier::external_type_specification]
#[verifier::external_body]
pub struct ExInstant(Instant);

/// The text in which a span of `nanos` nanoseconds is shown: what the
/// `Debug` formatting of `std::time::Duration` writes for it.
pub uninterp spec fn duration_text(nanos: u64) -> Seq<char>;

/// `Instant::now`: the present time. Nothing is known of it.
#[verifier::external_body]
fn now() -> (instant: Instant) {
    Instant::now()
}

/// `Instant::elapsed`: the time that has passed since `start`, as a count
/// of nanoseconds in 64 bits. Nothing is known of the count.
#[verifier::external_body]
fn nanos_since(start: &Instant) -> (nanos: u64) {
    start.elapsed().as_nanos() as u64
}

/// The `Debug` formatting of the `std::time::Duration` of `nanos`
/// nanoseconds.
#[verifier::external_body]
fn format_duration(nanos: u64) -> (text: String)
    ensures
        text@ == duration_text(nanos),
{
    format!("{:?}", std::time::Duration::from_nanos(nanos))
}

/// The `Debug` formatting of `message`. Nothing is known of the text: it is
/// what the type of the message makes of it.
#[verifier::external_body]
fn debug_text<Message: core::fmt::Debug>(message: &Message) -> (text: String) {
    format!("{:?}", message)
}

/// A ring of the most recent time measurements, in nanoseconds.
#[derive(Debug)]
pub struct TimeBuffer {
    head: usize,
    size: usize,
    contents: Vec<u64>,
}

/// The mathematical state of a [`TimeBuffer`].
pub struct TimeBufferView {
    /// The slot that was written last.
    pub head: nat,
    /// The number of measurements taken, as far as there are slots.
    pub size: nat,
    /// The slots.
    pub contents: Seq<u64>,
}

/// The sum of the first `n` of `samples`.
pub open spec fn total(samples: Seq<u64>, n: nat) -> nat
    decreases n,
{
    if n == 0 || n > samples.len() {
        0
    } else {
        total(samples, (n - 1) as nat) + samples[n - 1] as nat
    }
}

impl TimeBufferView {
    /// What holds of every ring: it has a slot, the head is one of its
    /// slots, and no more measurements are counted than there are slots.
    pub open spec fn wf(self) -> bool {
        &&& self.contents.len() > 0
        &&& self.head < self.contents.len()
        &&& self.size <= self.contents.len()
    }

    /// A ring of `capacity` slots without measurements.
    pub open spec fn empty(capacity: nat) -> TimeBufferView {
        TimeBufferView { head: 0, size: 0, contents: Seq::new(capacity, |i: int| 0u64) }
    }

    /// The ring after `sample` was written to the slot after the head.
    pub open spec fn pushed(self, sample: u64) -> TimeBufferView {
        let head: nat = (((self.head + 1) as int) % (self.contents.len() as int)) as nat;
        TimeBufferView {
            head,
            size: if self.size + 1 <= self.contents.len() {
                self.size + 1
            } else {
                self.contents.len()
            },
            contents: self.contents.update(head as int, sample),
        }
    }

    /// The sum of the first `size` slots, divided by `size`, or by one where
    /// nothing was measured.
    pub open spec fn mean(self) -> nat {
        total(self.contents, self.size) / (if self.size == 0 { 1nat } else { self.size })
    }
}

impl View for TimeBuffer {
    type V = TimeBufferView;

    closed spec fn view(&self) -> TimeBufferView {
        TimeBufferView {
            head: self.head as nat,
            size: self.size as nat,
            contents: self.contents@,
        }
    }
}

proof fn lemma_total_bound(samples: Seq<u64>, n: nat)
    requires
        n <= samples.len(),
    ensures
        total(samples, n) <= n * u64::MAX,
    decreases n,
{
    if n > 0 {
        lemma_total_bound(samples, (n - 1) as nat);
        assert((n - 1) * u64::MAX + u64::MAX == n * u64::MAX) by (nonlinear_arith);
    }
}

impl TimeBuffer {
    #[verifier::type_invariant]
    spec fn wf(&self) -> bool {
        self@.wf()
    }

    /// A ring of `capacity` slots.
    pub fn new(capacity: usize) -> (buffer: TimeBuffer)
        requires
            capacity > 0,
        ensures
            buffer@.wf(),
            buffer@ == TimeBufferView::empty(capacity as nat),
    {
        let mut contents: Vec<u64> = Vec::new();
        let mut i: usize = 0;
        while i < capacity
            invariant
                i <= capacity,
                contents@.len() == i,
                forall|k: int| 0 <= k < i ==> contents@[k] == 0,
            decreases capacity - i,
        {
            contents.push(0);
            i = i + 1;
        }
        assert(contents@ =~= TimeBufferView::empty(capacity as nat).contents);
        TimeBuffer { head: 0, size: 0, contents }
    }

    /// Takes in a measurement, in place of the oldest where the ring is full.
    pub fn push(&mut self, duration: u64)
        ensures
            old(self)@.wf(),
            final(self)@.wf(),
            final(self)@ == old(self)@.pushed(duration),
    {
        proof {
            use_type_invariant(&*self);
        }
        let len: usize = self.contents.len();
        proof {
            let next: int = self.head + 1;
            let slots: int = len as int;
            if next == slots {
                assert(next % slots == 0) by (nonlinear_arith)
                    requires
                        next == slots,
                        slots > 0,
                ;
            } else {
                assert(next % slots == next) by (nonlinear_arith)
                    requires
                        0 <= next < slots,
                ;
            }
        }
        self.head = if self.head + 1 == len {
            0
        } else {
            self.head + 1
        };
        self.contents[self.head] = duration;
        self.size = if self.size < len {
            self.size + 1
        } else {
            len
        };
    }

    /// The mean of the measurements.
    pub fn average(&self) -> (mean: u64)
        ensures
            self@.wf(),
            mean == self@.mean(),
    {
        proof {
            use_type_invariant(self);
        }
        let mut sum: u128 = 0;
        let mut i: usize = 0;
        while i < self.size
            invariant
                self.size <= self.contents@.len(),
                i <= self.size,
                sum == total(self.contents@, i as nat),
                sum <= i * u64::MAX,
            decreases self.size - i,
        {
            proof {
                lemma_total_bound(self.contents@, (i + 1) as nat);
                assert(i * u64::MAX + u64::MAX == (i + 1) * u64::MAX) by (nonlinear_arith);
                assert((i + 1) * u64::MAX <= usize::MAX * u64::MAX) by (nonlinear_arith)
                    requires
                        i + 1 <= usize::MAX,
                ;
            }
            sum = sum + self.contents[i] as u128;
            i = i + 1;
        }
        let count: u128 = if self.size == 0 {
            1
        } else {
            self.size as u128
        };
        let mean: u128 = sum / count;
        proof {
            assert(sum / count <= u64::MAX) by (nonlinear_arith)
                requires
                    sum <= self.size * u64::MAX,
                    count == (if self.size == 0 { 1int } else { self.size as int }),
            ;
        }
        mean as u64
    }
}

/// Taking in a measurement leaves the ring in order, with the slots that it
/// had: only the slot after the head is written, and it becomes the head.
pub proof fn lemma_pushed_keeps_slots(ring: TimeBufferView, sample: u64)
    requires
        ring.wf(),
    ensures
        ring.pushed(sample).wf(),
        ring.pushed(sample).contents.len() == ring.contents.len(),
        ring.pushed(sample).contents[ring.pushed(sample).head as int] == sample,
        forall|i: int|
            0 <= i < ring.contents.len() && i != ring.pushed(sample).head ==> ring.pushed(
                sample,
            ).contents[i] == ring.contents[i],
{
    let next: int = (ring.head + 1) as int;
    let slots: int = ring.contents.len() as int;
    if next == slots {
        assert(next % slots == 0) by (nonlinear_arith)
            requires
                next == slots,
                slots > 0,
        ;
    } else {
        assert(next % slots == next) by (nonlinear_arith)
            requires
                0 <= next < slots,
        ;
    }
}

/// A stage whose time is measured.
#[derive(Clone, Copy, Debug, PartialEq, Eq, Structural)]
pub enum Stage {
    Startup,
    Update,
    View,
    Layout,
    EventProcessing,
    Draw,
    Render,
    LayerGeneration,
    TriangleDraw,
    SwapBuffer,
}

/// The time measurements of the renderer.
#[derive(Debug)]
pub struct RenderDebug {
    start: Instant,
    durations: TimeBuffer,
    layer_generation_start: Instant,
    layer_generation_durations: TimeBuffer,
    triangle_draw_start: Instant,
    triangle_draw_durations: TimeBuffer,
    swap_buffer_start: Instant,
    swap_buffer_durations: TimeBuffer,
}

/// The time measurements of an application, and its most recent messages.
#[derive(Debug)]
pub struct Debug {
    is_enabled: bool,
    startup_start: Instant,
    startup_duration: u64,
    update_start: Instant,
    update_durations: TimeBuffer,
    view_start: Instant,
    view_durations: TimeBuffer,
    layout_start: Instant,
    layout_durations: TimeBuffer,
    event_start: Instant,
    event_durations: TimeBuffer,
    draw_start: Instant,
    draw_durations: TimeBuffer,
    render: RenderDebug,
    message_count: usize,
    last_messages: VecDeque<String>,
}

/// When each stage has begun last.
pub struct Starts {
    pub startup: Instant,
    pub update: Instant,
    pub view: Instant,
    pub layout: Instant,
    pub event: Instant,
    pub draw: Instant,
    pub render: Instant,
    pub layer_generation: Instant,
    pub triangle_draw: Instant,
    pub swap_buffer: Instant,
}

impl Starts {
    /// Every stage begun at `at`.
    pub open spec fn all(at: Instant) -> Starts {
        Starts {
            startup: at,
            update: at,
            view: at,
            layout: at,
            event: at,
            draw: at,
            render: at,
            layer_generation: at,
            triangle_draw: at,
            swap_buffer: at,
        }
    }

    /// These starts with `stage` begun at `at`.
    pub open spec fn with(self, stage: Stage, at: Instant) -> Starts {
        match stage {
            Stage::Startup => Starts { startup: at, ..self },
            Stage::Update => Starts { update: at, ..self },
            Stage::View => Starts { view: at, ..self },
            Stage::Layout => Starts { layout: at, ..self },
            Stage::EventProcessing => Starts { event: at, ..self },
            Stage::Draw => Starts { draw: at, ..self },
            Stage::Render => Starts { render: at, ..self },
            Stage::LayerGeneration => Starts { layer_generation: at, ..self },
            Stage::TriangleDraw => Starts { triangle_draw: at, ..self },
            Stage::SwapBuffer => Starts { swap_buffer: at, ..self },
        }
    }

    /// When `stage` has begun last.
    pub open spec fn of(self, stage: Stage) -> Instant {
        match stage {
            Stage::Startup => self.startup,
            Stage::Update => self.update,
            Stage::View => self.view,
            Stage::Layout => self.layout,
            Stage::EventProcessing => self.event,
            Stage::Draw => self.draw,
            Stage::Render => self.render,
            Stage::LayerGeneration => self.layer_generation,
            Stage::TriangleDraw => self.triangle_draw,
            Stage::SwapBuffer => self.swap_buffer,
        }
    }
}

/// What a [`struct@Debug`] holds: when each stage has begun, what it has
/// measured, and the messages that it keeps.
pub struct DebugView {
    /// When each stage has begun last: the time from which the end of the
    /// stage is measured.
    pub starts: Starts,
    pub is_enabled: bool,
    pub startup: u64,
    pub update: TimeBufferView,
    pub view: TimeBufferView,
    pub layout: TimeBufferView,
    pub event: TimeBufferView,
    pub draw: TimeBufferView,
    pub render: TimeBufferView,
    pub layer_generation: TimeBufferView,
    pub triangle_draw: TimeBufferView,
    pub swap_buffer: TimeBufferView,
    pub message_count: nat,
    pub last_messages: Seq<String>,
}

impl DebugView {
    /// What holds of every state: each ring of measurements is in order.
    pub open spec fn wf(self) -> bool {
        &&& self.update.wf()
        &&& self.view.wf()
        &&& self.layout.wf()
        &&& self.event.wf()
        &&& self.draw.wf()
        &&& self.render.wf()
        &&& self.layer_generation.wf()
        &&& self.triangle_draw.wf()
        &&& self.swap_buffer.wf()
    }

    /// Nothing measured, nothing logged, the overlay switched off, and
    /// every stage begun at `at`.
    pub open spec fn fresh(at: Instant) -> DebugView {
        DebugView {
            starts: Starts::all(at),
            is_enabled: false,
            startup: 0,
            update: TimeBufferView::empty(STAGE_SAMPLES as nat),
            view: TimeBufferView::empty(STAGE_SAMPLES as nat),
            layout: TimeBufferView::empty(STAGE_SAMPLES as nat),
            event: TimeBufferView::empty(STAGE_SAMPLES as nat),
            draw: TimeBufferView::empty(STAGE_SAMPLES as nat),
            render: TimeBufferView::empty(RENDER_SAMPLES as nat),
            layer_generation: TimeBufferView::empty(RENDER_SAMPLES as nat),
            triangle_draw: TimeBufferView::empty(RENDER_SAMPLES as nat),
            swap_buffer: TimeBufferView::empty(RENDER_SAMPLES as nat),
            message_count: 0,
            last_messages: Seq::empty(),
        }
    }

    /// The state after `stage` has begun at `at`: the end of the stage is
    /// measured from `at` from now on. Nothing that was measured changes.
    pub open spec fn begun(self, stage: Stage, at: Instant) -> DebugView {
        DebugView { starts: self.starts.with(stage, at), ..self }
    }

    /// Whether `self` is `before` after `stage` has begun at some time:
    /// nothing but the start of that stage differs.
    pub open spec fn begun_from(self, before: DebugView, stage: Stage) -> bool {
        exists|at: Instant| self == #[trigger] before.begun(stage, at)
    }

    /// The measurements after `stage` has taken `nanos` nanoseconds: the
    /// startup time is replaced, any other time joins those of its stage.
    pub open spec fn measured(self, stage: Stage, nanos: u64) -> DebugView {
        match stage {
            Stage::Startup => DebugView { startup: nanos, ..self },
            Stage::Update => DebugView { update: self.update.pushed(nanos), ..self },
            Stage::View => DebugView { view: self.view.pushed(nanos), ..self },
            Stage::Layout => DebugView { layout: self.layout.pushed(nanos), ..self },
            Stage::EventProcessing => DebugView { event: self.event.pushed(nanos), ..self },
            Stage::Draw => DebugView { draw: self.draw.pushed(nanos), ..self },
            Stage::Render => DebugView { render: self.render.pushed(nanos), ..self },
            Stage::LayerGeneration => DebugView {
                layer_generation: self.layer_generation.pushed(nanos),
                ..self
            },
            Stage::TriangleDraw => DebugView {
                triangle_draw: self.triangle_draw.pushed(nanos),
                ..self
            },
            Stage::SwapBuffer => DebugView { swap_buffer: self.swap_buffer.pushed(nanos), ..self },
        }
    }

    /// Whether `self` is `before` after `stage` has taken some time.
    pub open spec fn measured_from(self, before: DebugView, stage: Stage) -> bool {
        exists|nanos: u64| self == #[trigger] before.measured(stage, nanos)
    }

    /// The state after `message` was logged: it is counted, as far as the
    /// count goes, and kept as the last of at most ten messages.
    pub open spec fn logged(self, message: String) -> DebugView {
        let kept = self.last_messages.push(message);
        DebugView {
            message_count: if self.message_count < usize::MAX {
                self.message_count + 1
            } else {
                self.message_count
            },
            last_messages: if kept.len() > KEPT_MESSAGES {
                kept.drop_first()
            } else {
                kept
            },
            ..self
        }
    }

    /// The lines of the overlay: none while it is switched off.
    pub open spec fn lines(self) -> Seq<Seq<char>> {
        if !self.is_enabled {
            Seq::empty()
        } else {
            seq![
                "render_core 0.1.0"@,
                timed("Startup:"@, self.startup),
                timed("Update:"@, self.update.mean() as u64),
                timed("View:"@, self.view.mean() as u64),
                timed("Layout:"@, self.layout.mean() as u64),
                timed("Event processing:"@, self.event.mean() as u64),
                timed("Primitive generation:"@, self.draw.mean() as u64),
                timed("Render:"@, self.render.mean() as u64),
                timed("Layer Generation:"@, self.layer_generation.mean() as u64),
                timed("Triangle Draw:"@, self.triangle_draw.mean() as u64),
                timed("Swap Buffer:"@, self.swap_buffer.mean() as u64),
                "Message count:"@ + " "@ + digits(self.message_count),
                "Last messages:"@,
            ] + Seq::new(self.last_messages.len(), |i: int| shown(self.last_messages[i]))
        }
    }
}

/// The line that shows the time `nanos` under the heading `key`.
pub open spec fn timed(key: Seq<char>, nanos: u64) -> Seq<char> {
    key + " "@ + duration_text(nanos)
}

/// The number of bytes that `text` takes in UTF-8, as a `str` reports it.
pub open spec fn byte_len(text: Seq<char>) -> usize {
    #[verifier::truncate]
    (vstd::utf8::encode_utf8(text).len() as usize)
}

/// The line that shows a message: indented by four spaces, and cut to its
/// first hundred characters, with three dots behind them, where it is longer
/// than a hundred bytes.
pub open spec fn shown(message: String) -> Seq<char> {
    if byte_len(message@) <= SHOWN_CHARS {
        "    "@ + message@
    } else if message@.len() <= SHOWN_CHARS {
        "    "@ + message@ + "..."@
    } else {
        "    "@ + message@.subrange(0, SHOWN_CHARS as int) + "..."@
    }
}

impl View for Debug {
    type V = DebugView;

    closed spec fn view(&self) -> DebugView {
        DebugView {
            starts: Starts {
                startup: self.startup_start,
                update: self.update_start,
                view: self.view_start,
                layout: self.layout_start,
                event: self.event_start,
                draw: self.draw_start,
                render: self.render.start,
                layer_generation: self.render.layer_generation_start,
                triangle_draw: self.render.triangle_draw_start,
                swap_buffer: self.render.swap_buffer_start,
            },
            is_enabled: self.is_enabled,
            startup: self.startup_duration,
            update: self.update_durations@,
            view: self.view_durations@,
            layout: self.layout_durations@,
            event: self.event_durations@,
            draw: self.draw_durations@,
            render: self.render.durations@,
            layer_generation: self.render.layer_generation_durations@,
            triangle_draw: self.render.triangle_draw_durations@,
            swap_buffer: self.render.swap_buffer_durations@,
            message_count: self.message_count as nat,
            last_messages: self.last_messages@,
        }
    }
}

impl Debug {
    /// Nothing is done: what holds of each ring is made known.
    fn sound(&self)
        ensures
            self@.wf(),
    {
        proof {
            use_type_invariant(&self.update_durations);
            use_type_invariant(&self.view_durations);
            use_type_invariant(&self.layout_durations);
            use_type_invariant(&self.event_durations);
            use_type_invariant(&self.draw_durations);
            use_type_invariant(&self.render.durations);
            use_type_invariant(&self.render.layer_generation_durations);
            use_type_invariant(&self.render.triangle_draw_durations);
            use_type_invariant(&self.render.swap_buffer_durations);
        }
    }

    /// Measurements of nothing yet, with the overlay switched off, and
    /// every stage begun at the present time.
    pub fn new() -> (debug: Debug)
        ensures
            exists|at: Instant| debug@ == #[trigger] DebugView::fresh(at),
            debug@.wf(),
    {
        let at = now();
        Debug::at(at)
    }

    /// Measurements of nothing yet, with the overlay switched off, and
    /// every stage begun at `now`.
    pub fn at(now: Instant) -> (debug: Debug)
        ensures
            debug@ == DebugView::fresh(now),
            debug@.wf(),
    {
        Debug {
            is_enabled: false,
            startup_start: now,
            startup_duration: 0,
            update_start: now,
            update_durations: TimeBuffer::new(STAGE_SAMPLES),
            view_start: now,
            view_durations: TimeBuffer::new(STAGE_SAMPLES),
            layout_start: now,
            layout_durations: TimeBuffer::new(STAGE_SAMPLES),
            event_start: now,
            event_durations: TimeBuffer::new(STAGE_SAMPLES),
            draw_start: now,
            draw_durations: TimeBuffer::new(STAGE_SAMPLES),
            render: RenderDebug {
                start: now,
                durations: TimeBuffer::new(RENDER_SAMPLES),
                layer_generation_start: now,
                layer_generation_durations: TimeBuffer::new(RENDER_SAMPLES),
                triangle_draw_start: now,
                triangle_draw_durations: TimeBuffer::new(RENDER_SAMPLES),
                swap_buffer_start: now,
                swap_buffer_durations: TimeBuffer::new(RENDER_SAMPLES),
            },
            message_count: 0,
            last_messages: VecDeque::new(),
        }
    }

    /// Takes in that `stage` has begun at `at`.
    pub fn begin(&mut self, stage: Stage, at: Instant)
        ensures
            final(self)@ == old(self)@.begun(stage, at),
            final(self)@.wf(),
    {
        match stage {
            Stage::Startup => {
                self.startup_start = at;
            },
            Stage::Update => {
                self.update_start = at;
            },
            Stage::View => {
                self.view_start = at;
            },
            Stage::Layout => {
                self.layout_start = at;
            },
            Stage::EventProcessing => {
                self.event_start = at;
            },
            Stage::Draw => {
                self.draw_start = at;
            },
            Stage::Render => {
                self.render.start = at;
            },
            Stage::LayerGeneration => {
                self.render.layer_generation_start = at;
            },
            Stage::TriangleDraw => {
                self.render.triangle_draw_start = at;
            },
            Stage::SwapBuffer => {
                self.render.swap_buffer_start = at;
            },
        }
        self.sound();
    }

    /// Switches the overlay on or off.
    pub fn toggle(&mut self)
        ensures
            final(self)@ == (DebugView { is_enabled: !old(self)@.is_enabled, ..old(self)@ }),
            final(self)@.wf(),
    {
        self.is_enabled = !self.is_enabled;
        self.sound();
    }

    /// Takes in that `stage` has taken `nanos` nanoseconds.
    pub fn record(&mut self, stage: Stage, nanos: u64)
        ensures
            final(self)@ == old(self)@.measured(stage, nanos),
            final(self)@.wf(),
    {
        match stage {
            Stage::Startup => {
                self.startup_duration = nanos;
            },
            Stage::Update => {
                self.update_durations.push(nanos);
            },
            Stage::View => {
                self.view_durations.push(nanos);
            },
            Stage::Layout => {
                self.layout_durations.push(nanos);
            },
            Stage::EventProcessing => {
                self.event_durations.push(nanos);
            },
            Stage::Draw => {
                self.draw_durations.push(nanos);
            },
            Stage::Render => {
                self.render.durations.push(nanos);
            },
            Stage::LayerGeneration => {
                self.render.layer_generation_durations.push(nanos);
            },
            Stage::TriangleDraw => {
                self.render.triangle_draw_durations.push(nanos);
            },
            Stage::SwapBuffer => {
                self.render.swap_buffer_durations.push(nanos);
            },
        }
        self.sound();
    }

    /// Takes the present time as the time at which the startup has begun. The
    /// end of the stage is measured from it; nothing else changes.
    pub fn startup_started(&mut self)
        ensures
            final(self)@.begun_from(old(self)@, Stage::Startup),
            final(self)@.wf(),
    {
        let at = now();
        self.begin(Stage::Startup, at);
    }

    pub fn startup_finished(&mut self)
        ensures
            final(self)@.measured_from(old(self)@, Stage::Startup),
            final(self)@.wf(),
    {
        let nanos = nanos_since(&self.startup_start);
        self.record(Stage::Startup, nanos);
    }

    /// Takes the present time as the time at which an update has begun. The
    /// end of the stage is measured from it; nothing else changes.
    pub fn update_started(&mut self)
        ensures
            final(self)@.begun_from(old(self)@, Stage::Update),
            final(self)@.wf(),
    {
        let at = now();
        self.begin(Stage::Update, at);
    }

    pub fn update_finished(&mut self)
        ensures
            final(self)@.measured_from(old(self)@, Stage::Update),
            final(self)@.wf(),
    {
        let nanos = nanos_since(&self.update_start);
        self.record(Stage::Update, nanos);
    }

    /// Takes the present time as the time at which the building of the view has begun. The
    /// end of the stage is measured from it; nothing else changes.
    pub fn view_started(&mut self)
        ensures
            final(self)@.begun_from(old(self)@, Stage::View),
            final(self)@.wf(),
    {
        let at = now();
        self.begin(Stage::View, at);
    }

    pub fn view_finished(&mut self)
        ensures
            final(self)@.measured_from(old(self)@, Stage::View),
            final(self)@.wf(),
    {
        let nanos = nanos_since(&self.view_start);
        self.record(Stage::View, nanos);
    }

    /// Takes the present time as the time at which the layout has begun. The
    /// end of the stage is measured from it; nothing else changes.
    pub fn layout_started(&mut self)
        ensures
            final(self)@.begun_from(old(self)@, Stage::Layout),
            final(self)@.wf(),
    {
        let at = now();
        self.begin(Stage::Layout, at);
    }

    pub fn layout_finished(&mut self)
        ensures
            final(self)@.measured_from(old(self)@, Stage::Layout),
            final(self)@.wf(),
    {
        let nanos = nanos_since(&self.layout_start);
        self.record(Stage::Layout, nanos);
    }

    /// Takes the present time as the time at which the processing of events has begun. The
    /// end of the stage is measured from it; nothing else changes.
    pub fn event_processing_started(&mut self)
        ensures
            final(self)@.begun_from(old(self)@, Stage::EventProcessing),
            final(self)@.wf(),
    {
        let at = now();
        self.begin(Stage::EventProcessing, at);
    }

    pub fn event_processing_finished(&mut self)
        ensures
            final(self)@.measured_from(old(self)@, Stage::EventProcessing),
            final(self)@.wf(),
    {
        let nanos = nanos_since(&self.event_start);
        self.record(Stage::EventProcessing, nanos);
    }

    /// Takes the present time as the time at which the generation of primitives has begun. The
    /// end of the stage is measured from it; nothing else changes.
    pub fn draw_started(&mut self)
        ensures
            final(self)@.begun_from(old(self)@, Stage::Draw),
            final(self)@.wf(),
    {
        let at = now();
        self.begin(Stage::Draw, at);
    }

    pub fn draw_finished(&mut self)
        ensures
            final(self)@.measured_from(old(self)@, Stage::Draw),
            final(self)@.wf(),
    {
        let nanos = nanos_since(&self.draw_start);
        self.record(Stage::Draw, nanos);
    }

    /// Takes the present time as the time at which the rendering has begun. The
    /// end of the stage is measured from it; nothing else changes.
    pub fn render_started(&mut self)
        ensures
            final(self)@.begun_from(old(self)@, Stage::Render),
            final(self)@.wf(),
    {
        let at = now();
        self.begin(Stage::Render, at);
    }

    /// Takes the present time as the time at which the generation of layers has begun. The
    /// end of the stage is measured from it; nothing else changes.
    pub fn layer_generation_start(&mut self)
        ensures
            final(self)@.begun_from(old(self)@, Stage::LayerGeneration),
            final(self)@.wf(),
    {
        let at = now();
        self.begin(Stage::LayerGeneration, at);
    }

    pub fn layer_generation_finished(&mut self)
        ensures
            final(self)@.measured_from(old(self)@, Stage::LayerGeneration),
            final(self)@.wf(),
    {
        let nanos = nanos_since(&self.render.layer_generation_start);
        self.record(Stage::LayerGeneration, nanos);
    }

    /// Takes the present time as the time at which the drawing of triangles has begun. The
    /// end of the stage is measured from it; nothing else changes.
    pub fn triangle_draw_start(&mut self)
        ensures
            final(self)@.begun_from(old(self)@, Stage::TriangleDraw),
            final(self)@.wf(),
    {
        let at = now();
        self.begin(Stage::TriangleDraw, at);
    }

    pub fn triangle_draw_end(&mut self)
        ensures
            final(self)@.measured_from(old(self)@, Stage::TriangleDraw),
            final(self)@.wf(),
    {
        let nanos = nanos_since(&self.render.triangle_draw_start);
        self.record(Stage::TriangleDraw, nanos);
    }

    /// Takes the present time as the time at which the swapping of buffers has begun. The
    /// end of the stage is measured from it; nothing else changes.
    pub fn swap_buffer_start(&mut self)
        ensures
            final(self)@.begun_from(old(self)@, Stage::SwapBuffer),
            final(self)@.wf(),
    {
        let at = now();
        self.begin(Stage::SwapBuffer, at);
    }

    pub fn swap_buffer_end(&mut self)
        ensures
            final(self)@.measured_from(old(self)@, Stage::SwapBuffer),
            final(self)@.wf(),
    {
        let nanos = nanos_since(&self.render.swap_buffer_start);
        self.record(Stage::SwapBuffer, nanos);
    }

    pub fn render_finished(&mut self)
        ensures
            final(self)@.measured_from(old(self)@, Stage::Render),
            final(self)@.wf(),
    {
        let nanos = nanos_since(&self.render.start);
        self.record(Stage::Render, nanos);
    }

    /// Logs a message, in the text that its `Debug` formatting gives.
    pub fn log_message<Message: core::fmt::Debug>(&mut self, message: &Message)
        ensures
            exists|text: String| final(self)@ == #[trigger] old(self)@.logged(text),
            final(self)@.wf(),
    {
        let text = debug_text(message);
        self.log_text(text);
    }

    /// Logs a message that is text already.
    pub fn log_text(&mut self, message: String)
        ensures
            final(self)@ == old(self)@.logged(message),
            final(self)@.wf(),
    {
        self.sound();
        self.last_messages.push_back(message);
        if self.last_messages.len() > KEPT_MESSAGES {
            let _ = self.last_messages.pop_front();
        }
        if self.message_count < usize::MAX {
            self.message_count = self.message_count + 1;
        }
        assert(final(self)@.last_messages =~= old(self)@.logged(message).last_messages);
    }
}

impl Default for Debug {
    fn default() -> (debug: Debug)
        ensures
            exists|at: Instant| debug@ == #[trigger] DebugView::fresh(at),
            debug@.wf(),
    {
        Debug::new()
    }
}

/// The texts of `lines`.
pub open spec fn texts(lines: Seq<String>) -> Seq<Seq<char>> {
    Seq::new(lines.len(), |i: int| lines[i]@)
}

fn key_value(key: &str, nanos: u64) -> (line: String)
    ensures
        line@ == timed(key@, nanos),
{
    let mut line = String::from_str(key);
    line.append(" ");
    let value = format_duration(nanos);
    line.append(value.as_str());
    line
}

fn show(message: &String) -> (line: String)
    ensures
        line@ == shown(*message),
{
    let mut line = String::from_str("    ");
    let bytes: usize = message.as_str().len();
    if bytes <= SHOWN_CHARS {
        line.append(message.as_str());
        assert(line@ =~= shown(*message));
    } else {
        let chars: usize = message.as_str().unicode_len();
        if chars <= SHOWN_CHARS {
            line.append(message.as_str());
        } else {
            line.append(message.as_str().substring_char(0, SHOWN_CHARS));
        }
        line.append("...");
        assert(line@ =~= shown(*message));
    }
    line
}

impl Debug {
    /// The lines of the overlay: the name of the library, the time of each
    /// stage, the number of messages, and the messages that are kept.
    pub fn overlay(&self) -> (lines: Vec<String>)
        ensures
            texts(lines@) == self@.lines(),
            self@.wf(),
    {
        self.sound();
        if !self.is_enabled {
            let lines: Vec<String> = Vec::new();
            assert(texts(lines@) =~= self@.lines());
            return lines;
        }
        let mut lines: Vec<String> = Vec::new();
        lines.push(String::from_str("render_core 0.1.0"));
        lines.push(key_value("Startup:", self.startup_duration));
        lines.push(key_value("Update:", self.update_durations.average()));
        lines.push(key_value("View:", self.view_durations.average()));
        lines.push(key_value("Layout:", self.layout_durations.average()));
        lines.push(key_value("Event processing:", self.event_durations.average()));
        lines.push(key_value("Primitive generation:", self.draw_durations.average()));
        lines.push(key_value("Render:", self.render.durations.average()));
        lines.push(key_value("Layer Generation:", self.render.layer_generation_durations.average()));
        lines.push(key_value("Triangle Draw:", self.render.triangle_draw_durations.average()));
        lines.push(key_value("Swap Buffer:", self.render.swap_buffer_durations.average()));
        let mut count = String::from_str("Message count:");
        count.append(" ");
        let number = decimal(self.message_count as u64);
        count.append(number.as_str());
        lines.push(count);
        lines.push(String::from_str("Last messages:"));
        let ghost head = texts(lines@);
        assert(head =~= self@.lines().subrange(0, 13));
        let mut i: usize = 0;
        while i < self.last_messages.len()
            invariant
                i <= self.last_messages@.len(),
                self.is_enabled,
                lines@.len() == 13 + i,
                texts(lines@) == self@.lines().subrange(0, 13 + i),
            decreases self.last_messages.len() - i,
        {
            let line = show(&self.last_messages[i]);
            lines.push(line);
            assert(texts(lines@) =~= self@.lines().subrange(0, 13 + i + 1));
            i = i + 1;
        }
        assert(texts(lines@) =~= self@.lines());
        lines
    }
}

} // verus!
