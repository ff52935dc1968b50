//! The bookkeeping that the pipelines of quads, images and text share.
//!
//! Such a pipeline is prepared once for each layer of a frame that draws
//! with it, and later asked to draw each of those layers. It keeps one
//! buffer of instances for each layer, from frame to frame, so that a buffer
//! is made anew only where a layer has outgrown it.
use vstd::prelude::*;
use crate::buffer::{byte_size, Region, Static, StaticView};
use crate::geometry::PixelRect;

verus! {

/// The number of instances that the buffer of a layer has room for when it
/// is made.
pub const INITIAL_INSTANCES: usize = 10_000;

/// What preparing a layer has come to.
#[derive(Clone, Copy, Debug, PartialEq, Eq, Structural)]
pub struct Prepared {
    /// The layer of the pipeline that was prepared.
    pub layer: usize,
    /// Whether the layer is new, and its buffer has to be made first.
    pub created: bool,
    /// Whether the buffer was too small and has to be made anew: whatever is
    /// bound to it has to be bound again before the layer is drawn.
    pub resized: bool,
    /// The bytes of the buffer that the instances are written to.
    pub region: Region,
}

/// One draw of the instances of a layer.
#[derive(Clone, Copy, Debug, PartialEq, Eq, Structural)]
pub struct Draw {
    pub layer: usize,
    /// The scissor rectangle of the draw.
    pub scissor: PixelRect,
    /// The number of instances to draw.
    pub instances: usize,
}

/// The buffer of one layer, and the number of instances written to it.
#[derive(Debug)]
pub struct Slot {
    pub buffer: Static,
    pub count: usize,
}

/// The mathematical state of a [`Slot`].
pub struct SlotView {
    pub buffer: StaticView,
    pub count: usize,
}

/// The bookkeeping of a pipeline that draws instances layer by layer.
#[derive(Debug)]
pub struct Pipeline {
    stride: u64,
    initial: usize,
    slots: Vec<Slot>,
    prepare_layer: usize,
}

/// The mathematical state of a [`Pipeline`].
pub struct PipelineView {
    /// The number of bytes of one instance.
    pub stride: u64,
    /// The number of instances that a new buffer has room for.
    pub initial: usize,
    /// The layers that have a buffer.
    pub slots: Seq<SlotView>,
    /// The number of layers that were prepared in this frame.
    pub prepare_layer: usize,
}

impl PipelineView {
    /// The layer that is prepared next: the one after those that were
    /// prepared in this frame, which is a new one where all that have a
    /// buffer were prepared.
    pub open spec fn next_layer(self) -> int {
        if self.prepare_layer as int >= self.slots.len() {
            self.slots.len() as int
        } else {
            self.prepare_layer as int
        }
    }

    /// The slot of the next layer before it is prepared.
    pub open spec fn next_slot(self) -> SlotView {
        if self.prepare_layer as int >= self.slots.len() {
            SlotView {
                buffer: StaticView {
                    stride: self.stride,
                    size: byte_size(self.stride, self.initial),
                    offsets: Seq::empty(),
                },
                count: 0,
            }
        } else {
            self.slots[self.prepare_layer as int]
        }
    }

    /// The state after the next layer was prepared for `count` instances:
    /// its buffer has room for them, and they are written to its start.
    pub open spec fn prepared(self, count: usize) -> PipelineView {
        let slot = SlotView { buffer: self.next_slot().buffer.resized(count).written(0), count };
        PipelineView {
            slots: if self.prepare_layer as int >= self.slots.len() {
                self.slots.push(slot)
            } else {
                self.slots.update(self.prepare_layer as int, slot)
            },
            prepare_layer: (self.next_layer() + 1) as usize,
            ..self
        }
    }

    /// What preparing the next layer for `count` instances reports.
    pub open spec fn preparation(self, count: usize) -> Prepared {
        Prepared {
            layer: self.next_layer() as usize,
            created: self.prepare_layer as int >= self.slots.len(),
            resized: self.next_slot().buffer.size < byte_size(
                self.next_slot().buffer.stride,
                count,
            ),
            region: Region { offset: 0, len: byte_size(self.next_slot().buffer.stride, count) },
        }
    }

    /// The draw of `layer`, if the layer was prepared in this frame.
    pub open spec fn draw_of(self, layer: usize, scissor: PixelRect) -> Option<Draw> {
        if layer < self.prepare_layer && (layer as int) < self.slots.len() {
            Some(Draw { layer, scissor, instances: self.slots[layer as int].count })
        } else {
            None
        }
    }
}

impl View for Slot {
    type V = SlotView;

    open spec fn view(&self) -> SlotView {
        SlotView { buffer: self.buffer@, count: self.count }
    }
}

/// The values of a list of slots.
pub open spec fn slot_views(slots: Seq<Slot>) -> Seq<SlotView> {
    Seq::new(slots.len(), |i: int| slots[i]@)
}

impl View for Pipeline {
    type V = PipelineView;

    closed spec fn view(&self) -> PipelineView {
        PipelineView {
            stride: self.stride,
            initial: self.initial,
            slots: slot_views(self.slots@),
            prepare_layer: self.prepare_layer,
        }
    }
}

impl Pipeline {
    /// A pipeline of instances of `stride` bytes, whose buffers are made
    /// with room for `initial` instances.
    pub fn new(stride: u64, initial: usize) -> (pipeline: Pipeline)
        ensures
            pipeline@ == (PipelineView {
                stride,
                initial,
                slots: Seq::empty(),
                prepare_layer: 0,
            }),
    {
        let pipeline = Pipeline { stride, initial, slots: Vec::new(), prepare_layer: 0 };
        assert(slot_views(pipeline.slots@) =~= Seq::empty());
        pipeline
    }

    /// Prepares the next layer of the frame for `count` instances.
    pub fn prepare(&mut self, count: usize) -> (prepared: Prepared)
        ensures
            final(self)@ == old(self)@.prepared(count),
            prepared == old(self)@.preparation(count),
    {
        let created: bool = self.prepare_layer >= self.slots.len();
        if created {
            self.slots.push(Slot { buffer: Static::new(self.stride, self.initial), count: 0 });
        }
        let layer: usize = if created {
            self.slots.len() - 1
        } else {
            self.prepare_layer
        };
        let resized = self.slots[layer].buffer.resize(count);
        let region = self.slots[layer].buffer.write(0, count);
        self.slots[layer].count = count;
        self.prepare_layer = layer + 1;
        assert(slot_views(self.slots@) =~= old(self)@.prepared(count).slots);
        Prepared { layer, created, resized, region }
    }

    /// The draw of `layer`, clipped to `scissor`: `None` unless the layer
    /// was prepared in this frame.
    pub fn render(&self, layer: usize, scissor: PixelRect) -> (draw: Option<Draw>)
        ensures
            draw == self@.draw_of(layer, scissor),
    {
        if layer < self.prepare_layer && layer < self.slots.len() {
            Some(Draw { layer, scissor, instances: self.slots[layer].count })
        } else {
            None
        }
    }

    /// Ends the frame: no layer counts as prepared any more. The buffers
    /// stay as they are.
    pub fn end_frame(&mut self)
        ensures
            final(self)@ == (PipelineView { prepare_layer: 0, ..old(self)@ }),
    {
        self.prepare_layer = 0;
    }

    /// The capacity in bytes of the buffer of `layer`, if it has one.
    pub fn capacity(&self, layer: usize) -> (bytes: Option<u64>)
        ensures
            bytes == if (layer as int) < self@.slots.len() {
                Some(self@.slots[layer as int].buffer.size)
            } else {
                None
            },
    {
        if layer < self.slots.len() {
            Some(self.slots[layer].buffer.size())
        } else {
            None
        }
    }
}

/// Preparing never shrinks a buffer: the buffer of the layer that was
/// prepared has room for what was submitted, and no less room than it had;
/// the buffers of the other layers are as they were. Ending the frame
/// changes no buffer.
pub proof fn lemma_prepare_grows(pipeline: PipelineView, count: usize)
    requires
        forall|i: int| 0 <= i < pipeline.slots.len() ==> (#[trigger] pipeline.slots[i]).buffer.stride
            == pipeline.stride,
    ensures
        ({
            let after = pipeline.prepared(count);
            let layer = pipeline.next_layer();
            &&& after.slots.len() >= pipeline.slots.len()
            &&& after.slots[layer].buffer.size >= byte_size(pipeline.stride, count)
            &&& after.slots[layer].buffer.size >= pipeline.next_slot().buffer.size
            &&& forall|i: int|
                0 <= i < pipeline.slots.len() && i != layer ==> after.slots[i] == pipeline.slots[i]
            &&& forall|i: int|
                0 <= i < after.slots.len() ==> (#[trigger] after.slots[i]).buffer.stride
                    == pipeline.stride
        }),
{
}

} // verus!
