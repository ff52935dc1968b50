//! The sequencing of a frame.
//!
//! A frame goes through four phases: its layers are prepared, the text of
//! the layers is prepared until the atlas of glyphs holds all of it, the
//! layers are drawn, and the frame is ended. What is to be done on the
//! graphics card in each phase is decided here and handed out as a list of
//! commands.
use vstd::prelude::*;
use crate::blur::{Direction, Stage};
use crate::color::Color;
use crate::geometry::PixelRect;
use crate::layer::{Layer, LayerView, views};
use crate::pipeline::{Pipeline, PipelineView, Prepared, INITIAL_INSTANCES};
use crate::primitive::{CustomPipeline, Font};
use crate::settings::Settings;

verus! {

/// What a render pass does with what its target holds when it begins.
#[derive(Clone, Copy, Debug, PartialEq, Eq, Structural)]
pub enum Load {
    /// The target is filled with a colour.
    Clear(Color),
    /// The target keeps what it holds.
    Keep,
}

/// What a render pass draws to.
#[derive(Clone, Copy, Debug, PartialEq, Eq, Structural)]
pub enum Target {
    /// The surface of the frame.
    Surface,
    /// The texture that the content of a blurred layer is drawn to.
    Offscreen,
}

/// One step of drawing a frame.
#[derive(Clone, Copy, Debug, PartialEq, Eq, Structural)]
pub enum Command {
    /// Begins a render pass.
    BeginPass { target: Target, load: Load },
    /// Ends the render pass.
    EndPass,
    /// Draws, inside the render pass, the quads that were prepared as the
    /// layer `layer` of the quad pipeline, clipped to `bounds`.
    Quads { layer: usize, bounds: PixelRect },
    /// Draws the meshes of the layer at `source`, which were prepared as the
    /// layer `layer` of the mesh pipeline. The draw has a render pass of its
    /// own, so none may be open.
    Meshes { layer: usize, source: usize, target: Target },
    /// Draws, inside the render pass, the images that were prepared as the
    /// layer `layer` of the image pipeline, clipped to `bounds`.
    Images { layer: usize, bounds: PixelRect },
    /// Draws, inside the render pass, the text that was prepared as the
    /// layer `layer` of the text pipeline, clipped to `bounds`.
    Text { layer: usize, bounds: PixelRect },
    /// Lets a custom pipeline draw, clipped to `bounds`. The pipeline has
    /// the encoder to itself, so no render pass may be open.
    Custom { pipeline: CustomPipeline, bounds: PixelRect },
    /// Makes sure that the offscreen texture has this size.
    ResizeOffscreen { width: u32, height: u32 },
    /// Runs one pass of the blur over the offscreen texture.
    Blur { direction: Direction, strength: i32 },
    /// Puts the blurred texture onto the surface, at `bounds`.
    Composite { bounds: PixelRect },
}

/// For each kind of drawing, the number of layers drawn so far: the layer
/// of the pipeline that the next layer of that kind is.
#[derive(Clone, Copy, Debug, PartialEq, Eq, Structural)]
pub struct Counters {
    pub quads: usize,
    pub meshes: usize,
    pub images: usize,
    pub text: usize,
}

/// Whether a layer covers a pixel at the scale factor `scale`. A layer that
/// covers none is neither prepared nor drawn.
pub open spec fn visible(layer: LayerView, scale: u32) -> bool {
    layer.bounds.snapped(scale).width >= 1 && layer.bounds.snapped(scale).height >= 1
}

/// One more than `n`, as far as a `usize` counts.
pub open spec fn succ(n: usize) -> usize {
    if n < usize::MAX {
        (n + 1) as usize
    } else {
        n
    }
}

/// The counters after `layer` was drawn.
pub open spec fn bumped(counters: Counters, layer: LayerView) -> Counters {
    Counters {
        quads: if layer.quads.len() > 0 {
            succ(counters.quads)
        } else {
            counters.quads
        },
        meshes: if layer.meshes.len() > 0 {
            succ(counters.meshes)
        } else {
            counters.meshes
        },
        images: if layer.images.len() > 0 {
            succ(counters.images)
        } else {
            counters.images
        },
        text: if layer.text.len() > 0 {
            succ(counters.text)
        } else {
            counters.text
        },
    }
}

/// The counters after the first `n` of `layers` were drawn.
pub open spec fn counters_after(layers: Seq<LayerView>, n: nat, scale: u32) -> Counters
    decreases n,
{
    if n == 0 || n > layers.len() {
        Counters { quads: 0, meshes: 0, images: 0, text: 0 }
    } else {
        let before = counters_after(layers, (n - 1) as nat, scale);
        if visible(layers[n - 1], scale) {
            bumped(before, layers[n - 1])
        } else {
            before
        }
    }
}

/// The commands that draw the lists of a layer to `target`, inside a render
/// pass that is open before and after: the quads, then the meshes, then the
/// images, then the text. For the meshes the pass is ended, and a pass that
/// keeps what was drawn is begun after them.
pub open spec fn content_commands(
    layer: LayerView,
    source: usize,
    counters: Counters,
    bounds: PixelRect,
    target: Target,
) -> Seq<Command> {
    (if layer.quads.len() > 0 {
        seq![Command::Quads { layer: counters.quads, bounds }]
    } else {
        Seq::empty()
    }) + (if layer.meshes.len() > 0 {
        seq![
            Command::EndPass,
            Command::Meshes { layer: counters.meshes, source, target },
            Command::BeginPass { target, load: Load::Keep },
        ]
    } else {
        Seq::empty()
    }) + (if layer.images.len() > 0 {
        seq![Command::Images { layer: counters.images, bounds }]
    } else {
        Seq::empty()
    }) + (if layer.text.len() > 0 {
        seq![Command::Text { layer: counters.text, bounds }]
    } else {
        Seq::empty()
    })
}

/// The commands that let the first `n` of `pipelines` draw, one after
/// another.
pub open spec fn custom_commands(pipelines: Seq<CustomPipeline>, n: nat, bounds: PixelRect) -> Seq<
    Command,
>
    decreases n,
{
    if n == 0 || n > pipelines.len() {
        Seq::empty()
    } else {
        custom_commands(pipelines, (n - 1) as nat, bounds).push(
            Command::Custom { pipeline: pipelines[n - 1], bounds },
        )
    }
}

/// The commands that draw one layer, between two moments at which a render
/// pass to the surface is open.
///
/// A layer that covers no pixel is left out. The lists of any other layer
/// are drawn to the surface, and after them the custom pipelines, for which
/// the pass is ended and begun anew. A blurred layer is drawn to the
/// offscreen texture instead: the pass is ended, the texture is brought to
/// the size of the layer and cleared, the lists are drawn to it, the two
/// passes of the blur run over it, and the result is put onto the surface.
pub open spec fn layer_commands(layer: LayerView, source: usize, counters: Counters, scale: u32) -> Seq<
    Command,
> {
    let bounds = layer.bounds.snapped(scale);
    let customs = custom_commands(layer.custom, layer.custom.len(), bounds);
    if !visible(layer, scale) {
        Seq::empty()
    } else {
        match layer.blur {
            None => content_commands(layer, source, counters, bounds, Target::Surface) + (
            if layer.custom.len() > 0 {
                seq![Command::EndPass] + customs + seq![
                    Command::BeginPass { target: Target::Surface, load: Load::Keep },
                ]
            } else {
                Seq::empty()
            }),
            Some(strength) => seq![
                Command::EndPass,
                Command::ResizeOffscreen { width: bounds.width, height: bounds.height },
                Command::BeginPass {
                    target: Target::Offscreen,
                    load: Load::Clear(Color { r: 0, g: 0, b: 0, a: 0 }),
                },
            ] + content_commands(layer, source, counters, bounds, Target::Offscreen) + seq![
                Command::EndPass,
                Command::Blur { direction: Direction::Horizontal, strength },
                Command::Blur { direction: Direction::Vertical, strength },
                Command::Composite { bounds },
            ] + customs + seq![Command::BeginPass { target: Target::Surface, load: Load::Keep }],
        }
    }
}

/// How the first render pass of a frame begins: with the clear colour, if
/// there is one.
pub open spec fn first_load(clear_color: Option<Color>) -> Load {
    match clear_color {
        Some(color) => Load::Clear(color),
        None => Load::Keep,
    }
}

/// The commands that begin a frame and draw the first `n` of `layers`, in
/// their order.
pub open spec fn layers_commands(
    layers: Seq<LayerView>,
    n: nat,
    clear_color: Option<Color>,
    scale: u32,
) -> Seq<Command>
    decreases n,
{
    if n == 0 || n > layers.len() {
        seq![Command::BeginPass { target: Target::Surface, load: first_load(clear_color) }]
    } else {
        layers_commands(layers, (n - 1) as nat, clear_color, scale) + layer_commands(
            layers[n - 1],
            (n - 1) as usize,
            counters_after(layers, (n - 1) as nat, scale),
            scale,
        )
    }
}

/// The commands that draw a frame: a render pass to the surface is begun,
/// the layers are drawn in their order, and the pass is ended.
pub open spec fn frame_commands(layers: Seq<LayerView>, clear_color: Option<Color>, scale: u32) -> Seq<
    Command,
> {
    layers_commands(layers, layers.len(), clear_color, scale).push(Command::EndPass)
}

/// Whether a render pass is open after `command`, given whether one was
/// open before; `None` where the command may not stand there. A pass is
/// begun only where none is open and ended only where one is. Quads, images
/// and text are drawn inside a pass; everything else needs the encoder to
/// itself.
pub open spec fn step(open: bool, command: Command) -> Option<bool> {
    match command {
        Command::BeginPass { .. } => if open {
            None
        } else {
            Some(true)
        },
        Command::EndPass => if open {
            Some(false)
        } else {
            None
        },
        Command::Quads { .. } | Command::Images { .. } | Command::Text { .. } => if open {
            Some(true)
        } else {
            None
        },
        _ => if open {
            None
        } else {
            Some(false)
        },
    }
}

/// Whether a render pass is open after `commands`, given whether one was
/// open before them; `None` where one of them may not stand where it does.
pub open spec fn passes(commands: Seq<Command>, open: bool) -> Option<bool>
    decreases commands.len(),
{
    if commands.len() == 0 {
        Some(open)
    } else {
        match passes(commands.drop_last(), open) {
            Some(then) => step(then, commands.last()),
            None => None,
        }
    }
}

/// The commands of two lists, one after the other, keep the render passes
/// in order where each list does, the second from where the first ends.
pub proof fn lemma_passes_append(first: Seq<Command>, second: Seq<Command>, open: bool)
    ensures
        passes(first + second, open) == match passes(first, open) {
            Some(then) => passes(second, then),
            None => None,
        },
    decreases second.len(),
{
    if second.len() == 0 {
        assert(first + second =~= first);
    } else {
        lemma_passes_append(first, second.drop_last(), open);
        assert((first + second).drop_last() =~= first + second.drop_last());
        assert((first + second).last() == second.last());
    }
}

/// A single command.
pub proof fn lemma_passes_one(command: Command, open: bool)
    ensures
        passes(seq![command], open) == step(open, command),
{
    let one = seq![command];
    assert(one.len() == 1);
    assert(one.drop_last() =~= Seq::<Command>::empty());
    assert(passes(Seq::<Command>::empty(), open) == Some(open));
    assert(one.last() == command);
}

/// The custom pipelines draw outside of any render pass, and leave none
/// open.
pub proof fn lemma_custom_passes(pipelines: Seq<CustomPipeline>, n: nat, bounds: PixelRect)
    ensures
        passes(custom_commands(pipelines, n, bounds), false) == Some(false),
    decreases n,
{
    if n == 0 || n > pipelines.len() {
    } else {
        lemma_custom_passes(pipelines, (n - 1) as nat, bounds);
        let before = custom_commands(pipelines, (n - 1) as nat, bounds);
        assert(custom_commands(pipelines, n, bounds).drop_last() =~= before);
    }
}

/// The lists of a layer are drawn inside a render pass and leave one open.
pub proof fn lemma_content_passes(
    layer: LayerView,
    source: usize,
    counters: Counters,
    bounds: PixelRect,
    target: Target,
)
    ensures
        passes(content_commands(layer, source, counters, bounds, target), true) == Some(true),
{
    let quads: Seq<Command> = if layer.quads.len() > 0 {
        seq![Command::Quads { layer: counters.quads, bounds }]
    } else {
        Seq::empty()
    };
    let meshes: Seq<Command> = if layer.meshes.len() > 0 {
        seq![
            Command::EndPass,
            Command::Meshes { layer: counters.meshes, source, target },
            Command::BeginPass { target, load: Load::Keep },
        ]
    } else {
        Seq::empty()
    };
    let images: Seq<Command> = if layer.images.len() > 0 {
        seq![Command::Images { layer: counters.images, bounds }]
    } else {
        Seq::empty()
    };
    let text: Seq<Command> = if layer.text.len() > 0 {
        seq![Command::Text { layer: counters.text, bounds }]
    } else {
        Seq::empty()
    };
    lemma_three(Command::EndPass, Command::Meshes { layer: counters.meshes, source, target },
        Command::BeginPass { target, load: Load::Keep }, true);
    lemma_passes_one(Command::Quads { layer: counters.quads, bounds }, true);
    lemma_passes_one(Command::Images { layer: counters.images, bounds }, true);
    lemma_passes_one(Command::Text { layer: counters.text, bounds }, true);
    lemma_passes_append(quads, meshes, true);
    lemma_passes_append(quads + meshes, images, true);
    lemma_passes_append(quads + meshes + images, text, true);
}

/// Three commands in a row.
pub proof fn lemma_three(a: Command, b: Command, c: Command, open: bool)
    ensures
        passes(seq![a, b, c], open) == match step(open, a) {
            Some(x) => match step(x, b) {
                Some(y) => step(y, c),
                None => None,
            },
            None => None,
        },
{
    lemma_passes_one(a, open);
    lemma_passes_one(b, true);
    lemma_passes_one(b, false);
    lemma_passes_one(c, true);
    lemma_passes_one(c, false);
    lemma_passes_append(seq![a], seq![b], open);
    lemma_passes_append(seq![a] + seq![b], seq![c], open);
    assert(seq![a, b, c] =~= seq![a] + seq![b] + seq![c]);
}

/// Four commands in a row.
pub proof fn lemma_four(a: Command, b: Command, c: Command, d: Command, open: bool)
    ensures
        passes(seq![a, b, c, d], open) == match passes(seq![a, b, c], open) {
            Some(x) => step(x, d),
            None => None,
        },
{
    let all = seq![a, b, c, d];
    assert(all.len() == 4);
    assert(all.drop_last() =~= seq![a, b, c]);
    assert(all.last() == d);
}

/// A layer is drawn from an open render pass to an open render pass, with
/// every command where it may stand.
pub proof fn lemma_layer_passes(layer: LayerView, source: usize, counters: Counters, scale: u32)
    ensures
        passes(layer_commands(layer, source, counters, scale), true) == Some(true),
{
    let bounds = layer.bounds.snapped(scale);
    let customs = custom_commands(layer.custom, layer.custom.len(), bounds);
    let keep = seq![Command::BeginPass { target: Target::Surface, load: Load::Keep }];
    lemma_custom_passes(layer.custom, layer.custom.len(), bounds);
    lemma_passes_one(Command::BeginPass { target: Target::Surface, load: Load::Keep }, false);
    lemma_passes_one(Command::EndPass, true);
    if visible(layer, scale) {
        match layer.blur {
            None => {
                let content = content_commands(layer, source, counters, bounds, Target::Surface);
                lemma_content_passes(layer, source, counters, bounds, Target::Surface);
                if layer.custom.len() > 0 {
                    lemma_passes_append(seq![Command::EndPass], customs, true);
                    lemma_passes_append(seq![Command::EndPass] + customs, keep, true);
                    lemma_passes_append(content, seq![Command::EndPass] + customs + keep, true);
                } else {
                    lemma_passes_append(content, Seq::empty(), true);
                }
            },
            Some(strength) => {
                let content = content_commands(layer, source, counters, bounds, Target::Offscreen);
                lemma_content_passes(layer, source, counters, bounds, Target::Offscreen);
                let head = seq![
                    Command::EndPass,
                    Command::ResizeOffscreen { width: bounds.width, height: bounds.height },
                    Command::BeginPass {
                        target: Target::Offscreen,
                        load: Load::Clear(Color { r: 0, g: 0, b: 0, a: 0 }),
                    },
                ];
                let tail = seq![
                    Command::EndPass,
                    Command::Blur { direction: Direction::Horizontal, strength },
                    Command::Blur { direction: Direction::Vertical, strength },
                    Command::Composite { bounds },
                ];
                lemma_three(
                    Command::EndPass,
                    Command::ResizeOffscreen { width: bounds.width, height: bounds.height },
                    Command::BeginPass {
                        target: Target::Offscreen,
                        load: Load::Clear(Color { r: 0, g: 0, b: 0, a: 0 }),
                    },
                    true,
                );
                lemma_three(
                    Command::EndPass,
                    Command::Blur { direction: Direction::Horizontal, strength },
                    Command::Blur { direction: Direction::Vertical, strength },
                    true,
                );
                lemma_four(
                    Command::EndPass,
                    Command::Blur { direction: Direction::Horizontal, strength },
                    Command::Blur { direction: Direction::Vertical, strength },
                    Command::Composite { bounds },
                    true,
                );
                lemma_passes_append(head, content, true);
                lemma_passes_append(head + content, tail, true);
                lemma_passes_append(head + content + tail, customs, true);
                lemma_passes_append(head + content + tail + customs, keep, true);
            },
        }
    }
}

/// The commands of a frame keep the render passes in order: none is begun
/// inside another, none is ended that was not begun, what has to be drawn
/// inside a pass is, what needs the encoder to itself has it, and no pass is
/// left open at the end.
pub proof fn lemma_frame_passes(layers: Seq<LayerView>, clear_color: Option<Color>, scale: u32)
    ensures
        passes(frame_commands(layers, clear_color, scale), false) == Some(false),
{
    lemma_layers_pass(layers, layers.len(), clear_color, scale);
    let drawn = layers_commands(layers, layers.len(), clear_color, scale);
    assert(frame_commands(layers, clear_color, scale).drop_last() =~= drawn);
}

/// The commands that begin a frame and draw some of its layers leave a
/// render pass open.
pub proof fn lemma_layers_pass(
    layers: Seq<LayerView>,
    n: nat,
    clear_color: Option<Color>,
    scale: u32,
)
    ensures
        passes(layers_commands(layers, n, clear_color, scale), false) == Some(true),
    decreases n,
{
    if n == 0 || n > layers.len() {
        lemma_passes_one(
            Command::BeginPass { target: Target::Surface, load: first_load(clear_color) },
            false,
        );
    } else {
        lemma_layers_pass(layers, (n - 1) as nat, clear_color, scale);
        lemma_layer_passes(
            layers[n - 1],
            (n - 1) as usize,
            counters_after(layers, (n - 1) as nat, scale),
            scale,
        );
        lemma_passes_append(
            layers_commands(layers, (n - 1) as nat, clear_color, scale),
            layer_commands(
                layers[n - 1],
                (n - 1) as usize,
                counters_after(layers, (n - 1) as nat, scale),
                scale,
            ),
            false,
        );
    }
}

/// Where a frame stands.
#[derive(Clone, Copy, Debug, PartialEq, Eq, Structural)]
pub enum Phase {
    /// No frame is on its way.
    Idle,
    /// The layers are prepared, the text is not yet.
    Prepared,
    /// The text is prepared too: the frame can be drawn.
    TextReady,
    /// The frame is drawn.
    Rendered,
}

/// One step of preparing a frame.
#[derive(Clone, Copy, Debug, PartialEq, Eq, Structural)]
pub enum Preparation {
    /// The quads of the layer at `source` are written to the buffer that
    /// `prepared` tells of.
    Quads { source: usize, prepared: Prepared },
    /// The meshes of the layer at `source` are handed to the mesh pipeline.
    Meshes { source: usize },
    /// The images of the layer at `source` are written to the buffer that
    /// `prepared` tells of.
    Images { source: usize, prepared: Prepared },
    /// A custom pipeline of the layer at `source` prepares itself.
    Custom { source: usize, pipeline: CustomPipeline },
}

/// What is to be done next to have the text of a frame prepared.
#[derive(Clone, Copy, Debug, PartialEq, Eq, Structural)]
pub enum TextStep {
    /// The text of the layer at `source` is to be prepared. Whether the
    /// atlas of glyphs has taken all of it is to be told with the next call.
    Prepare { source: usize, prepared: Prepared },
    /// The text of every layer is prepared.
    Done,
}

/// The number of bytes of a quad as its pipeline writes it.
pub const QUAD_BYTES: u64 = 68;

/// The number of bytes of an image as its pipeline writes it.
pub const IMAGE_BYTES: u64 = 36;

/// The number of bytes of a run of text as its pipeline writes it.
pub const TEXT_BYTES: u64 = 32;

/// Sequences the frames of a renderer.
#[derive(Debug)]
pub struct Backend {
    phase: Phase,
    quad_pipeline: Pipeline,
    image_pipeline: Pipeline,
    text_pipeline: Pipeline,
    text_cursor: usize,
    default_font: Font,
    default_text_size: u16,
}

/// The mathematical state of a [`Backend`].
pub struct BackendView {
    pub phase: Phase,
    pub quads: PipelineView,
    pub images: PipelineView,
    pub text: PipelineView,
    /// The number of layers whose text was looked at in this round of
    /// preparing text.
    pub text_cursor: usize,
    pub default_font: Font,
    pub default_text_size: u16,
}

/// The steps that prepare the custom pipelines of a layer, the first `n` of
/// them.
pub open spec fn custom_preparations(pipelines: Seq<CustomPipeline>, n: nat, source: usize) -> Seq<
    Preparation,
>
    decreases n,
{
    if n == 0 || n > pipelines.len() {
        Seq::empty()
    } else {
        custom_preparations(pipelines, (n - 1) as nat, source).push(
            Preparation::Custom { source, pipeline: pipelines[n - 1] },
        )
    }
}

impl BackendView {
    /// The state after the layer at `source` was prepared, and the steps of
    /// preparing it: its quads, its meshes, its images and its custom
    /// pipelines, as far as it has any. A layer that covers no pixel is
    /// left out.
    pub open spec fn with_layer(self, layer: LayerView, source: usize, scale: u32) -> (
        BackendView,
        Seq<Preparation>,
    ) {
        if !visible(layer, scale) {
            (self, Seq::empty())
        } else {
            let quads = layer.quads.len() > 0;
            let images = layer.images.len() > 0;
            (
                BackendView {
                    quads: if quads {
                        self.quads.prepared(layer.quads.len() as usize)
                    } else {
                        self.quads
                    },
                    images: if images {
                        self.images.prepared(layer.images.len() as usize)
                    } else {
                        self.images
                    },
                    ..self
                },
                (if quads {
                    seq![
                        Preparation::Quads {
                            source,
                            prepared: self.quads.preparation(layer.quads.len() as usize),
                        },
                    ]
                } else {
                    Seq::empty()
                }) + (if layer.meshes.len() > 0 {
                    seq![Preparation::Meshes { source }]
                } else {
                    Seq::empty()
                }) + (if images {
                    seq![
                        Preparation::Images {
                            source,
                            prepared: self.images.preparation(layer.images.len() as usize),
                        },
                    ]
                } else {
                    Seq::empty()
                }) + custom_preparations(layer.custom, layer.custom.len(), source),
            )
        }
    }

    /// The state and the step after one more call for the text of a frame.
    ///
    /// Where the atlas of glyphs has not taken the text of the step before,
    /// the round starts over: no layer of the text pipeline counts as
    /// prepared, and the layers are looked at from the first on. The next
    /// layer that covers a pixel and has text is prepared. Where none is
    /// left, the text is ready.
    pub open spec fn text_step(self, layers: Seq<LayerView>, scale: u32, outcome: Option<bool>) -> (
        BackendView,
        TextStep,
    ) {
        let again = outcome == Some(false);
        let from = if again {
            0
        } else {
            self.text_cursor as int
        };
        let text = if again {
            PipelineView { prepare_layer: 0, ..self.text }
        } else {
            self.text
        };
        let source = next_text_job(layers, scale, from);
        if 0 <= source < layers.len() {
            let count = layers[source].text.len() as usize;
            (
                BackendView {
                    text: text.prepared(count),
                    text_cursor: (source + 1) as usize,
                    ..self
                },
                TextStep::Prepare { source: source as usize, prepared: text.preparation(count) },
            )
        } else {
            (
                BackendView {
                    phase: Phase::TextReady,
                    text,
                    text_cursor: layers.len() as usize,
                    ..self
                },
                TextStep::Done,
            )
        }
    }

    /// The state after the first `n` of `layers` were prepared, and the
    /// steps of preparing them.
    pub open spec fn with_layers(self, layers: Seq<LayerView>, n: nat, scale: u32) -> (
        BackendView,
        Seq<Preparation>,
    )
        decreases n,
    {
        if n == 0 || n > layers.len() {
            (self, Seq::empty())
        } else {
            let (before, steps) = self.with_layers(layers, (n - 1) as nat, scale);
            let (after, more) = before.with_layer(layers[n - 1], (n - 1) as usize, scale);
            (after, steps + more)
        }
    }
}

/// Whether the text of `layer` has to be prepared: the layer covers a pixel
/// and has text.
pub open spec fn has_text_job(layer: LayerView, scale: u32) -> bool {
    visible(layer, scale) && layer.text.len() > 0
}

/// The first layer at or after `from` whose text has to be prepared, or the
/// number of layers where there is none.
pub open spec fn next_text_job(layers: Seq<LayerView>, scale: u32, from: int) -> int
    decreases layers.len() - from,
{
    if from < 0 || from >= layers.len() {
        layers.len() as int
    } else if has_text_job(layers[from], scale) {
        from
    } else {
        next_text_job(layers, scale, from + 1)
    }
}

impl View for Backend {
    type V = BackendView;

    closed spec fn view(&self) -> BackendView {
        BackendView {
            phase: self.phase,
            quads: self.quad_pipeline@,
            images: self.image_pipeline@,
            text: self.text_pipeline@,
            text_cursor: self.text_cursor,
            default_font: self.default_font,
            default_text_size: self.default_text_size,
        }
    }
}

fn is_visible(layer: &Layer<'_>, scale: u32) -> (shown: bool)
    ensures
        shown == visible(layer@, scale),
{
    let bounds = layer.bounds.snap(scale);
    bounds.width >= 1 && bounds.height >= 1
}

fn next(n: usize) -> (m: usize)
    ensures
        m == succ(n),
{
    if n < usize::MAX {
        n + 1
    } else {
        n
    }
}

impl Backend {
    /// A backend with the given settings, before its first frame.
    pub fn new(settings: Settings) -> (backend: Backend)
        ensures
            backend@ == (BackendView {
                phase: Phase::Idle,
                quads: PipelineView {
                    stride: QUAD_BYTES,
                    initial: INITIAL_INSTANCES,
                    slots: Seq::empty(),
                    prepare_layer: 0,
                },
                images: PipelineView {
                    stride: IMAGE_BYTES,
                    initial: INITIAL_INSTANCES,
                    slots: Seq::empty(),
                    prepare_layer: 0,
                },
                text: PipelineView {
                    stride: TEXT_BYTES,
                    initial: INITIAL_INSTANCES,
                    slots: Seq::empty(),
                    prepare_layer: 0,
                },
                text_cursor: 0,
                default_font: settings.default_font,
                default_text_size: settings.default_text_size,
            }),
    {
        Backend {
            phase: Phase::Idle,
            quad_pipeline: Pipeline::new(QUAD_BYTES, INITIAL_INSTANCES),
            image_pipeline: Pipeline::new(IMAGE_BYTES, INITIAL_INSTANCES),
            text_pipeline: Pipeline::new(TEXT_BYTES, INITIAL_INSTANCES),
            text_cursor: 0,
            default_font: settings.default_font,
            default_text_size: settings.default_text_size,
        }
    }

    /// Where the frame stands.
    pub fn phase(&self) -> (phase: Phase)
        ensures
            phase == self@.phase,
    {
        self.phase
    }

    /// The typeface of text that names none.
    pub fn default_font(&self) -> (font: Font)
        ensures
            font == self@.default_font,
    {
        self.default_font
    }

    /// The size of text that names none.
    pub fn default_size(&self) -> (size: u16)
        ensures
            size == self@.default_text_size,
    {
        self.default_text_size
    }

    fn prepare_layer(
        &mut self,
        layer: &Layer<'_>,
        source: usize,
        scale: u32,
        steps: &mut Vec<Preparation>,
    )
        ensures
            final(self)@ == old(self)@.with_layer(layer@, source, scale).0,
            final(steps)@ == old(steps)@ + old(self)@.with_layer(layer@, source, scale).1,
    {
        if is_visible(layer, scale) {
            if !layer.quads.is_empty() {
                let prepared = self.quad_pipeline.prepare(layer.quads.len());
                steps.push(Preparation::Quads { source, prepared });
            }
            if !layer.meshes.is_empty() {
                steps.push(Preparation::Meshes { source });
            }
            if !layer.images.is_empty() {
                let prepared = self.image_pipeline.prepare(layer.images.len());
                steps.push(Preparation::Images { source, prepared });
            }
            let ghost head = steps@;
            let mut k: usize = 0;
            assert(steps@ =~= head + custom_preparations(layer.custom@, 0, source));
            while k < layer.custom.len()
                invariant
                    k <= layer.custom@.len(),
                    steps@ == head + custom_preparations(layer.custom@, k as nat, source),
                decreases layer.custom.len() - k,
            {
                steps.push(Preparation::Custom { source, pipeline: layer.custom[k] });
                assert(steps@ =~= head + custom_preparations(
                    layer.custom@,
                    (k + 1) as nat,
                    source,
                ));
                k = k + 1;
            }
            assert(steps@ =~= old(steps)@ + old(self)@.with_layer(layer@, source, scale).1);
        } else {
            assert(steps@ =~= old(steps)@ + old(self)@.with_layer(layer@, source, scale).1);
        }
    }

    /// Begins a frame: prepares every layer that covers a pixel, in the
    /// order of the layers, and returns the steps of doing so.
    pub fn prepare(&mut self, layers: &Vec<Layer<'_>>, scale: u32) -> (steps: Vec<Preparation>)
        requires
            old(self)@.phase == Phase::Idle,
        ensures
            final(self)@ == (BackendView {
                phase: Phase::Prepared,
                text_cursor: 0,
                ..old(self)@.with_layers(views(layers@), layers@.len(), scale).0
            }),
            steps@ == old(self)@.with_layers(views(layers@), layers@.len(), scale).1,
    {
        let mut steps: Vec<Preparation> = Vec::new();
        let mut i: usize = 0;
        while i < layers.len()
            invariant
                i <= layers.len(),
                (self@, steps@) == old(self)@.with_layers(views(layers@), i as nat, scale),
            decreases layers.len() - i,
        {
            assert(views(layers@)[i as int] == layers@[i as int]@);
            self.prepare_layer(&layers[i], i, scale, &mut steps);
            i = i + 1;
        }
        self.phase = Phase::Prepared;
        self.text_cursor = 0;
        steps
    }

    /// Goes on with preparing the text of the frame. `outcome` tells of the
    /// step that the call before has returned: whether the atlas of glyphs
    /// has taken the text. With `Some(false)` the atlas has grown instead,
    /// and the text of every layer is prepared once more, from the first
    /// layer on. For the first call of a frame `outcome` is `None`.
    ///
    /// Returns the next layer whose text is to be prepared. When there is
    /// none left, the frame is ready to be drawn.
    pub fn prepare_text(&mut self, layers: &Vec<Layer<'_>>, scale: u32, outcome: Option<bool>) -> (step:
        TextStep)
        requires
            old(self)@.phase == Phase::Prepared,
        ensures
            (final(self)@, step) == old(self)@.text_step(views(layers@), scale, outcome),
    {
        match outcome {
            Some(false) => {
                self.text_pipeline.end_frame();
                self.text_cursor = 0;
            },
            _ => {},
        }
        let ghost start = self@;
        let ghost before = old(self)@;
        assert(start == (BackendView {
            text: if outcome == Some(false) {
                PipelineView { prepare_layer: 0, ..before.text }
            } else {
                before.text
            },
            text_cursor: if outcome == Some(false) {
                0
            } else {
                before.text_cursor
            },
            ..before
        }));
        let mut i: usize = self.text_cursor;
        while i < layers.len()
            invariant
                self@ == start,
                start.text_cursor <= i,
                before == old(self)@,
                start == (BackendView {
                    text: if outcome == Some(false) {
                        PipelineView { prepare_layer: 0, ..before.text }
                    } else {
                        before.text
                    },
                    text_cursor: if outcome == Some(false) {
                        0
                    } else {
                        before.text_cursor
                    },
                    ..before
                }),
                next_text_job(views(layers@), scale, start.text_cursor as int) == next_text_job(
                    views(layers@),
                    scale,
                    i as int,
                ),
            decreases layers.len() - i,
        {
            let layer = &layers[i];
            assert(views(layers@)[i as int] == layer@);
            if is_visible(layer, scale) && !layer.text.is_empty() {
                let prepared = self.text_pipeline.prepare(layer.text.len());
                self.text_cursor = i + 1;
                return TextStep::Prepare { source: i, prepared };
            }
            i = i + 1;
        }
        self.phase = Phase::TextReady;
        self.text_cursor = layers.len();
        TextStep::Done
    }

    /// Draws the frame: returns the commands that draw the layers in their
    /// order, from the render pass that is begun first to the end of the
    /// last.
    pub fn render(
        &mut self,
        layers: &Vec<Layer<'_>>,
        clear_color: Option<Color>,
        scale: u32,
    ) -> (commands: Vec<Command>)
        requires
            old(self)@.phase == Phase::TextReady,
        ensures
            final(self)@ == (BackendView { phase: Phase::Rendered, ..old(self)@ }),
            commands@ == frame_commands(views(layers@), clear_color, scale),
            passes(commands@, false) == Some(false),
    {
        let mut commands: Vec<Command> = Vec::new();
        commands.push(
            Command::BeginPass {
                target: Target::Surface,
                load: match clear_color {
                    Some(color) => Load::Clear(color),
                    None => Load::Keep,
                },
            },
        );
        let mut counters = Counters { quads: 0, meshes: 0, images: 0, text: 0 };
        assert(commands@ =~= layers_commands(views(layers@), 0, clear_color, scale));
        let mut i: usize = 0;
        while i < layers.len()
            invariant
                i <= layers.len(),
                counters == counters_after(views(layers@), i as nat, scale),
                commands@ == layers_commands(views(layers@), i as nat, clear_color, scale),
            decreases layers.len() - i,
        {
            let layer = &layers[i];
            assert(views(layers@)[i as int] == layer@);
            let ghost before = commands@;
            if is_visible(layer, scale) {
                let bounds = layer.bounds.snap(scale);
                match layer.blur {
                    None => {
                        push_content(&mut commands, layer, i, counters, bounds, Target::Surface);
                        if !layer.custom.is_empty() {
                            commands.push(Command::EndPass);
                            push_custom(&mut commands, layer, bounds);
                            commands.push(
                                Command::BeginPass { target: Target::Surface, load: Load::Keep },
                            );
                        }
                    },
                    Some(strength) => {
                        let mut stage = Stage::Idle.next();
                        commands.push(Command::EndPass);
                        commands.push(
                            Command::ResizeOffscreen { width: bounds.width, height: bounds.height },
                        );
                        commands.push(
                            Command::BeginPass {
                                target: Target::Offscreen,
                                load: Load::Clear(Color::transparent()),
                            },
                        );
                        push_content(&mut commands, layer, i, counters, bounds, Target::Offscreen);
                        commands.push(Command::EndPass);
                        stage = stage.next();
                        commands.push(
                            Command::Blur { direction: Direction::Horizontal, strength },
                        );
                        stage = stage.next();
                        commands.push(Command::Blur { direction: Direction::Vertical, strength });
                        stage = stage.next();
                        commands.push(Command::Composite { bounds });
                        stage = stage.next();
                        assert(stage == Stage::Idle);
                        push_custom(&mut commands, layer, bounds);
                        commands.push(
                            Command::BeginPass { target: Target::Surface, load: Load::Keep },
                        );
                    },
                }
                assert(commands@ =~= before + layer_commands(layer@, i, counters, scale));
                counters = Counters {
                    quads: if !layer.quads.is_empty() {
                        next(counters.quads)
                    } else {
                        counters.quads
                    },
                    meshes: if !layer.meshes.is_empty() {
                        next(counters.meshes)
                    } else {
                        counters.meshes
                    },
                    images: if !layer.images.is_empty() {
                        next(counters.images)
                    } else {
                        counters.images
                    },
                    text: if !layer.text.is_empty() {
                        next(counters.text)
                    } else {
                        counters.text
                    },
                };
            } else {
                assert(commands@ =~= before + layer_commands(layer@, i, counters, scale));
            }
            i = i + 1;
        }
        commands.push(Command::EndPass);
        proof {
            lemma_frame_passes(views(layers@), clear_color, scale);
        }
        self.phase = Phase::Rendered;
        commands
    }

    /// Ends the frame: no layer of any pipeline counts as prepared any
    /// more. The buffers of the pipelines stay as they are.
    pub fn end_frame(&mut self)
        requires
            old(self)@.phase == Phase::Rendered,
        ensures
            final(self)@ == (BackendView {
                phase: Phase::Idle,
                quads: PipelineView { prepare_layer: 0, ..old(self)@.quads },
                images: PipelineView { prepare_layer: 0, ..old(self)@.images },
                text: PipelineView { prepare_layer: 0, ..old(self)@.text },
                text_cursor: 0,
                ..old(self)@
            }),
    {
        self.quad_pipeline.end_frame();
        self.image_pipeline.end_frame();
        self.text_pipeline.end_frame();
        self.text_cursor = 0;
        self.phase = Phase::Idle;
    }
}

fn push_content(
    commands: &mut Vec<Command>,
    layer: &Layer<'_>,
    source: usize,
    counters: Counters,
    bounds: PixelRect,
    target: Target,
)
    ensures
        final(commands)@ == old(commands)@ + content_commands(
            layer@,
            source,
            counters,
            bounds,
            target,
        ),
{
    if !layer.quads.is_empty() {
        commands.push(Command::Quads { layer: counters.quads, bounds });
    }
    if !layer.meshes.is_empty() {
        // The meshes are drawn in a render pass of their own.
        commands.push(Command::EndPass);
        commands.push(Command::Meshes { layer: counters.meshes, source, target });
        commands.push(Command::BeginPass { target, load: Load::Keep });
    }
    if !layer.images.is_empty() {
        commands.push(Command::Images { layer: counters.images, bounds });
    }
    if !layer.text.is_empty() {
        commands.push(Command::Text { layer: counters.text, bounds });
    }
    assert(final(commands)@ =~= old(commands)@ + content_commands(
        layer@,
        source,
        counters,
        bounds,
        target,
    ));
}

fn push_custom(commands: &mut Vec<Command>, layer: &Layer<'_>, bounds: PixelRect)
    ensures
        final(commands)@ == old(commands)@ + custom_commands(
            layer@.custom,
            layer@.custom.len(),
            bounds,
        ),
{
    let mut k: usize = 0;
    assert(commands@ =~= old(commands)@ + custom_commands(layer@.custom, 0, bounds));
    while k < layer.custom.len()
        invariant
            k <= layer.custom@.len(),
            commands@ == old(commands)@ + custom_commands(layer@.custom, k as nat, bounds),
        decreases layer.custom.len() - k,
    {
        commands.push(Command::Custom { pipeline: layer.custom[k], bounds });
        assert(commands@ =~= old(commands)@ + custom_commands(
            layer@.custom,
            (k + 1) as nat,
            bounds,
        ));
        k = k + 1;
    }
}

/// Preparing and drawing agree on the layers of the pipelines.
///
/// In a frame that begins with no layer of the pipelines prepared, the
/// layer of the quad pipeline that the quads of a layer are prepared as is
/// the layer that the command for those quads names, and likewise for the
/// images: after any number of layers, the number of layers that each
/// pipeline has prepared is the counter that drawing has come to, and the
/// layer that is prepared next is that number.
pub proof fn lemma_prepared_is_drawn(backend: BackendView, layers: Seq<LayerView>, n: nat, scale: u32)
    requires
        backend.quads.prepare_layer == 0,
        backend.images.prepare_layer == 0,
        n <= layers.len() <= usize::MAX,
    ensures
        ({
            let after = backend.with_layers(layers, n, scale).0;
            let counters = counters_after(layers, n, scale);
            &&& after.quads.prepare_layer == counters.quads
            &&& after.images.prepare_layer == counters.images
            &&& after.quads.next_layer() == counters.quads
            &&& after.images.next_layer() == counters.images
            &&& counters.quads <= n && counters.images <= n
        }),
    decreases n,
{
    if n > 0 {
        lemma_prepared_is_drawn(backend, layers, (n - 1) as nat, scale);
    }
}

} // verus!
